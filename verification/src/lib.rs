//! Keep several independent, runnable program snippets inside one container
//! file, each snippet carrying its own embedded build manifest, and
//! build/run/release them without re-compiling unchanged snippets.
//!
//! This crate holds the verified core: the parser that splits a container
//! file into named packages, the content-addressed identity hash, the
//! build-artifact cache model, and the orchestration decisions. Filesystem
//! moves, subprocess invocation and terminal output live outside, driven by
//! the plans and transitions this library computes.

pub mod cache;
pub mod commands;
pub mod identity;
pub mod orchestrator;
pub mod package;
pub mod paths;
pub mod random;
pub mod text;
pub mod workspace;
