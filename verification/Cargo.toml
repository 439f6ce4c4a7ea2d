[package]
name = "rspit"
version = "0.1.0"
edition = "2021"
publish = false

[dependencies]
anyhow = "1"
clap = { version = "4", features = ["derive"] }
rand = "0.8"
rayon = "1"
sha2 = "0.10"
tiny-ansi = "*"
toml = "*"
