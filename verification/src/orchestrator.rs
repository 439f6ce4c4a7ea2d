//! The per-package command state machine. For one invocation a package
//! moves from Unchecked to Cached (a debug build whose identity hash
//! matches the stored one) or to Building, and a build ends Built or
//! Failed.
//!
//! The outside steps — running the build tool, running the produced
//! executable — happen between these decisions; their exit statuses come
//! back in as plain values, and every function here states what holds of
//! the slot and the result for each value.

use vstd::prelude::*;

use crate::cache::{spec_is_up_to_date, Cache, CacheView};
use crate::package::ParseError;
use crate::paths::{join_path, joined};

verus! {

/// What can go wrong while serving a command for one package. Errors for
/// one package never abort its siblings: each package's outcome stands
/// alone.
#[derive(Clone, Copy, Debug, PartialEq, Eq, Structural)]
pub enum Error {
    /// The container file failed to parse.
    Parse(ParseError),
    /// An artifact directory was already present where none was expected:
    /// inconsistent on-disk state, a lost restore or concurrent use.
    CacheConflict,
    /// The external build tool exited nonzero.
    BuildToolFailure,
    /// The produced executable exited nonzero; distinct from a build
    /// failure so a caller can tell "didn't build" from "built but
    /// crashed".
    ExecutionFailure,
    /// The requested package does not exist in the parsed file.
    PackageNotFound,
}

/// The entry decision: a release build always rebuilds; a debug build is
/// skipped exactly when the stored identity matches the new hash.
pub open spec fn spec_should_build<A>(c: CacheView<A>, new_hash: Seq<char>, release: bool) -> bool {
    release || !spec_is_up_to_date(c, new_hash)
}

/// The slot state and result of completing the Building phase: the artifact
/// directory is stored back whatever the tool's exit was, so partial build
/// products are kept; on failure the stored identity is deleted; on a
/// successful debug build the new hash is recorded; a release build never
/// touches the record. A slot that already holds an artifact refuses the
/// store and is left untouched.
pub open spec fn spec_build<A>(
    c: CacheView<A>,
    new_hash: Seq<char>,
    release: bool,
    built: A,
    tool_ok: bool,
) -> (CacheView<A>, Result<(), Error>) {
    if c.artifact is Some {
        (c, Result::Err(Error::CacheConflict))
    } else {
        let stored = CacheView { artifact: Option::Some(built), ..c };
        if tool_ok {
            if release {
                (stored, Result::Ok(()))
            } else {
                (
                    CacheView { stored_identity: Option::Some(new_hash), ..stored },
                    Result::Ok(()),
                )
            }
        } else {
            (
                CacheView { stored_identity: Option::None, ..stored },
                Result::Err(Error::BuildToolFailure),
            )
        }
    }
}

/// The slot state and result of completing a check: the same restore/store
/// machinery as a build, but the identity record is never touched.
pub open spec fn spec_check<A>(c: CacheView<A>, built: A, tool_ok: bool) -> (
    CacheView<A>,
    Result<(), Error>,
) {
    if c.artifact is Some {
        (c, Result::Err(Error::CacheConflict))
    } else {
        let stored = CacheView { artifact: Option::Some(built), ..c };
        if tool_ok {
            (stored, Result::Ok(()))
        } else {
            (stored, Result::Err(Error::BuildToolFailure))
        }
    }
}

/// Decide between Cached and Building on entry.
pub fn should_build<A>(cache: &Cache<A>, new_identity_hash: &str, release: bool) -> (b: bool)
    ensures
        b == spec_should_build(cache@, new_identity_hash@, release),
{
    release || !cache.is_same_identity_hash(new_identity_hash)
}

/// Complete the Building phase, given the artifact directory that came out
/// of the workspace and the build tool's exit status.
pub fn build<A>(
    cache: &mut Cache<A>,
    new_identity_hash: &str,
    release: bool,
    built: A,
    tool_ok: bool,
) -> (r: Result<(), Error>)
    ensures
        final(cache)@ == spec_build(old(cache)@, new_identity_hash@, release, built, tool_ok).0,
        r == spec_build(old(cache)@, new_identity_hash@, release, built, tool_ok).1,
{
    match cache.store(built) {
        Result::Err(()) => Result::Err(Error::CacheConflict),
        Result::Ok(()) => {
            if tool_ok {
                if !release {
                    cache.write_identity_hash(new_identity_hash);
                }
                Result::Ok(())
            } else {
                cache.delete_identity_hash();
                Result::Err(Error::BuildToolFailure)
            }
        },
    }
}

/// Complete a check, given the artifact directory that came out of the
/// workspace and the verification step's exit status.
pub fn check<A>(cache: &mut Cache<A>, built: A, tool_ok: bool) -> (r: Result<(), Error>)
    ensures
        final(cache)@ == spec_check(old(cache)@, built, tool_ok).0,
        r == spec_check(old(cache)@, built, tool_ok).1,
{
    match cache.store(built) {
        Result::Err(()) => Result::Err(Error::CacheConflict),
        Result::Ok(()) => {
            if tool_ok {
                Result::Ok(())
            } else {
                Result::Err(Error::BuildToolFailure)
            }
        },
    }
}

/// Map the produced executable's exit status to the run command's outcome.
pub fn execute(exit_success: bool) -> (r: Result<(), Error>)
    ensures
        r is Ok <==> exit_success,
        !exit_success ==> r == Result::Err::<(), Error>(Error::ExecutionFailure),
{
    if exit_success {
        Result::Ok(())
    } else {
        Result::Err(Error::ExecutionFailure)
    }
}

/// The run command's outcome, given the build phase's result and, when
/// that succeeded, the executed program's exit status. The executable runs
/// only after a successful build phase; a build failure is surfaced as it
/// is, an execution failure as its own error.
pub fn run(
    build_result: Result<(), Error>,
    exec_exit_success: Option<bool>,
) -> (r: Result<(), Error>)
    requires
        build_result is Ok <==> exec_exit_success is Some,
    ensures
        build_result matches Result::Err(e) ==> r == Result::Err::<(), Error>(e),
        build_result is Ok ==> (r is Ok <==> exec_exit_success == Option::Some(true)),
        build_result is Ok && exec_exit_success == Option::Some(false) ==> r == Result::Err::<
            (),
            Error,
        >(Error::ExecutionFailure),
{
    match build_result {
        Result::Err(e) => Result::Err(e),
        Result::Ok(()) => match exec_exit_success {
            Option::Some(ok) => execute(ok),
            Option::None => Result::Ok(()),
        },
    }
}

/// Where to copy a release executable from and to.
#[derive(Debug)]
pub struct CopyPlan {
    pub from: String,
    pub to: String,
}

/// The release distribution: the release executable is copied out of the
/// slot into the output directory under its executable name.
pub fn distribute<A>(cache: &Cache<A>, out_dir: &str) -> (plan: CopyPlan)
    ensures
        plan.from@ == joined(
            joined(joined(cache@.slot_dir, "target"@), "release"@),
            cache@.exe_name,
        ),
        plan.to@ == joined(out_dir@, cache@.exe_name),
{
    CopyPlan { from: cache.release_exe(), to: join_path(out_dir, cache.exe_name.as_str()) }
}

/// Complete the release command: the Building phase in release mode, then
/// the copy plan for the produced executable. The identity record is never
/// updated: release distribution never skips the build step.
pub fn release<A>(
    cache: &mut Cache<A>,
    new_identity_hash: &str,
    built: A,
    tool_ok: bool,
    out_dir: &str,
) -> (r: Result<CopyPlan, Error>)
    ensures
        final(cache)@ == spec_build(old(cache)@, new_identity_hash@, true, built, tool_ok).0,
        r is Ok <==> spec_build(old(cache)@, new_identity_hash@, true, built, tool_ok).1 is Ok,
        r matches Result::Err(e) ==> spec_build(
            old(cache)@,
            new_identity_hash@,
            true,
            built,
            tool_ok,
        ).1 == Result::Err::<(), Error>(e),
        r matches Result::Ok(plan) ==> plan.from@ == joined(
            joined(joined(old(cache)@.slot_dir, "target"@), "release"@),
            old(cache)@.exe_name,
        ) && plan.to@ == joined(out_dir@, old(cache)@.exe_name),
{
    match build(cache, new_identity_hash, true, built, tool_ok) {
        Result::Err(e) => Result::Err(e),
        Result::Ok(()) => Result::Ok(distribute(cache, out_dir)),
    }
}

/// The build tool's arguments for a check: the verification subcommand,
/// and the quiet flag when asked for.
pub open spec fn spec_check_args(quiet: bool) -> Seq<Seq<char>> {
    if quiet {
        seq!["check"@, "--quiet"@]
    } else {
        seq!["check"@]
    }
}

/// Arguments for the external tool's lighter verification step.
pub fn cargo_check_args(quiet: bool) -> (r: Vec<String>)
    ensures
        crate::text::views_of(r@) == spec_check_args(quiet),
{
    let mut args: Vec<String> = Vec::new();
    args.push("check".to_owned());
    if quiet {
        args.push("--quiet".to_owned());
        proof {
            assert(crate::text::views_of(args@) =~= spec_check_args(quiet));
        }
    } else {
        proof {
            assert(crate::text::views_of(args@) =~= spec_check_args(quiet));
        }
    }
    args
}

/// The build tool's arguments for a build: the build subcommand, the
/// release flag in release mode, and the quiet flag when asked for.
pub open spec fn spec_build_args(release: bool, quiet: bool) -> Seq<Seq<char>> {
    seq!["build"@] + (if release {
        seq!["--release"@]
    } else {
        Seq::<Seq<char>>::empty()
    }) + (if quiet {
        seq!["--quiet"@]
    } else {
        Seq::<Seq<char>>::empty()
    })
}

/// Arguments for the external tool's build step.
pub fn cargo_build_args(release: bool, quiet: bool) -> (r: Vec<String>)
    ensures
        crate::text::views_of(r@) == spec_build_args(release, quiet),
{
    let mut args: Vec<String> = Vec::new();
    args.push("build".to_owned());
    if release {
        args.push("--release".to_owned());
    }
    if quiet {
        args.push("--quiet".to_owned());
    }
    proof {
        assert(crate::text::views_of(args@) =~= spec_build_args(release, quiet));
    }
    args
}

/// After a package is built once successfully in debug mode, a rerun with
/// the unchanged identity hash decides Cached: the external build tool is
/// not invoked again.
pub proof fn lemma_cache_hit_skips_build<A>(c: CacheView<A>, h: Seq<char>, built: A)
    requires
        c.artifact is None,
    ensures
        spec_build(c, h, false, built, true).1 is Ok,
        !spec_should_build(spec_build(c, h, false, built, true).0, h, false),
{
}

/// When the source changes between two runs, the second run decides
/// Building, and its successful completion records the new hash as the
/// stored identity.
pub proof fn lemma_changed_source_rebuilds<A>(
    c: CacheView<A>,
    h_old: Seq<char>,
    h_new: Seq<char>,
    built: A,
)
    requires
        c.stored_identity == Option::Some(h_old),
        h_new != h_old,
        c.artifact is None,
    ensures
        spec_should_build(c, h_new, false),
        spec_build(c, h_new, false, built, true).1 is Ok,
        spec_build(c, h_new, false, built, true).0.stored_identity == Option::Some(h_new),
{
}

/// A build tool failure stores the artifact directory back into the slot
/// but deletes the stored identity, so a later run decides Building again
/// for every hash rather than reporting stale success.
pub proof fn lemma_failed_build_invalidates<A>(
    c: CacheView<A>,
    h: Seq<char>,
    release: bool,
    built: A,
)
    requires
        c.artifact is None,
    ensures
        spec_build(c, h, release, built, false).1 == Result::Err::<(), Error>(
            Error::BuildToolFailure,
        ),
        spec_build(c, h, release, built, false).0.artifact == Option::Some(built),
        spec_build(c, h, release, built, false).0.stored_identity is None,
        forall|h2: Seq<char>| spec_should_build(spec_build(c, h, release, built, false).0, h2, false),
{
}

} // verus!
