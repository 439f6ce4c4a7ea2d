use rspit::cache::Cache;
use rspit::orchestrator::{
    build, cargo_build_args, cargo_check_args, check, distribute, execute, release, run,
    should_build, Error,
};

fn slot(stored: Option<&str>, artifact: Option<&str>) -> Cache<String> {
    Cache::new(
        "/tmp/pit",
        "snippets",
        "alpha",
        stored.map(String::from),
        artifact.map(String::from),
        false,
    )
}

/// A stand-in for the external build tool that counts its invocations.
struct StubTool {
    calls: usize,
    exit_ok: bool,
}

impl StubTool {
    fn invoke(&mut self) -> bool {
        self.calls += 1;
        self.exit_ok
    }
}

fn run_once(cache: &mut Cache<String>, hash: &str, tool: &mut StubTool) -> Result<(), Error> {
    if should_build(cache, hash, false) {
        let prior = cache.restore().unwrap_or_default();
        let ok = tool.invoke();
        build(cache, hash, false, prior, ok)?;
    }
    // The produced executable itself is outside this model; report success.
    execute(true)
}

#[test]
fn second_run_with_unchanged_hash_skips_the_build_tool() {
    let mut cache = slot(None, None);
    let mut tool = StubTool { calls: 0, exit_ok: true };
    run_once(&mut cache, "h1", &mut tool).unwrap();
    assert_eq!(tool.calls, 1);
    run_once(&mut cache, "h1", &mut tool).unwrap();
    assert_eq!(tool.calls, 1);
}

#[test]
fn changed_source_rebuilds_once_and_records_the_new_hash() {
    let mut cache = slot(None, None);
    let mut tool = StubTool { calls: 0, exit_ok: true };
    run_once(&mut cache, "h1", &mut tool).unwrap();
    assert_eq!(tool.calls, 1);
    run_once(&mut cache, "h2", &mut tool).unwrap();
    assert_eq!(tool.calls, 2);
    assert_eq!(cache.stored_identity.as_deref(), Some("h2"));
}

#[test]
fn release_mode_always_rebuilds() {
    let cache = slot(Some("h1"), None);
    assert!(should_build(&cache, "h1", true));
    assert!(!should_build(&cache, "h1", false));
}

#[test]
fn failed_build_keeps_artifact_and_deletes_identity() {
    let mut cache = slot(Some("h0"), Some("tree"));
    let prior = cache.restore().unwrap();
    let r = build(&mut cache, "h1", false, prior, false);
    assert_eq!(r.unwrap_err(), Error::BuildToolFailure);
    assert_eq!(cache.artifact.as_deref(), Some("tree"));
    assert!(cache.stored_identity.is_none());
    // The next run retries the build even with an unchanged source.
    assert!(should_build(&cache, "h1", false));
    assert!(should_build(&cache, "h0", false));
}

#[test]
fn successful_debug_build_records_the_hash() {
    let mut cache = slot(None, None);
    let r = build(&mut cache, "h1", false, String::from("tree"), true);
    assert!(r.is_ok());
    assert_eq!(cache.artifact.as_deref(), Some("tree"));
    assert_eq!(cache.stored_identity.as_deref(), Some("h1"));
}

#[test]
fn successful_release_build_never_records_the_hash() {
    let mut cache = slot(None, None);
    let r = build(&mut cache, "h1", true, String::from("tree"), true);
    assert!(r.is_ok());
    assert!(cache.stored_identity.is_none());
}

#[test]
fn build_into_an_occupied_slot_is_a_cache_conflict() {
    let mut cache = slot(Some("h0"), Some("old-tree"));
    let r = build(&mut cache, "h1", false, String::from("new-tree"), true);
    assert_eq!(r.unwrap_err(), Error::CacheConflict);
    assert_eq!(cache.artifact.as_deref(), Some("old-tree"));
    assert_eq!(cache.stored_identity.as_deref(), Some("h0"));
}

#[test]
fn check_stores_back_but_never_touches_identity() {
    let mut cache = slot(Some("h0"), Some("tree"));
    let prior = cache.restore().unwrap();
    let r = check(&mut cache, prior, false);
    assert_eq!(r.unwrap_err(), Error::BuildToolFailure);
    assert_eq!(cache.artifact.as_deref(), Some("tree"));
    assert_eq!(cache.stored_identity.as_deref(), Some("h0"));
}

#[test]
fn execution_failure_is_distinct_from_build_failure() {
    assert!(execute(true).is_ok());
    assert_eq!(execute(false).unwrap_err(), Error::ExecutionFailure);
}

#[test]
fn run_surfaces_build_and_execution_failures_apart() {
    assert!(run(Ok(()), Some(true)).is_ok());
    assert_eq!(run(Ok(()), Some(false)).unwrap_err(), Error::ExecutionFailure);
    assert_eq!(run(Err(Error::BuildToolFailure), None).unwrap_err(), Error::BuildToolFailure);
    assert_eq!(run(Err(Error::CacheConflict), None).unwrap_err(), Error::CacheConflict);
}

#[test]
fn release_copies_from_the_slot_into_the_output_directory() {
    let mut cache = slot(None, None);
    let plan = release(&mut cache, "h1", String::from("tree"), true, "./out").unwrap();
    assert_eq!(plan.from, "/tmp/pit/snippets/alpha/target/release/alpha");
    assert_eq!(plan.to, "./out/alpha");
    assert!(cache.stored_identity.is_none());
}

#[test]
fn failed_release_build_distributes_nothing() {
    let mut cache = slot(None, None);
    let r = release(&mut cache, "h1", String::from("tree"), false, "./out");
    assert_eq!(r.unwrap_err(), Error::BuildToolFailure);
}

#[test]
fn distribute_paths_are_deterministic() {
    let cache = slot(None, None);
    let plan = distribute(&cache, "dist");
    assert_eq!(plan.from, "/tmp/pit/snippets/alpha/target/release/alpha");
    assert_eq!(plan.to, "dist/alpha");
}

#[test]
fn build_tool_argument_lists() {
    assert_eq!(cargo_check_args(false), vec!["check"]);
    assert_eq!(cargo_check_args(true), vec!["check", "--quiet"]);
    assert_eq!(cargo_build_args(false, false), vec!["build"]);
    assert_eq!(cargo_build_args(true, false), vec!["build", "--release"]);
    assert_eq!(cargo_build_args(false, true), vec!["build", "--quiet"]);
    assert_eq!(cargo_build_args(true, true), vec!["build", "--release", "--quiet"]);
}

#[test]
fn building_one_package_leaves_the_sibling_slot_untouched() {
    let mut alpha = slot(None, None);
    let beta: Cache<String> =
        Cache::new("/tmp/pit", "snippets", "beta", Some(String::from("hb")), None, false);
    build(&mut alpha, "ha", false, String::from("tree-a"), true).unwrap();
    assert_eq!(alpha.stored_identity.as_deref(), Some("ha"));
    assert_eq!(beta.stored_identity.as_deref(), Some("hb"));
    assert!(beta.artifact.is_none());
}
