use rspit::cache::Cache;

fn slot(stored: Option<&str>, artifact: Option<&str>) -> Cache<String> {
    Cache::new(
        "/tmp/pit",
        "snippets",
        "alpha",
        stored.map(String::from),
        artifact.map(String::from),
        false,
    )
}

#[test]
fn restore_then_store_keeps_the_artifact() {
    let mut c = slot(Some("h1"), Some("tree-contents"));
    let out = c.restore();
    assert_eq!(out.as_deref(), Some("tree-contents"));
    assert!(c.artifact.is_none());
    assert!(c.store(out.unwrap()).is_ok());
    assert_eq!(c.artifact.as_deref(), Some("tree-contents"));
    assert_eq!(c.stored_identity.as_deref(), Some("h1"));
}

#[test]
fn restore_of_an_empty_slot_hands_out_nothing() {
    let mut c = slot(None, None);
    assert!(c.restore().is_none());
}

#[test]
fn store_into_an_occupied_slot_is_refused() {
    let mut c = slot(Some("h1"), Some("old-tree"));
    assert!(c.store(String::from("new-tree")).is_err());
    assert_eq!(c.artifact.as_deref(), Some("old-tree"));
    assert_eq!(c.stored_identity.as_deref(), Some("h1"));
}

#[test]
fn identity_hash_comparison() {
    let c = slot(Some("h1"), None);
    assert!(c.is_same_identity_hash("h1"));
    assert!(!c.is_same_identity_hash("h2"));
    let empty = slot(None, None);
    assert!(!empty.is_same_identity_hash("h1"));
}

#[test]
fn write_and_delete_identity_hash() {
    let mut c = slot(None, None);
    c.write_identity_hash("h9");
    assert_eq!(c.stored_identity.as_deref(), Some("h9"));
    c.delete_identity_hash();
    assert!(c.stored_identity.is_none());
}

#[test]
fn slot_paths_are_deterministic() {
    let c = slot(None, None);
    assert_eq!(c.slot_dir, "/tmp/pit/snippets/alpha");
    assert_eq!(c.target_dir(), "/tmp/pit/snippets/alpha/target");
    assert_eq!(c.identity_hash_path(), "/tmp/pit/snippets/alpha/identity_hash");
    assert_eq!(c.debug_exe(), "/tmp/pit/snippets/alpha/target/debug/alpha");
    assert_eq!(c.release_exe(), "/tmp/pit/snippets/alpha/target/release/alpha");
}

#[test]
fn windows_executables_carry_the_suffix() {
    let c: Cache<String> =
        Cache::new("/tmp/pit", "snippets", "alpha", None, None, true);
    assert_eq!(c.exe_name, "alpha.exe");
    assert_eq!(c.debug_exe(), "/tmp/pit/snippets/alpha/target/debug/alpha.exe");
}
