use rspit::cache::Cache;
use rspit::commands::{
    add_package, check_all, check_specified_package, extract_package, init_snippet, list_caches,
    list_cached_packages, list_packages, run_all, run_specified_package,
};
use rspit::orchestrator::Error;
use rspit::package::{Package, ParseError};
use rspit::workspace::TempDir;

const TWO: &str = "//# [package]\n//# name = \"alpha\"\nfn main() {}\n\n//# ---\n\n//# [package]\n//# name = \"beta\"\nfn main() {}\n";

#[test]
fn list_outputs_alpha_then_beta() {
    let packages = run_all(TWO).unwrap();
    let names = list_packages(&packages);
    assert_eq!(names, vec!["alpha", "beta"]);
}

#[test]
fn check_all_parses_every_package() {
    let packages = check_all(TWO).unwrap();
    assert_eq!(packages.len(), 2);
    assert_eq!(packages[0].name, "alpha");
}

#[test]
fn specified_package_is_selected_by_name() {
    let p = run_specified_package(TWO, "beta").unwrap();
    assert_eq!(p.name, "beta");
    let p = check_specified_package(TWO, "alpha").unwrap();
    assert_eq!(p.name, "alpha");
}

#[test]
fn missing_package_is_reported_not_found() {
    let r = run_specified_package(TWO, "gamma");
    assert_eq!(r.unwrap_err(), Error::PackageNotFound);
}

#[test]
fn parse_failure_reaches_the_selection() {
    let r = check_specified_package("//# [package\nfn main() {}\n", "alpha");
    assert_eq!(r.unwrap_err(), Error::Parse(ParseError::ManifestSyntax));
}

#[test]
fn extract_lays_out_manifest_source_and_ignore_file() {
    let plan = extract_package(TWO, "alpha", "./out").unwrap();
    assert_eq!(plan.package_dir, "./out/alpha");
    assert_eq!(plan.src_dir, "./out/alpha/src");
    assert_eq!(plan.files.len(), 3);
    assert_eq!(plan.files[0].path, "./out/alpha/Cargo.toml");
    assert_eq!(plan.files[0].contents, "[package]\nname = \"alpha\"");
    assert_eq!(plan.files[1].path, "./out/alpha/src/main.rs");
    assert_eq!(plan.files[1].contents, "fn main() {}\n");
    assert_eq!(plan.files[2].path, "./out/alpha/.gitignore");
    assert_eq!(plan.files[2].contents, "/target\n");
}

#[test]
fn extract_of_a_missing_package_is_not_found() {
    let r = extract_package(TWO, "gamma", "./out");
    assert!(matches!(r, Err(Error::PackageNotFound)));
}

#[test]
fn init_snippet_generates_a_fresh_package_file() {
    let spec = init_snippet("rspit.rs", "./here");
    assert_eq!(spec.path, "./here/rspit.rs");
    assert!(spec.contents.starts_with("//# [package]\n//# name = \"tmp-"));
    assert!(spec.contents.ends_with("//# lto = true\n\nfn main() {\n}\n"));
    // The generated file itself parses into a single runnable package.
    let packages = rspit::package::packages_from_text(spec.contents.as_str()).unwrap();
    assert_eq!(packages.len(), 1);
    assert!(packages[0].name.starts_with("tmp-"));
    assert_eq!(packages[0].name.len(), 11);
}

#[test]
fn add_package_puts_a_fresh_package_on_top() {
    let existing = "//# [package]\n//# name = \"old\"\nfn main() {}\n";
    let content = add_package(existing);
    assert!(content.starts_with("//# [package]\n//# name = \"tmp-"));
    assert!(content.ends_with(existing));
    let packages = rspit::package::packages_from_text(content.as_str()).unwrap();
    assert_eq!(packages.len(), 2);
    assert_eq!(packages[1].name, "old");
}

#[test]
fn cached_packages_are_listed_by_matching_hash() {
    let packages = run_all(TWO).unwrap();
    let hash_alpha = packages[0].identity_hash();
    let caches: Vec<Cache<String>> = vec![
        Cache::new("/tmp/pit", "two", "alpha", Some(hash_alpha), None, false),
        Cache::new("/tmp/pit", "two", "beta", Some(String::from("stale")), None, false),
    ];
    let names = list_cached_packages(&packages, &caches);
    assert_eq!(names, vec!["alpha"]);
}

#[test]
fn list_caches_reports_only_an_up_to_date_slot() {
    let packages = run_all(TWO).unwrap();
    let cache: Cache<String> =
        Cache::new("/tmp/pit", "two", "alpha", Some(packages[0].identity_hash()), None, false);
    assert_eq!(list_caches(&cache, &packages[0]).as_deref(), Some("alpha"));
    let stale: Cache<String> =
        Cache::new("/tmp/pit", "two", "alpha", Some(String::from("old")), None, false);
    assert!(list_caches(&stale, &packages[0]).is_none());
}

#[test]
fn random_names_have_the_fixed_shape() {
    let a = rspit::random::random_name();
    let b = rspit::random::random_name();
    assert_eq!(a.len(), 11);
    assert!(a.starts_with("tmp-"));
    assert!(a[4..].chars().all(|c| c.is_ascii_lowercase() || c.is_ascii_digit()));
    assert_eq!(b.len(), 11);
    assert!(b.starts_with("tmp-"));
}

#[test]
fn workspace_layout_is_rooted_under_a_random_directory() {
    let package = Package {
        name: String::from("alpha"),
        toml: String::from("[package]\nname = \"alpha\""),
        src: String::from("fn main() {}"),
    };
    let ws = TempDir::new("/tmp", &package);
    assert!(ws.root.starts_with("/tmp/pit-"));
    assert_eq!(ws.root.len(), "/tmp/pit-".len() + 16);
    assert_eq!(ws.package_dir, format!("{}/alpha", ws.root));
    assert_eq!(ws.package_target_dir, format!("{}/alpha/target", ws.root));
    assert_eq!(ws.toml_path(), format!("{}/alpha/Cargo.toml", ws.root));
    assert_eq!(ws.src_dir(), format!("{}/alpha/src", ws.root));
    assert_eq!(ws.src_main_path(), format!("{}/alpha/src/main.rs", ws.root));
}
