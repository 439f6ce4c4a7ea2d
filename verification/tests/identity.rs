use rspit::package::Package;

fn sample(toml: &str, src: &str) -> Package {
    Package { name: String::from("sample"), toml: String::from(toml), src: String::from(src) }
}

#[test]
fn identity_hash_is_deterministic() {
    let a = sample("[package]\nname = \"sample\"", "fn main() {}");
    let b = sample("[package]\nname = \"sample\"", "fn main() {}");
    assert_eq!(a.identity_hash(), b.identity_hash());
    assert_eq!(a.identity_hash(), a.identity_hash());
}

#[test]
fn identity_hash_is_hex_of_fixed_length() {
    let a = sample("[package]\nname = \"sample\"", "fn main() {}");
    let h = a.identity_hash();
    assert_eq!(h.len(), 64);
    assert!(h.chars().all(|c| c.is_ascii_hexdigit() && !c.is_ascii_uppercase()));
}

#[test]
fn changed_source_changes_the_hash() {
    let a = sample("[package]\nname = \"sample\"", "fn main() {}");
    let b = sample("[package]\nname = \"sample\"", "fn main() { }");
    assert_ne!(a.identity_hash(), b.identity_hash());
}

#[test]
fn changed_manifest_changes_the_hash() {
    let a = sample("[package]\nname = \"sample\"", "fn main() {}");
    let b = sample("[package]\nname = \"sampl2\"", "fn main() {}");
    assert_ne!(a.identity_hash(), b.identity_hash());
}

#[test]
fn swapping_manifest_and_source_is_distinguishable() {
    let a = sample("alpha", "beta");
    let b = sample("beta", "alpha");
    assert_ne!(a.identity_hash(), b.identity_hash());
}

#[test]
fn gen_identity_pairs_name_and_hash() {
    let a = sample("[package]\nname = \"sample\"", "fn main() {}");
    let id = a.gen_identity();
    assert_eq!(id.name, "sample");
    assert_eq!(id.hash, a.identity_hash());
}
