use rspit::package::{Package, ParseError};

const INPUT: &str = r#"
//# [package]
//# name = "test"
//# version = "0.1.0"
//# edition = "2021"
//#
//# [dependencies]
//# rand = "*"

use rand::prelude::*;

fn main() {
    let num: u64 = random();
    println!("num: {}", num);
}
"#;

const NAME: &str = "test";

const TOML: &str = r#"
[package]
name = "test"
version = "0.1.0"
edition = "2021"

[dependencies]
rand = "*"
"#;

const SRC: &str = r#"
use rand::prelude::*;

fn main() {
    let num: u64 = random();
    println!("num: {}", num);
}
"#;

#[test]
fn package_from() {
    let package = Package::from(INPUT).unwrap();
    assert_eq!(package.name, NAME);
    assert_eq!(package.toml, TOML.trim());
    assert_eq!(package.src, SRC.trim());
}

#[test]
fn package_package_from() {
    let package = Package::from(INPUT).unwrap();
    assert_eq!(package.name, NAME);
    assert_eq!(package.toml, TOML.trim());
    assert_eq!(package.src, SRC.trim());
}

#[test]
fn malformed_manifest_is_syntax_error() {
    let r = Package::from("//# [package\n//# name = \"x\"\nfn main() {}\n");
    assert_eq!(r.unwrap_err(), ParseError::ManifestSyntax);
}

#[test]
fn manifest_without_name_is_missing_name() {
    let r = Package::from("//# [package]\n//# version = \"0.1.0\"\nfn main() {}\n");
    assert_eq!(r.unwrap_err(), ParseError::MissingName);
}

#[test]
fn empty_segment_has_no_name() {
    let r = Package::from("");
    assert_eq!(r.unwrap_err(), ParseError::MissingName);
}

#[test]
fn empty_file_yields_no_packages() {
    let packages = rspit::package::packages_from_text("").unwrap();
    assert_eq!(packages.len(), 0);
}

#[test]
fn two_segments_parse_in_file_order() {
    let text = "//# [package]\n//# name = \"alpha\"\nfn main() {}\n\n//# ---\n\n//# [package]\n//# name = \"beta\"\nfn main() {}\n";
    let packages = rspit::package::packages_from_text(text).unwrap();
    assert_eq!(packages.len(), 2);
    assert_eq!(packages[0].name, "alpha");
    assert_eq!(packages[1].name, "beta");
}

#[test]
fn separator_must_stand_alone_on_its_line() {
    let text =
        "//# [package]\n//# name = \"alpha\"\nfn main() {\n    let _s = \"//# --- inside\";\n}\n";
    let packages = rspit::package::packages_from_text(text).unwrap();
    assert_eq!(packages.len(), 1);
    assert_eq!(packages[0].name, "alpha");
    assert!(packages[0].src.contains("//# --- inside"));
}

#[test]
fn parse_serialize_parse_is_identity() {
    let package = Package::from(INPUT).unwrap();
    let rendered = package.to_segment_text();
    let again = Package::from(rendered.as_str()).unwrap();
    assert_eq!(again.name, package.name);
    assert_eq!(again.toml, package.toml);
    assert_eq!(again.src, package.src);
}

#[test]
fn serialize_renders_marker_and_one_space() {
    let package = Package {
        name: String::from("tiny"),
        toml: String::from("[package]\nname = \"tiny\""),
        src: String::from("fn main() {}"),
    };
    let rendered = package.to_segment_text();
    assert_eq!(rendered, "//# [package]\n//# name = \"tiny\"\nfn main() {}");
}

#[test]
fn blank_manifest_line_round_trips() {
    let text = "//# [package]\n//# name = \"gap\"\n//#\n//# [dependencies]\nfn main() {}\n";
    let package = Package::from(text).unwrap();
    assert_eq!(package.toml, "[package]\nname = \"gap\"\n\n[dependencies]");
    let again = Package::from(package.to_segment_text().as_str()).unwrap();
    assert_eq!(again.toml, package.toml);
    assert_eq!(again.src, package.src);
}

#[test]
fn trailing_blank_lines_shorten_across_a_round_trip() {
    // A segment ending in consecutive newlines parses to a source with a
    // trailing newline, which a render-and-reparse cannot keep: the line
    // joining never emits a trailing newline. Such inputs sit outside the
    // round-trip law.
    let text = "//# [package]\n//# name = \"tail\"\nfn main() {}\n\n\n";
    let package = Package::from(text).unwrap();
    assert_eq!(package.src, "fn main() {}\n\n");
    let again = Package::from(package.to_segment_text().as_str()).unwrap();
    assert_eq!(again.src, "fn main() {}");
}

#[test]
fn parse_error_in_one_segment_fails_the_file() {
    let text = "//# [package]\n//# name = \"alpha\"\nfn main() {}\n\n//# ---\n\n//# [package\nfn main() {}\n";
    let r = rspit::package::packages_from_text(text);
    assert_eq!(r.unwrap_err(), ParseError::ManifestSyntax);
}
