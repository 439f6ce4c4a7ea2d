//! The command layer: for each user-visible command, the part that decides
//! and computes — parsing the container file, selecting packages, building
//! file plans and tool argument lists. Reading files, spawning the build
//! tool and writing results out belong to the caller.

use vstd::prelude::*;
use vstd::string::*;

use crate::cache::{spec_is_up_to_date, Cache, CacheView};
use crate::identity::sha256_hex;
use crate::orchestrator::Error;
use crate::package::{
    first_where, lemma_first_where_is, package_views, packages_from_text, parse_file_matches,
    spec_parse_file, Package, PackageView, ParseError,
};
use crate::paths::{join_path, joined};
use crate::random::{is_generated_name, random_name};
use crate::text::views_of;

verus! {

/// One file to be written: where and with what contents.
pub struct FileSpec {
    pub path: String,
    pub contents: String,
}

/// Whether a package carries the wanted name.
pub open spec fn name_matches(name: Seq<char>) -> spec_fn(PackageView) -> bool {
    |p: PackageView| p.name == name
}

/// The index of the first package with the given name, if any.
pub open spec fn spec_find_package(ps: Seq<PackageView>, name: Seq<char>) -> Option<int> {
    let i = first_where(ps, name_matches(name));
    if i < ps.len() {
        Option::Some(i)
    } else {
        Option::None
    }
}

/// Find the first package with the given name.
pub fn find_package(packages: &Vec<Package>, name: &str) -> (r: Option<usize>)
    ensures
        match r {
            Option::Some(i) => i < packages@.len() && spec_find_package(
                package_views(packages@),
                name@,
            ) == Option::Some(i as int),
            Option::None => spec_find_package(package_views(packages@), name@) is None,
        },
{
    let n = packages.len();
    let mut i: usize = 0;
    while i < n
        invariant
            i <= n == packages@.len(),
            forall|j: int| 0 <= j < i ==> #[trigger] packages@[j]@.name != name@,
        decreases n - i,
    {
        if crate::text::str_eq(packages[i].name.as_str(), name) {
            proof {
                let ps = package_views(packages@);
                assert forall|j: int| 0 <= j < i implies !name_matches(name@)(#[trigger] ps[j]) by {
                    assert(ps[j] == packages@[j]@);
                }
                assert(ps[i as int] == packages@[i as int]@);
                assert(name_matches(name@)(ps[i as int]));
                lemma_first_where_is(ps, name_matches(name@), i as int);
            }
            return Option::Some(i);
        }
        i += 1;
    }
    proof {
        let ps = package_views(packages@);
        assert forall|j: int| 0 <= j < ps.len() implies !name_matches(name@)(#[trigger] ps[j]) by {
            assert(ps[j] == packages@[j]@);
        }
        lemma_first_where_is(ps, name_matches(name@), ps.len() as int);
    }
    Option::None
}

/// Parsing the file and selecting one package by name: the parse failure
/// or the absence of the name is each reported as its own error.
pub open spec fn spec_select(file: Seq<char>, name: Seq<char>) -> Result<PackageView, Error> {
    match spec_parse_file(file) {
        Result::Err(e) => Result::Err(Error::Parse(e)),
        Result::Ok(ps) => match spec_find_package(ps, name) {
            Option::None => Result::Err(Error::PackageNotFound),
            Option::Some(i) => Result::Ok(ps[i]),
        },
    }
}

/// The exec selection matches the spec-level one.
pub open spec fn select_result_matches(
    r: Result<Package, Error>,
    s: Result<PackageView, Error>,
) -> bool {
    match (r, s) {
        (Result::Ok(p), Result::Ok(v)) => p@ == v,
        (Result::Err(e), Result::Err(f)) => e == f,
        _ => false,
    }
}

/// Parse the container file and select the named package.
fn select_package(text: &str, package: &str) -> (r: Result<Package, Error>)
    ensures
        select_result_matches(r, spec_select(text@, package@)),
{
    let packages = match packages_from_text(text) {
        Result::Ok(ps) => ps,
        Result::Err(e) => {
            return Result::Err(Error::Parse(e));
        },
    };
    match find_package(&packages, package) {
        Option::None => Result::Err(Error::PackageNotFound),
        Option::Some(i) => Result::Ok(packages[i].duplicate()),
    }
}

/// The check command over a whole file: every package, in file order, is
/// to be checked.
pub fn check_all(text: &str) -> (r: Result<Vec<Package>, ParseError>)
    ensures
        parse_file_matches(r, spec_parse_file(text@)),
{
    packages_from_text(text)
}

/// The check command for one named package.
pub fn check_specified_package(text: &str, package: &str) -> (r: Result<Package, Error>)
    ensures
        select_result_matches(r, spec_select(text@, package@)),
{
    select_package(text, package)
}

/// The run command over a whole file: every package, in file order, is to
/// be built and executed.
pub fn run_all(text: &str) -> (r: Result<Vec<Package>, ParseError>)
    ensures
        parse_file_matches(r, spec_parse_file(text@)),
{
    packages_from_text(text)
}

/// The run command for one named package.
pub fn run_specified_package(text: &str, package: &str) -> (r: Result<Package, Error>)
    ensures
        select_result_matches(r, spec_select(text@, package@)),
{
    select_package(text, package)
}

/// The names of the parsed packages, in file order.
pub fn list_packages(packages: &Vec<Package>) -> (r: Vec<String>)
    ensures
        r@.len() == packages@.len(),
        forall|i: int| 0 <= i < r@.len() ==> #[trigger] r@[i]@ == packages@[i]@.name,
{
    let n = packages.len();
    let mut out: Vec<String> = Vec::new();
    let mut i: usize = 0;
    while i < n
        invariant
            i <= n == packages@.len(),
            out@.len() == i,
            forall|j: int| 0 <= j < i ==> #[trigger] out@[j]@ == packages@[j]@.name,
        decreases n - i,
    {
        out.push(packages[i].name.clone());
        i += 1;
    }
    out
}

/// The package's name, when its identity hash matches the slot's stored
/// one; nothing otherwise.
pub fn list_caches<A>(cache: &Cache<A>, package: &Package) -> (r: Option<String>)
    ensures
        r is Some <==> spec_is_up_to_date(cache@, sha256_hex(package@.toml, package@.src)),
        r matches Option::Some(n) ==> n@ == package@.name,
{
    let hash = package.identity_hash();
    if cache.is_same_identity_hash(hash.as_str()) {
        Option::Some(package.name.clone())
    } else {
        Option::None
    }
}

/// The views of a list of cache slots.
pub open spec fn cache_views<A>(cs: Seq<Cache<A>>) -> Seq<CacheView<A>> {
    cs.map_values(|c: Cache<A>| c@)
}

/// The names of the packages whose identity hash matches their slot's
/// stored one, in file order.
pub open spec fn spec_cached_names<A>(ps: Seq<PackageView>, cs: Seq<CacheView<A>>) -> Seq<Seq<char>>
    decreases ps.len(),
{
    if ps.len() == 0 || cs.len() < ps.len() {
        Seq::empty()
    } else {
        let rest = spec_cached_names(ps.drop_last(), cs.take(ps.len() - 1));
        if spec_is_up_to_date(cs[ps.len() - 1], sha256_hex(ps.last().toml, ps.last().src)) {
            rest.push(ps.last().name)
        } else {
            rest
        }
    }
}

/// List the cached packages of one container file: each package stands
/// beside its cache slot.
pub fn list_cached_packages<A>(packages: &Vec<Package>, caches: &Vec<Cache<A>>) -> (r: Vec<String>)
    requires
        packages@.len() == caches@.len(),
    ensures
        views_of(r@) == spec_cached_names(package_views(packages@), cache_views(caches@)),
{
    let n = packages.len();
    let mut out: Vec<String> = Vec::new();
    proof {
        assert(package_views(packages@).take(0) =~= Seq::<PackageView>::empty());
        assert(views_of(out@) =~= spec_cached_names(
            package_views(packages@).take(0),
            cache_views(caches@),
        ));
    }
    let mut i: usize = 0;
    while i < n
        invariant
            i <= n == packages@.len(),
            caches@.len() == n,
            views_of(out@) == spec_cached_names(
                package_views(packages@).take(i as int),
                cache_views(caches@),
            ),
        decreases n - i,
    {
        let ghost out0 = out@;
        let ghost pre = package_views(packages@).take(i as int);
        let ghost cur = package_views(packages@).take(i + 1);
        match list_caches(&caches[i], &packages[i]) {
            Option::Some(name) => {
                out.push(name);
                proof {
                    assert(out@ == out0.push(name));
                }
            },
            Option::None => {},
        }
        proof {
            assert(cur.drop_last() =~= pre);
            assert(cur.last() == packages@[i as int]@);
            assert(cache_views(caches@).take(cur.len() - 1) =~= cache_views(caches@).take(
                i as int,
            ));
            assert(cache_views(caches@)[i as int] == caches@[i as int]@);
            assert(spec_cached_names(pre, cache_views(caches@).take(i as int)) == spec_cached_names(
                pre,
                cache_views(caches@),
            )) by {
                lemma_cached_names_depends_on_prefix(pre, cache_views(caches@), i as int);
            }
            assert(views_of(out@) =~= spec_cached_names(cur, cache_views(caches@)));
        }
        i += 1;
    }
    proof {
        assert(package_views(packages@).take(n as int) =~= package_views(packages@));
    }
    out
}

/// The manifest-and-stub text of a freshly generated package, up to its
/// name.
pub open spec fn init_content_head() -> Seq<char> {
    "//# [package]\n//# name = \""@
}

/// The rest of the freshly generated package after its name: manifest
/// defaults and an empty main function.
pub open spec fn init_content_tail() -> Seq<char> {
    "\"\n//# version = \"0.1.0\"\n//# edition = \"2021\"\n//#\n//# [dependencies]\n//#\n//# [profile.release]\n//# lto = true\n\nfn main() {\n}\n"@
}

/// A fresh container-file entry carrying the given package name.
pub open spec fn spec_init_content(name: Seq<char>) -> Seq<char> {
    init_content_head() + name + init_content_tail()
}

/// A fresh entry placed on top of an existing container file, behind a
/// separator line.
pub open spec fn spec_add_content(name: Seq<char>, existing: Seq<char>) -> Seq<char> {
    spec_init_content(name) + "\n//# ---\n\n"@ + existing
}

fn init_content(name: &str) -> (r: String)
    ensures
        r@ == spec_init_content(name@),
{
    let mut r = "//# [package]\n//# name = \"".to_owned();
    r.append(name);
    r.append(
        "\"\n//# version = \"0.1.0\"\n//# edition = \"2021\"\n//#\n//# [dependencies]\n//#\n//# [profile.release]\n//# lto = true\n\nfn main() {\n}\n",
    );
    r
}

/// The init command: a new container file with one randomly named empty
/// package.
pub fn init_snippet(file_name: &str, out_dir: &str) -> (r: FileSpec)
    ensures
        r.path@ == joined(out_dir@, file_name@),
        exists|name: Seq<char>|
            #[trigger] is_generated_name(name) && r.contents@ == spec_init_content(name),
{
    let name = random_name();
    let contents = init_content(name.as_str());
    proof {
        assert(is_generated_name(name@) && contents@ == spec_init_content(name@));
    }
    FileSpec { path: join_path(out_dir, file_name), contents }
}

/// The add command: the rewritten container-file text, a randomly named
/// empty package placed on top of the existing entries.
pub fn add_package(text: &str) -> (r: String)
    ensures
        exists|name: Seq<char>|
            #[trigger] is_generated_name(name) && r@ == spec_add_content(name, text@),
{
    let name = random_name();
    let mut r = init_content(name.as_str());
    r.append("\n//# ---\n\n");
    r.append(text);
    proof {
        assert(is_generated_name(name@) && r@ == spec_add_content(name@, text@));
    }
    r
}

/// The files and directories that extract a package into its own package
/// directory.
pub struct ExtractPlan {
    /// The package directory, to be created (with its parents).
    pub package_dir: String,
    /// The source directory inside it, to be created.
    pub src_dir: String,
    /// The files to write: the manifest, the source, and an ignore file
    /// for the build-output tree.
    pub files: Vec<FileSpec>,
}

/// The extract command for one package record: where its manifest, source
/// and ignore file belong.
pub fn extract(package: &Package, out_dir: &str) -> (plan: ExtractPlan)
    ensures
        plan.package_dir@ == joined(out_dir@, package@.name),
        plan.src_dir@ == joined(plan.package_dir@, "src"@),
        plan.files@.len() == 3,
        plan.files@[0].path@ == joined(plan.package_dir@, "Cargo.toml"@),
        plan.files@[0].contents@ == package@.toml,
        plan.files@[1].path@ == joined(plan.src_dir@, "main.rs"@),
        plan.files@[1].contents@ == package@.src,
        plan.files@[2].path@ == joined(plan.package_dir@, ".gitignore"@),
        plan.files@[2].contents@ == "/target\n"@,
{
    let package_dir = join_path(out_dir, package.name.as_str());
    let src_dir = join_path(package_dir.as_str(), "src");
    let mut files: Vec<FileSpec> = Vec::new();
    files.push(
        FileSpec {
            path: join_path(package_dir.as_str(), "Cargo.toml"),
            contents: package.toml.clone(),
        },
    );
    files.push(
        FileSpec { path: join_path(src_dir.as_str(), "main.rs"), contents: package.src.clone() },
    );
    files.push(
        FileSpec {
            path: join_path(package_dir.as_str(), ".gitignore"),
            contents: "/target\n".to_owned(),
        },
    );
    ExtractPlan { package_dir, src_dir, files }
}

/// The extract command: parse the file, select the named package, and lay
/// out its extraction.
pub fn extract_package(text: &str, package: &str, out_dir: &str) -> (r: Result<ExtractPlan, Error>)
    ensures
        r is Ok <==> spec_select(text@, package@) is Ok,
        r matches Result::Err(e) ==> spec_select(text@, package@) == Result::Err::<
            PackageView,
            Error,
        >(e),
        r matches Result::Ok(plan) ==> {
            let p = spec_select(text@, package@)->Ok_0;
            &&& plan.package_dir@ == joined(out_dir@, p.name)
            &&& plan.src_dir@ == joined(plan.package_dir@, "src"@)
            &&& plan.files@.len() == 3
            &&& plan.files@[0].path@ == joined(plan.package_dir@, "Cargo.toml"@)
            &&& plan.files@[0].contents@ == p.toml
            &&& plan.files@[1].path@ == joined(plan.src_dir@, "main.rs"@)
            &&& plan.files@[1].contents@ == p.src
            &&& plan.files@[2].path@ == joined(plan.package_dir@, ".gitignore"@)
            &&& plan.files@[2].contents@ == "/target\n"@
        },
{
    match select_package(text, package) {
        Result::Err(e) => Result::Err(e),
        Result::Ok(p) => Result::Ok(extract(&p, out_dir)),
    }
}

/// The cached-name list reads only the first `ps.len()` slots.
proof fn lemma_cached_names_depends_on_prefix<A>(
    ps: Seq<PackageView>,
    cs: Seq<CacheView<A>>,
    k: int,
)
    requires
        ps.len() <= k <= cs.len(),
    ensures
        spec_cached_names(ps, cs.take(k)) == spec_cached_names(ps, cs),
    decreases ps.len(),
{
    if ps.len() == 0 {
    } else {
        assert(cs.take(k).take(ps.len() - 1) =~= cs.take(ps.len() - 1));
        assert(cs.take(ps.len() - 1) =~= cs.take(ps.len() - 1).take(ps.len() - 1));
        lemma_cached_names_depends_on_prefix(ps.drop_last(), cs.take(ps.len() - 1), ps.len() - 1);
        lemma_cached_names_depends_on_prefix(ps.drop_last(), cs, ps.len() - 1);
        assert(cs.take(k)[ps.len() - 1] == cs[ps.len() - 1]);
    }
}

} // verus!
