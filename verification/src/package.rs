//! The package parser: splits the text of a container file into package
//! records, each made of a manifest (the contiguous comment-marked lines at
//! the top of a segment) and a source body (the rest), and reads the package
//! name out of the manifest.

use vstd::prelude::*;
use vstd::string::*;

use crate::text::{
    join_lines, lemma_join_last_empty, lemma_join_of_lines, lemma_lines_last_nonempty,
    lemma_lines_line_free, lemma_lines_of_join, line_free, spec_join_lines, spec_lines,
    split_lines, views_of,
};

verus! {

/// Why a container file failed to parse.
#[derive(Clone, Copy, Debug, PartialEq, Eq, Structural)]
pub enum ParseError {
    /// The manifest text is not a well-formed structured document.
    ManifestSyntax,
    /// The manifest parsed but holds no package name.
    MissingName,
}

/// One buildable unit extracted from a container file.
#[derive(Debug)]
pub struct Package {
    /// The name read from the manifest's package table.
    pub name: String,
    /// The manifest text, marker prefixes stripped.
    pub toml: String,
    /// The source text.
    pub src: String,
}

/// The mathematical content of a `Package`.
pub struct PackageView {
    pub name: Seq<char>,
    pub toml: Seq<char>,
    pub src: Seq<char>,
}

impl View for Package {
    type V = PackageView;

    open spec fn view(&self) -> PackageView {
        PackageView { name: self.name@, toml: self.toml@, src: self.src@ }
    }
}

/// What parsing the manifest text as a structured document yields:
/// `None` when the text is malformed, `Some(None)` when it parses but holds
/// no package name, and `Some(Some(name))` otherwise. Left uninterpreted:
/// the document grammar belongs to the outside parser.
pub uninterp spec fn manifest_name(toml: Seq<char>) -> Option<Option<Seq<char>>>;

/// Relies on `toml::Table`'s `FromStr` together with `Table::get`,
/// `Value::get` and `Value::as_str`: parses the manifest text as a
/// document and reads the string at the `package` table's `name` field.
/// The outcome depends on the text alone.
#[verifier::external_body]
fn toml_package_name(toml_text: &str) -> (r: Option<Option<String>>)
    ensures
        match r {
            Option::None => manifest_name(toml_text@) is None,
            Option::Some(Option::None) => manifest_name(toml_text@) == Option::Some(
                Option::None::<Seq<char>>,
            ),
            Option::Some(Option::Some(name)) => manifest_name(toml_text@) == Option::Some(
                Option::Some(name@),
            ),
        },
{
    let table: toml::Table = match toml_text.parse() {
        Ok(t) => t,
        Err(_) => return None,
    };
    let package = match table.get("package") {
        Some(p) => p,
        None => return Some(None),
    };
    match package.get("name") {
        Some(n) => match n.as_str() {
            Some(s) => Some(Some(s.to_owned())),
            None => Some(None),
        },
        None => Some(None),
    }
}

/// The marker that opens a manifest line.
pub open spec fn manifest_marker() -> Seq<char> {
    seq!['/', '/', '#']
}

/// The line that separates two packages inside one container file.
pub open spec fn separator_line() -> Seq<char> {
    seq!['/', '/', '#', ' ', '-', '-', '-']
}

pub open spec fn is_blank(l: Seq<char>) -> bool {
    l.len() == 0
}

pub open spec fn is_manifest_line(l: Seq<char>) -> bool {
    l.len() >= 3 && l.take(3) == manifest_marker()
}

/// A manifest line with the marker and exactly one following space removed.
pub open spec fn strip_marker(l: Seq<char>) -> Seq<char> {
    if l.len() >= 4 && l[3] == ' ' {
        l.skip(4)
    } else {
        l.skip(3)
    }
}

/// Index of the first element satisfying `p`, or the length when none does.
pub open spec fn first_where<T>(ls: Seq<T>, p: spec_fn(T) -> bool) -> int
    decreases ls.len(),
{
    if ls.len() == 0 {
        0
    } else if p(ls[0]) {
        0
    } else {
        1 + first_where(ls.skip(1), p)
    }
}

pub proof fn lemma_first_where_bounds<T>(ls: Seq<T>, p: spec_fn(T) -> bool)
    ensures
        0 <= first_where(ls, p) <= ls.len(),
        first_where(ls, p) < ls.len() ==> p(ls[first_where(ls, p)]),
        forall|j: int| 0 <= j < first_where(ls, p) ==> !p(ls[j]),
    decreases ls.len(),
{
    if ls.len() == 0 {
    } else if p(ls[0]) {
    } else {
        lemma_first_where_bounds(ls.skip(1), p);
        assert forall|j: int| 0 <= j < first_where(ls, p) implies !p(ls[j]) by {
            if j > 0 {
                assert(ls.skip(1)[j - 1] == ls[j]);
            }
        }
    }
}

pub proof fn lemma_first_where_is<T>(ls: Seq<T>, p: spec_fn(T) -> bool, i: int)
    requires
        0 <= i <= ls.len(),
        forall|j: int| 0 <= j < i ==> !p(ls[j]),
        i < ls.len() ==> p(ls[i]),
    ensures
        first_where(ls, p) == i,
    decreases ls.len(),
{
    if ls.len() == 0 {
    } else if p(ls[0]) {
    } else {
        assert(i > 0);
        assert forall|j: int| 0 <= j < i - 1 implies !p(ls.skip(1)[j]) by {
            assert(ls.skip(1)[j] == ls[j + 1]);
        }
        assert(i - 1 < ls.skip(1).len() ==> ls.skip(1)[i - 1] == ls[i]);
        lemma_first_where_is(ls.skip(1), p, i - 1);
    }
}

/// Where the manifest opens: the leading blank lines of a segment are
/// skipped.
pub open spec fn manifest_start(ls: Seq<Seq<char>>) -> int {
    first_where(ls, |l: Seq<char>| !is_blank(l))
}

/// Where the manifest ends: the manifest is the contiguous run of
/// marker-prefixed lines from its start.
pub open spec fn manifest_end(ls: Seq<Seq<char>>) -> int {
    let b = manifest_start(ls);
    b + first_where(ls.skip(b), |l: Seq<char>| !is_manifest_line(l))
}

/// Where the source opens: the first line that is neither blank nor
/// marker-prefixed; lines before it belong to no field.
pub open spec fn source_start(ls: Seq<Seq<char>>) -> int {
    first_where(ls, |l: Seq<char>| !is_blank(l) && !is_manifest_line(l))
}

pub open spec fn spec_manifest_lines(ls: Seq<Seq<char>>) -> Seq<Seq<char>> {
    ls.subrange(manifest_start(ls), manifest_end(ls)).map_values(|l: Seq<char>| strip_marker(l))
}

pub open spec fn spec_source_lines(ls: Seq<Seq<char>>) -> Seq<Seq<char>> {
    ls.skip(source_start(ls))
}

pub open spec fn spec_toml_text(ls: Seq<Seq<char>>) -> Seq<char> {
    spec_join_lines(spec_manifest_lines(ls))
}

pub open spec fn spec_source_text(ls: Seq<Seq<char>>) -> Seq<char> {
    spec_join_lines(spec_source_lines(ls))
}

/// Parse one segment, given as its list of lines.
pub open spec fn spec_parse_lines(ls: Seq<Seq<char>>) -> Result<PackageView, ParseError> {
    let toml = spec_toml_text(ls);
    match manifest_name(toml) {
        Option::None => Result::Err(ParseError::ManifestSyntax),
        Option::Some(Option::None) => Result::Err(ParseError::MissingName),
        Option::Some(Option::Some(name)) => Result::Ok(
            PackageView { name, toml, src: spec_source_text(ls) },
        ),
    }
}

/// Parse one segment, given as text.
pub open spec fn spec_parse_segment(s: Seq<char>) -> Result<PackageView, ParseError> {
    spec_parse_lines(spec_lines(s))
}

/// The exec result matches the spec-level result.
pub open spec fn parse_result_matches(
    r: Result<Package, ParseError>,
    s: Result<PackageView, ParseError>,
) -> bool {
    match (r, s) {
        (Result::Ok(p), Result::Ok(v)) => p@ == v,
        (Result::Err(e), Result::Err(f)) => e == f,
        _ => false,
    }
}

fn is_blank_line(l: &String) -> (b: bool)
    ensures
        b == is_blank(l@),
{
    l.as_str().is_empty()
}

fn is_marker_line(l: &String) -> (b: bool)
    ensures
        b == is_manifest_line(l@),
{
    let s = l.as_str();
    let n = s.unicode_len();
    if n < 3 {
        return false;
    }
    let b = s.get_char(0) == '/' && s.get_char(1) == '/' && s.get_char(2) == '#';
    proof {
        if b {
            assert(l@.take(3) =~= manifest_marker());
        } else {
            assert(l@.take(3) != manifest_marker()) by {
                if l@.take(3) == manifest_marker() {
                    assert(l@.take(3)[0] == '/' && l@.take(3)[1] == '/' && l@.take(3)[2] == '#');
                }
            }
        }
    }
    b
}

fn is_separator_line(l: &String) -> (b: bool)
    ensures
        b == (l@ == separator_line()),
{
    let s = l.as_str();
    let n = s.unicode_len();
    if n != 7 {
        proof {
            assert(l@ != separator_line());
        }
        return false;
    }
    let b = s.get_char(0) == '/' && s.get_char(1) == '/' && s.get_char(2) == '#' && s.get_char(3)
        == ' ' && s.get_char(4) == '-' && s.get_char(5) == '-' && s.get_char(6) == '-';
    proof {
        if b {
            assert(l@ =~= separator_line());
        } else {
            assert(l@ != separator_line()) by {
                if l@ == separator_line() {
                    assert(l@[0] == '/' && l@[1] == '/' && l@[2] == '#' && l@[3] == ' ' && l@[4]
                        == '-' && l@[5] == '-' && l@[6] == '-');
                }
            }
        }
    }
    b
}

fn strip_marker_line(l: &String) -> (r: String)
    requires
        is_manifest_line(l@),
    ensures
        r@ == strip_marker(l@),
{
    let s = l.as_str();
    let n = s.unicode_len();
    if n >= 4 && s.get_char(3) == ' ' {
        let r = s.substring_char(4, n).to_owned();
        proof {
            assert(r@ =~= l@.skip(4));
        }
        r
    } else {
        let r = s.substring_char(3, n).to_owned();
        proof {
            assert(r@ =~= l@.skip(3));
        }
        r
    }
}

/// Parse the segment held in `lines[lo..hi]`.
fn parse_lines(lines: &Vec<String>, lo: usize, hi: usize) -> (r: Result<Package, ParseError>)
    requires
        lo <= hi <= lines@.len(),
    ensures
        parse_result_matches(r, spec_parse_lines(views_of(lines@.subrange(lo as int, hi as int)))),
{
    let ghost seg = views_of(lines@.subrange(lo as int, hi as int));
    // Skip the leading blank lines.
    let mut b: usize = lo;
    while b < hi && is_blank_line(&lines[b])
        invariant
            lo <= b <= hi <= lines@.len(),
            forall|j: int| lo <= j < b ==> is_blank(#[trigger] lines@[j]@),
        decreases hi - b,
    {
        b += 1;
    }
    proof {
        assert forall|j: int| 0 <= j < b - lo implies !(!is_blank(#[trigger] seg[j])) by {
            assert(seg[j] == lines@[lo + j]@);
        }
        if b < hi {
            assert(seg[b - lo] == lines@[b as int]@);
        }
        lemma_first_where_is(seg, |l: Seq<char>| !is_blank(l), b - lo);
        assert(manifest_start(seg) == b - lo);
    }
    // Collect the contiguous marker-prefixed lines, markers stripped.
    let mut toml_lines: Vec<String> = Vec::new();
    let mut m: usize = b;
    while m < hi && is_marker_line(&lines[m])
        invariant
            lo <= b <= m <= hi <= lines@.len(),
            forall|j: int| b <= j < m ==> is_manifest_line(#[trigger] lines@[j]@),
            views_of(toml_lines@) =~= lines@.subrange(b as int, m as int).map_values(
                |l: String| l@,
            ).map_values(|l: Seq<char>| strip_marker(l)),
        decreases hi - m,
    {
        let stripped = strip_marker_line(&lines[m]);
        toml_lines.push(stripped);
        proof {
            let prev = lines@.subrange(b as int, m as int).map_values(|l: String| l@).map_values(
                |l: Seq<char>| strip_marker(l),
            );
            let cur = lines@.subrange(b as int, m + 1).map_values(|l: String| l@).map_values(
                |l: Seq<char>| strip_marker(l),
            );
            assert(cur =~= prev.push(strip_marker(lines@[m as int]@)));
            assert(views_of(toml_lines@) =~= views_of(toml_lines@.drop_last()).push(
                strip_marker(lines@[m as int]@),
            ));
        }
        m += 1;
    }
    proof {
        let t = seg.skip(b - lo);
        assert forall|j: int| 0 <= j < m - b implies !(!is_manifest_line(#[trigger] t[j])) by {
            assert(t[j] == lines@[b + j]@);
        }
        if m < hi {
            assert(t[m - b] == lines@[m as int]@);
        }
        lemma_first_where_is(t, |l: Seq<char>| !is_manifest_line(l), m - b);
        assert(manifest_end(seg) == m - lo);
        assert(spec_manifest_lines(seg) =~= views_of(toml_lines@)) by {
            let sub = seg.subrange(b - lo, m - lo);
            assert forall|j: int| 0 <= j < sub.len() implies sub.map_values(
                |l: Seq<char>| strip_marker(l),
            )[j] == views_of(toml_lines@)[j] by {
                assert(sub[j] == lines@[b + j]@);
                assert(lines@.subrange(b as int, m as int).map_values(|l: String| l@)[j]
                    == lines@[b + j]@);
            }
        }
    }
    let hi_t = toml_lines.len();
    let toml = join_lines(&toml_lines, 0, hi_t);
    proof {
        assert(toml_lines@.subrange(0, hi_t as int) =~= toml_lines@);
        assert(toml@ == spec_toml_text(seg));
    }
    // Find where the source opens.
    let mut k: usize = m;
    while k < hi && (is_blank_line(&lines[k]) || is_marker_line(&lines[k]))
        invariant
            lo <= m <= k <= hi <= lines@.len(),
            forall|j: int|
                m <= j < k ==> (is_blank(#[trigger] lines@[j]@) || is_manifest_line(lines@[j]@)),
        decreases hi - k,
    {
        k += 1;
    }
    proof {
        let p = |l: Seq<char>| !is_blank(l) && !is_manifest_line(l);
        assert forall|j: int| 0 <= j < k - lo implies !p(#[trigger] seg[j]) by {
            assert(seg[j] == lines@[lo + j]@);
            if j < b - lo {
            } else if j < m - lo {
            } else {
            }
        }
        if k < hi {
            assert(seg[k - lo] == lines@[k as int]@);
        }
        lemma_first_where_is(seg, p, k - lo);
        assert(source_start(seg) == k - lo);
    }
    let src = join_lines(lines, k, hi);
    proof {
        assert(views_of(lines@.subrange(k as int, hi as int)) =~= spec_source_lines(seg));
        assert(src@ == spec_source_text(seg));
    }
    match toml_package_name(toml.as_str()) {
        None => Result::Err(ParseError::ManifestSyntax),
        Some(None) => Result::Err(ParseError::MissingName),
        Some(Some(name)) => Result::Ok(Package { name, toml, src }),
    }
}

impl Package {
    /// An owned copy with the same content.
    pub fn duplicate(&self) -> (r: Package)
        ensures
            r@ == self@,
    {
        Package { name: self.name.clone(), toml: self.toml.clone(), src: self.src.clone() }
    }

    /// Parse one segment of a container file into a package record.
    pub fn from(text: &str) -> (r: Result<Package, ParseError>)
        ensures
            parse_result_matches(r, spec_parse_segment(text@)),
    {
        let lines = split_lines(text);
        let n = lines.len();
        let r = parse_lines(&lines, 0, n);
        proof {
            assert(lines@.subrange(0, n as int) =~= lines@);
        }
        r
    }
}

/// A manifest line as it stands in a container file: the marker, one space,
/// then the content.
pub open spec fn spec_prefixed(l: Seq<char>) -> Seq<char> {
    seq!['/', '/', '#', ' '] + l
}

/// The lines of a package rendered back into segment form: each manifest
/// line behind the marker and one space, then the source lines.
pub open spec fn spec_serialize_lines(p: PackageView) -> Seq<Seq<char>> {
    spec_lines(p.toml).map_values(|l: Seq<char>| spec_prefixed(l)) + spec_lines(p.src)
}

/// A package rendered back into the text of one container-file segment.
pub open spec fn spec_serialize(p: PackageView) -> Seq<char> {
    spec_join_lines(spec_serialize_lines(p))
}

impl Package {
    /// Render the package back into container-file segment form.
    pub fn to_segment_text(&self) -> (r: String)
        ensures
            r@ == spec_serialize(self@),
    {
        let toml_lines = split_lines(self.toml.as_str());
        let src_lines = split_lines(self.src.as_str());
        let ghost pre = spec_lines(self.toml@).map_values(|l: Seq<char>| spec_prefixed(l));
        let mut all: Vec<String> = Vec::new();
        let nt = toml_lines.len();
        let mut i: usize = 0;
        while i < nt
            invariant
                i <= nt == toml_lines@.len(),
                views_of(toml_lines@) == spec_lines(self.toml@),
                views_of(all@) == pre.take(i as int),
                pre == spec_lines(self.toml@).map_values(|l: Seq<char>| spec_prefixed(l)),
            decreases nt - i,
        {
            let mut pl = "//# ".to_owned();
            pl.append(toml_lines[i].as_str());
            proof {
                reveal_strlit("//# ");
                assert(pl@ =~= spec_prefixed(toml_lines@[i as int]@));
            }
            let ghost all0 = all@;
            all.push(pl);
            proof {
                assert(all@ == all0.push(pl));
                assert(views_of(all0).len() == all0.len());
                assert(views_of(all0).len() == i as int);
                assert(views_of(all@).len() == all@.len());
                assert(views_of(all@).len() == i + 1);
                assert forall|idx: int| 0 <= idx < i + 1 implies views_of(all@)[idx] == pre.take(
                    i + 1,
                )[idx] by {
                    if idx < i {
                        assert(all@[idx] == all0[idx]);
                        assert(views_of(all0)[idx] == pre.take(i as int)[idx]);
                    } else {
                        assert(all@[idx] == pl);
                        assert(pre[idx] == spec_prefixed(spec_lines(self.toml@)[idx]));
                        assert(spec_lines(self.toml@)[idx] == toml_lines@[idx]@);
                    }
                }
                assert(views_of(all@) =~= pre.take(i + 1));
            }
            i += 1;
        }
        let ns = src_lines.len();
        let mut j: usize = 0;
        while j < ns
            invariant
                j <= ns == src_lines@.len(),
                views_of(src_lines@) == spec_lines(self.src@),
                views_of(all@) == pre + spec_lines(self.src@).take(j as int),
                pre == spec_lines(self.toml@).map_values(|l: Seq<char>| spec_prefixed(l)),
            decreases ns - j,
        {
            let sline = src_lines[j].clone();
            proof {
                assert(sline@ == src_lines@[j as int]@);
            }
            let ghost all0 = all@;
            all.push(sline);
            proof {
                let goal = pre + spec_lines(self.src@).take(j + 1);
                assert(all@ == all0.push(sline));
                assert(views_of(all0).len() == all0.len());
                assert(views_of(all0).len() == pre.len() + j as int);
                assert(views_of(all@).len() == all@.len());
                assert(views_of(all@).len() == goal.len());
                assert forall|idx: int| 0 <= idx < goal.len() implies views_of(all@)[idx]
                    == goal[idx] by {
                    if idx < all0.len() {
                        assert(all@[idx] == all0[idx]);
                        assert(views_of(all0)[idx] == (pre + spec_lines(self.src@).take(
                            j as int,
                        ))[idx]);
                        if idx >= pre.len() {
                            assert(goal[idx] == spec_lines(self.src@).take(j + 1)[idx - pre.len()]);
                        }
                    } else {
                        assert(all@[idx] == sline);
                        assert(goal[idx] == spec_lines(self.src@).take(j + 1)[j as int]);
                        assert(spec_lines(self.src@)[j as int] == src_lines@[j as int]@);
                    }
                }
                assert(views_of(all@) =~= goal);
            }
            j += 1;
        }
        proof {
            assert(pre.take(nt as int) =~= pre);
            assert(views_of(all@) =~= spec_serialize_lines(self@));
        }
        let hi = all.len();
        let r = join_lines(&all, 0, hi);
        proof {
            assert(all@.subrange(0, hi as int) =~= all@);
        }
        r
    }
}

/// Parsing is idempotent: a package parsed out of a segment, rendered back
/// into segment form, parses to the same package. A parsed field carries a
/// trailing newline only when the segment ends in consecutive newlines, and
/// re-rendering cannot preserve such an end; the law is stated for the
/// packages whose fields do not end with one.
pub proof fn lemma_parse_serialize_round_trip(seg: Seq<char>, p: PackageView)
    requires
        spec_parse_segment(seg) == Result::Ok::<PackageView, ParseError>(p),
        p.toml.len() > 0 ==> p.toml.last() != '\n',
        p.src.len() > 0 ==> p.src.last() != '\n',
    ensures
        spec_parse_segment(spec_serialize(p)) == Result::Ok::<PackageView, ParseError>(p),
{
    let ls = spec_lines(seg);
    assert(spec_parse_lines(ls) == Result::Ok::<PackageView, ParseError>(p));
    assert(manifest_name(p.toml) == Option::Some(Option::Some(p.name)));
    assert(p.toml == spec_toml_text(ls));
    assert(p.src == spec_source_text(ls));
    lemma_lines_line_free(seg);
    lemma_lines_line_free(p.toml);
    lemma_lines_line_free(p.src);

    // The source lines of the rendered form are the source lines of `seg`.
    let q = |l: Seq<char>| !is_blank(l) && !is_manifest_line(l);
    let k = source_start(ls);
    lemma_first_where_bounds(ls, q);
    let slines = spec_source_lines(ls);
    let sl = spec_lines(p.src);
    assert forall|idx: int| 0 <= idx < slines.len() implies line_free(#[trigger] slines[idx]) by {
        assert(slines[idx] == ls[k + idx]);
    }
    if slines.len() == 0 {
        assert(p.src =~= Seq::<char>::empty());
        assert(sl =~= slines);
    } else {
        assert(slines[0] == ls[k]);
        assert(q(ls[k]));
        if slines.last().len() == 0 {
            if slines.len() == 1 {
                assert(slines[0] == slines.last());
                assert(false);
            } else {
                lemma_join_last_empty(slines);
                assert(false);
            }
        }
        lemma_lines_of_join(slines);
        assert(sl == slines);
    }

    // The rendered line list.
    let tl = spec_lines(p.toml);
    let pre = tl.map_values(|l: Seq<char>| spec_prefixed(l));
    let all = pre + sl;
    let np = pre.len() as int;
    assert(all == spec_serialize_lines(p));
    assert forall|idx: int| 0 <= idx < np implies is_manifest_line(#[trigger] all[idx])
        && !is_blank(all[idx]) && strip_marker(all[idx]) == tl[idx] by {
        assert(all[idx] == spec_prefixed(tl[idx]));
        assert(all[idx].take(3) =~= manifest_marker());
        assert(all[idx][3] == ' ');
        assert(all[idx].skip(4) =~= tl[idx]);
    }
    assert forall|idx: int| 0 <= idx < all.len() implies line_free(#[trigger] all[idx]) by {
        if idx < np {
            assert(line_free(tl[idx])) by {
                assert(tl[idx] == spec_lines(p.toml)[idx]);
            }
            assert(all[idx] == spec_prefixed(tl[idx]));
        } else {
            assert(all[idx] == sl[idx - np]);
        }
    }
    if all.len() > 0 {
        if sl.len() > 0 {
            lemma_lines_last_nonempty(p.src);
            assert(all.last() == sl.last());
        } else {
            assert(all.last() == pre.last());
            assert(pre.last() == spec_prefixed(tl[np - 1]));
        }
    }
    lemma_lines_of_join(all);
    assert(spec_lines(spec_serialize(p)) == all);

    // Parse the rendered list.
    if all.len() > 0 {
        if np > 0 {
            assert(!is_blank(all[0]));
        } else {
            assert(all[0] == sl[0]);
        }
    }
    lemma_first_where_is(all, |l: Seq<char>| !is_blank(l), 0);
    assert(manifest_start(all) == 0);
    assert(all.skip(0) =~= all);
    if np < all.len() {
        assert(all[np] == sl[0]);
    }
    lemma_first_where_is(all, |l: Seq<char>| !is_manifest_line(l), np);
    assert(manifest_end(all) == np);
    assert(spec_manifest_lines(all) =~= tl);
    lemma_join_of_lines(p.toml);
    assert(spec_toml_text(all) == p.toml);
    lemma_first_where_is(all, |l: Seq<char>| !is_blank(l) && !is_manifest_line(l), np);
    assert(source_start(all) == np);
    assert(spec_source_lines(all) =~= sl);
    lemma_join_of_lines(p.src);
    assert(spec_source_text(all) == p.src);
    assert(spec_parse_lines(all) == Result::Ok::<PackageView, ParseError>(
        PackageView { name: p.name, toml: p.toml, src: p.src },
    ));
    assert(PackageView { name: p.name, toml: p.toml, src: p.src } == p);
}

/// Parse a whole container file, given as its list of lines: the segments
/// are delimited by separator lines and parsed in file order; the first
/// failure wins.
pub open spec fn spec_parse_groups(ls: Seq<Seq<char>>) -> Result<Seq<PackageView>, ParseError>
    decreases ls.len(),
{
    let i = first_where(ls, |l: Seq<char>| l == separator_line());
    if 0 <= i && i < ls.len() {
        match spec_parse_lines(ls.take(i)) {
            Result::Err(e) => Result::Err(e),
            Result::Ok(p) => match spec_parse_groups(ls.skip(i + 1)) {
                Result::Err(e) => Result::Err(e),
                Result::Ok(ps) => Result::Ok(seq![p] + ps),
            },
        }
    } else {
        match spec_parse_lines(ls) {
            Result::Err(e) => Result::Err(e),
            Result::Ok(p) => Result::Ok(seq![p]),
        }
    }
}

/// Parse a whole container file. An empty file holds no packages.
pub open spec fn spec_parse_file(s: Seq<char>) -> Result<Seq<PackageView>, ParseError> {
    if s.len() == 0 {
        Result::Ok(Seq::empty())
    } else {
        spec_parse_groups(spec_lines(s))
    }
}

/// The views of a list of packages.
pub open spec fn package_views(ps: Seq<Package>) -> Seq<PackageView> {
    ps.map_values(|p: Package| p@)
}

/// The exec package list matches the spec-level one.
pub open spec fn parse_file_matches(
    r: Result<Vec<Package>, ParseError>,
    s: Result<Seq<PackageView>, ParseError>,
) -> bool {
    match (r, s) {
        (Result::Ok(ps), Result::Ok(vs)) => package_views(ps@) == vs,
        (Result::Err(e), Result::Err(f)) => e == f,
        _ => false,
    }
}

/// Find the first separator line at or after `from`.
fn find_separator(lines: &Vec<String>, from: usize) -> (r: usize)
    requires
        from <= lines@.len(),
    ensures
        from <= r <= lines@.len(),
        r - from == first_where(
            views_of(lines@).skip(from as int),
            |l: Seq<char>| l == separator_line(),
        ),
{
    let n = lines.len();
    let mut i: usize = from;
    while i < n
        invariant
            from <= i <= n == lines@.len(),
            forall|j: int| from <= j < i ==> #[trigger] lines@[j]@ != separator_line(),
        decreases n - i,
    {
        if is_separator_line(&lines[i]) {
            proof {
                let t = views_of(lines@).skip(from as int);
                let p = |l: Seq<char>| l == separator_line();
                assert forall|j: int| 0 <= j < i - from implies !p(#[trigger] t[j]) by {
                    assert(t[j] == lines@[from + j]@);
                }
                assert(t[i - from] == lines@[i as int]@);
                lemma_first_where_is(t, p, i - from);
            }
            return i;
        }
        i += 1;
    }
    proof {
        let t = views_of(lines@).skip(from as int);
        let p = |l: Seq<char>| l == separator_line();
        assert forall|j: int| 0 <= j < t.len() implies !p(#[trigger] t[j]) by {
            assert(t[j] == lines@[from + j]@);
        }
        lemma_first_where_is(t, p, t.len() as int);
    }
    n
}

/// Parse the text of a whole container file into its package records, in
/// file order.
pub fn packages_from_text(text: &str) -> (r: Result<Vec<Package>, ParseError>)
    ensures
        parse_file_matches(r, spec_parse_file(text@)),
{
    if text.is_empty() {
        let empty: Vec<Package> = Vec::new();
        proof {
            assert(package_views(empty@) =~= Seq::<PackageView>::empty());
        }
        return Result::Ok(empty);
    }
    let lines = split_lines(text);
    let n = lines.len();
    let mut out: Vec<Package> = Vec::new();
    let mut lo: usize = 0;
    proof {
        assert(views_of(lines@).skip(0) =~= views_of(lines@));
    }
    loop
        invariant
            lo <= n == lines@.len(),
            views_of(lines@) == spec_lines(text@),
            text@.len() > 0,
            ({
                let whole = spec_parse_groups(views_of(lines@));
                let rest = spec_parse_groups(views_of(lines@).skip(lo as int));
                match rest {
                    Result::Err(e) => whole == Result::Err::<Seq<PackageView>, ParseError>(e),
                    Result::Ok(ps) => whole == Result::Ok::<Seq<PackageView>, ParseError>(
                        package_views(out@) + ps,
                    ),
                }
            }),
        decreases n - lo,
    {
        let j = find_separator(&lines, lo);
        let ghost t = views_of(lines@).skip(lo as int);
        let ghost i = first_where(t, |l: Seq<char>| l == separator_line());
        proof {
            assert(i == j - lo);
            if j < n {
                assert(t.take(i) =~= views_of(lines@.subrange(lo as int, j as int)));
            } else {
                assert(i == t.len());
                assert(t =~= views_of(lines@.subrange(lo as int, n as int)));
            }
        }
        let ghost head = if j < n {
            t.take(i)
        } else {
            t
        };
        let p = match parse_lines(&lines, lo, j) {
            Result::Ok(p) => p,
            Result::Err(e) => {
                proof {
                    assert(spec_parse_lines(head) == Result::Err::<PackageView, ParseError>(e));
                    assert(spec_parse_groups(t) == Result::Err::<Seq<PackageView>, ParseError>(e));
                }
                return Result::Err(e);
            },
        };
        proof {
            assert(spec_parse_lines(head) is Ok);
            assert(spec_parse_lines(head)->Ok_0 == p@);
            assert(spec_parse_lines(head) == Result::Ok::<PackageView, ParseError>(p@));
        }
        let ghost out0 = out@;
        out.push(p);
        proof {
            assert(out@ == out0.push(p));
            assert(package_views(out@) =~= package_views(out0).push(p@));
        }
        if j < n {
            proof {
                assert(t.skip(i + 1) =~= views_of(lines@).skip(j + 1));
                let rest = spec_parse_groups(views_of(lines@).skip(j + 1));
                match rest {
                    Result::Err(e) => {
                        assert(spec_parse_groups(t) == Result::Err::<
                            Seq<PackageView>,
                            ParseError,
                        >(e));
                    },
                    Result::Ok(ps) => {
                        assert(spec_parse_groups(t) == Result::Ok::<
                            Seq<PackageView>,
                            ParseError,
                        >(seq![p@] + ps));
                        assert(package_views(out0) + (seq![p@] + ps) =~= package_views(out@) + ps);
                    },
                }
            }
            lo = j + 1;
        } else {
            proof {
                assert(spec_parse_groups(t) == Result::Ok::<Seq<PackageView>, ParseError>(
                    seq![p@],
                ));
                assert(package_views(out0) + seq![p@] =~= package_views(out@));
            }
            return Result::Ok(out);
        }
    }
}

} // verus!
