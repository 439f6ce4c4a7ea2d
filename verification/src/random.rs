//! Random names. Generated package names and workspace directories carry a
//! random suffix so that concurrent invocations cannot collide; which
//! suffix comes back depends on the generator, so only its shape is stated.

use rand::seq::SliceRandom;
use rand::Rng;
use vstd::prelude::*;
use vstd::string::*;

verus! {

/// A character that a generated package name may carry after its fixed
/// prefix: a lowercase letter or a digit.
pub open spec fn is_name_char(c: char) -> bool {
    ('a' <= c && c <= 'z') || ('0' <= c && c <= '9')
}

/// An ASCII letter or digit, as the workspace suffix uses.
pub open spec fn is_alnum_char(c: char) -> bool {
    ('a' <= c && c <= 'z') || ('A' <= c && c <= 'Z') || ('0' <= c && c <= '9')
}

/// Relies on rand's `SliceRandom::choose_multiple` over `thread_rng`, on
/// the byte slice of the lowercase letters and digits: seven distinct
/// bytes of that slice come back; which ones depends on the generator.
#[verifier::external_body]
fn random_name_suffix() -> (r: String)
    ensures
        r@.len() == 7,
        forall|i: int| 0 <= i < r@.len() ==> is_name_char(r@[i]),
{
    "abcdefghijklmnopqrstuvwxyz0123456789"
        .as_bytes()
        .choose_multiple(&mut rand::thread_rng(), 7)
        .cloned()
        .map(char::from)
        .collect()
}

/// Relies on rand's `Alphanumeric` distribution sampled through
/// `thread_rng`: sixteen bytes, each an ASCII letter or digit; which ones
/// depends on the generator.
#[verifier::external_body]
fn random_alnum_suffix() -> (r: String)
    ensures
        r@.len() == 16,
        forall|i: int| 0 <= i < r@.len() ==> is_alnum_char(r@[i]),
{
    rand::thread_rng()
        .sample_iter(&rand::distributions::Alphanumeric)
        .take(16)
        .map(char::from)
        .collect()
}

/// The shape of a generated package name: the fixed prefix and seven name
/// characters.
pub open spec fn is_generated_name(s: Seq<char>) -> bool {
    s.len() == 11 && s.take(4) == "tmp-"@ && (forall|i: int| 4 <= i < 11 ==> is_name_char(s[i]))
}

/// A fresh package name: the fixed prefix followed by a random suffix.
pub fn random_name() -> (r: String)
    ensures
        is_generated_name(r@),
{
    let mut r = "tmp-".to_owned();
    let sfx = random_name_suffix();
    r.append(sfx.as_str());
    proof {
        reveal_strlit("tmp-");
        assert(r@.take(4) =~= "tmp-"@);
        assert forall|i: int| 4 <= i < 11 implies is_name_char(r@[i]) by {
            assert(r@[i] == sfx@[i - 4]);
        }
    }
    r
}

/// The shape of a workspace directory name: the fixed prefix and sixteen
/// alphanumeric characters.
pub open spec fn is_workspace_dir_name(s: Seq<char>) -> bool {
    s.len() == 20 && s.take(4) == "pit-"@ && (forall|i: int| 4 <= i < 20 ==> is_alnum_char(s[i]))
}

/// A fresh workspace directory name, unique with overwhelming probability.
pub fn workspace_dir_name() -> (r: String)
    ensures
        is_workspace_dir_name(r@),
{
    let mut r = "pit-".to_owned();
    let sfx = random_alnum_suffix();
    r.append(sfx.as_str());
    proof {
        reveal_strlit("pit-");
        assert(r@.take(4) =~= "pit-"@);
        assert forall|i: int| 4 <= i < 20 implies is_alnum_char(r@[i]) by {
            assert(r@[i] == sfx@[i - 4]);
        }
    }
    r
}

} // verus!
