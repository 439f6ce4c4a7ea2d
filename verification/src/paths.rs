//! Path strings. The library computes every slot, workspace and output
//! location as a plain string with `/` separators; whoever touches the
//! filesystem converts them to its native path type.

use vstd::prelude::*;
use vstd::string::*;

verus! {

/// `a`, a separator, `b`.
pub open spec fn joined(a: Seq<char>, b: Seq<char>) -> Seq<char> {
    a + seq!['/'] + b
}

/// Join two path components with the separator.
pub fn join_path(a: &str, b: &str) -> (r: String)
    ensures
        r@ == joined(a@, b@),
{
    let mut r = a.to_owned();
    r.append("/");
    r.append(b);
    proof {
        reveal_strlit("/");
        assert(r@ =~= joined(a@, b@));
    }
    r
}

} // verus!
