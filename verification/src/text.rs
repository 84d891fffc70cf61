//! Strings as sequences of characters.

use vstd::prelude::*;

verus! {

/// The characters of `s`, in order.
pub fn chars_of(s: &str) -> (v: Vec<char>)
    ensures
        v@ == s@,
{
    let mut v: Vec<char> = Vec::new();
    for c in it: s.chars()
        invariant
            it.seq() == s@,
            v@.len() == it.index(),
            forall|j: int| 0 <= j < v@.len() ==> v@[j] == it.seq()[j],
    {
        v.push(c);
    }
    assert(v@ =~= s@);
    v
}

} // verus!
