//! Finding a number in a list of numbers.

use vstd::prelude::*;

verus! {

/// The first place at which `x` stands in `s`.
pub open spec fn position(s: Seq<u64>, x: u64) -> int {
    choose|i: int| 0 <= i < s.len() && s[i] == x && forall|j: int| 0 <= j < i ==> s[j] != x
}

/// Where `x` stands in `s` at or before `at`, it has a first place.
proof fn lemma_first_place(s: Seq<u64>, x: u64, at: int)
    requires
        0 <= at < s.len(),
        s[at] == x,
    ensures
        exists|i: int| 0 <= i <= at && s[i] == x && forall|j: int| 0 <= j < i ==> s[j] != x,
    decreases at,
{
    if exists|j: int| 0 <= j < at && s[j] == x {
        let j = choose|j: int| 0 <= j < at && s[j] == x;
        lemma_first_place(s, x, j);
    }
}

/// What [`position`] gives for a number that stands in `s`.
pub proof fn lemma_position(s: Seq<u64>, x: u64)
    requires
        s.contains(x),
    ensures
        0 <= position(s, x) < s.len(),
        s[position(s, x)] == x,
        forall|j: int| 0 <= j < position(s, x) ==> s[j] != x,
{
    let at = choose|i: int| 0 <= i < s.len() && s[i] == x;
    lemma_first_place(s, x, at);
}

/// The first place of `x` in `v`, if it stands there.
pub fn find(v: &Vec<u64>, x: u64) -> (r: Option<usize>)
    ensures
        match r {
            Some(at) => v@.contains(x) && at == position(v@, x) && at < v@.len(),
            None => !v@.contains(x),
        },
{
    let mut i: usize = 0;
    while i < v.len()
        invariant
            i <= v.len(),
            forall|j: int| 0 <= j < i ==> v@[j] != x,
        decreases v.len() - i,
    {
        if v[i] == x {
            proof {
                assert(v@.contains(x));
                lemma_position(v@, x);
            }
            return Some(i);
        }
        i += 1;
    }
    None
}

} // verus!
