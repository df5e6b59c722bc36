//! Lexicographic order on byte strings.
//!
//! Storage keys are compared byte by byte, a shorter key coming before every
//! longer key that it is a prefix of. The order is stated once here, over
//! `Seq<u8>`, together with the facts about it that the snapshot relies on.

use vstd::prelude::*;

verus! {

/// `a` and `b` hold the same byte at every index below `n`.
pub open spec fn agree_below(a: Seq<u8>, b: Seq<u8>, n: int) -> bool {
    forall|i: int| 0 <= i < n ==> a[i] == b[i]
}

/// `a` comes before `b`, and index `k` shows it: the two agree below `k`, and
/// at `k` either `a` has ended while `b` goes on, or `a` holds the smaller
/// byte.
pub open spec fn precedes_at(a: Seq<u8>, b: Seq<u8>, k: int) -> bool {
    &&& 0 <= k <= a.len()
    &&& k < b.len()
    &&& agree_below(a, b, k)
    &&& (k == a.len() || a[k] < b[k])
}

/// `a` is strictly smaller than `b` in lexicographic order.
pub open spec fn lex_lt(a: Seq<u8>, b: Seq<u8>) -> bool {
    exists|k: int| precedes_at(a, b, k)
}

/// `a` is smaller than or equal to `b` in lexicographic order.
pub open spec fn lex_le(a: Seq<u8>, b: Seq<u8>) -> bool {
    a == b || lex_lt(a, b)
}

/// The place of one byte string relative to another.
#[derive(Clone, Copy, Debug, PartialEq, Eq, Structural)]
pub enum Rank {
    /// The first string is strictly smaller.
    Before,
    /// The two strings are equal.
    Same,
    /// The first string is strictly greater.
    After,
}

/// The place of `a` relative to `b`.
pub open spec fn rank_of(a: Seq<u8>, b: Seq<u8>) -> Rank {
    if a == b {
        Rank::Same
    } else if lex_lt(a, b) {
        Rank::Before
    } else {
        Rank::After
    }
}

/// No byte string is smaller than itself.
pub proof fn lemma_lex_irreflexive(a: Seq<u8>)
    ensures
        !lex_lt(a, a),
{
}

/// The order is transitive.
pub proof fn lemma_lex_transitive(a: Seq<u8>, b: Seq<u8>, c: Seq<u8>)
    requires
        lex_lt(a, b),
        lex_lt(b, c),
    ensures
        lex_lt(a, c),
{
    let k1 = choose|k: int| precedes_at(a, b, k);
    let k2 = choose|k: int| precedes_at(b, c, k);
    if k1 <= k2 {
        assert(precedes_at(a, c, k1));
    } else {
        assert(precedes_at(a, c, k2));
    }
}

/// Two byte strings are never each smaller than the other.
pub proof fn lemma_lex_asymmetric(a: Seq<u8>, b: Seq<u8>)
    requires
        lex_lt(a, b),
    ensures
        !lex_lt(b, a),
        a != b,
{
    if lex_lt(b, a) {
        lemma_lex_transitive(a, b, a);
    }
}

/// Two byte strings that agree below `k` are equal or ordered one way or the
/// other.
proof fn lemma_lex_total_from(a: Seq<u8>, b: Seq<u8>, k: int)
    requires
        0 <= k <= a.len(),
        k <= b.len(),
        agree_below(a, b, k),
    ensures
        a == b || lex_lt(a, b) || lex_lt(b, a),
    decreases a.len() - k,
{
    if k == a.len() {
        if k == b.len() {
            assert(a =~= b);
        } else {
            assert(precedes_at(a, b, k));
        }
    } else if k == b.len() {
        assert(precedes_at(b, a, k));
    } else if a[k] < b[k] {
        assert(precedes_at(a, b, k));
    } else if b[k] < a[k] {
        assert(precedes_at(b, a, k));
    } else {
        lemma_lex_total_from(a, b, k + 1);
    }
}

/// The order is total: of two different byte strings one is the smaller.
pub proof fn lemma_lex_total(a: Seq<u8>, b: Seq<u8>)
    ensures
        a == b || lex_lt(a, b) || lex_lt(b, a),
{
    lemma_lex_total_from(a, b, 0);
}

/// What each value of [`rank_of`] means in terms of the order.
pub proof fn lemma_rank_meaning(a: Seq<u8>, b: Seq<u8>)
    ensures
        rank_of(a, b) == Rank::Before <==> lex_lt(a, b),
        rank_of(a, b) == Rank::Same <==> a == b,
        rank_of(a, b) == Rank::After <==> lex_lt(b, a),
{
    lemma_lex_total(a, b);
    lemma_lex_irreflexive(a);
    if lex_lt(a, b) {
        lemma_lex_asymmetric(a, b);
    }
    if lex_lt(b, a) {
        lemma_lex_asymmetric(b, a);
    }
}

/// A byte string is smaller than or equal to everything that it is a prefix
/// of.
pub proof fn lemma_prefix_is_le(prefix: Seq<u8>, s: Seq<u8>)
    requires
        prefix.is_prefix_of(s),
    ensures
        lex_le(prefix, s),
{
    if prefix.len() == s.len() {
        assert(prefix =~= s);
    } else {
        assert(precedes_at(prefix, s, prefix.len() as int));
    }
}

/// Nothing smaller than `prefix` starts with `prefix`.
pub proof fn lemma_smaller_lacks_prefix(prefix: Seq<u8>, s: Seq<u8>)
    requires
        lex_lt(s, prefix),
    ensures
        !prefix.is_prefix_of(s),
{
    if prefix.is_prefix_of(s) {
        lemma_prefix_is_le(prefix, s);
        lemma_lex_asymmetric(s, prefix);
    }
}

/// The strings that start with `prefix` lie together in the order: once a
/// string at or after `prefix` does not start with it, no greater string does.
pub proof fn lemma_prefix_range_ends(prefix: Seq<u8>, b: Seq<u8>, c: Seq<u8>)
    requires
        lex_le(prefix, b),
        !prefix.is_prefix_of(b),
        lex_lt(b, c),
    ensures
        !prefix.is_prefix_of(c),
{
    assert(prefix.is_prefix_of(prefix));
    let k1 = choose|k: int| precedes_at(prefix, b, k);
    let k2 = choose|k: int| precedes_at(b, c, k);
    if k1 == prefix.len() {
        assert(prefix =~= b.subrange(0, prefix.len() as int));
    }
    if prefix.is_prefix_of(c) {
        let head = c.subrange(0, prefix.len() as int);
        assert(head[k1] == c[k1]);
        if k2 < k1 {
            assert(head[k2] == c[k2]);
        }
    }
}

/// Compares two byte strings in lexicographic order.
pub fn rank(a: &[u8], b: &[u8]) -> (r: Rank)
    ensures
        r == rank_of(a@, b@),
{
    let mut i: usize = 0;
    while i < a.len() && i < b.len()
        invariant
            i <= a.len(),
            i <= b.len(),
            agree_below(a@, b@, i as int),
        decreases a.len() - i,
    {
        if a[i] < b[i] {
            proof {
                assert(precedes_at(a@, b@, i as int));
                lemma_rank_meaning(a@, b@);
            }
            return Rank::Before;
        }
        if a[i] > b[i] {
            proof {
                assert(precedes_at(b@, a@, i as int));
                lemma_rank_meaning(a@, b@);
            }
            return Rank::After;
        }
        i += 1;
    }
    proof {
        lemma_rank_meaning(a@, b@);
    }
    if i < b.len() {
        assert(precedes_at(a@, b@, i as int));
        Rank::Before
    } else if i < a.len() {
        assert(precedes_at(b@, a@, i as int));
        Rank::After
    } else {
        assert(a@ =~= b@);
        Rank::Same
    }
}

/// Tells whether `s` starts with `prefix`.
pub fn starts_with(s: &[u8], prefix: &[u8]) -> (r: bool)
    ensures
        r == prefix@.is_prefix_of(s@),
{
    if prefix.len() > s.len() {
        return false;
    }
    let mut i: usize = 0;
    while i < prefix.len()
        invariant
            i <= prefix.len(),
            prefix.len() <= s.len(),
            agree_below(prefix@, s@, i as int),
        decreases prefix.len() - i,
    {
        if prefix[i] != s[i] {
            assert(s@.subrange(0, prefix@.len() as int)[i as int] == s@[i as int]);
            return false;
        }
        i += 1;
    }
    assert(prefix@ =~= s@.subrange(0, prefix@.len() as int));
    true
}

/// Copies a byte string.
pub fn copy_bytes(s: &[u8]) -> (r: Vec<u8>)
    ensures
        r@ == s@,
{
    let mut out: Vec<u8> = Vec::with_capacity(s.len());
    let mut i: usize = 0;
    while i < s.len()
        invariant
            i <= s.len(),
            out@ == s@.subrange(0, i as int),
        decreases s.len() - i,
    {
        out.push(s[i]);
        assert(out@ =~= s@.subrange(0, i as int + 1));
        i += 1;
    }
    assert(out@ =~= s@);
    out
}

} // verus!
