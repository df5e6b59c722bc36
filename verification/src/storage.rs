//! The in-memory snapshot of the latest finalized block's storage.
//!
//! The snapshot is an ordered mapping from byte keys to byte values. It is
//! changed only by applying the storage diff of a finalized block, change by
//! change, and it answers the three queries that block verification asks:
//! the value at a key, the next key after a key, and the keys under a prefix.
//!
//! The entries are kept in a vector sorted by key, which is what gives the
//! ordered queries their meaning; contracts speak of the snapshot as a
//! `Map<Seq<u8>, Seq<u8>>` only.

use crate::bytes::{
    copy_bytes, lemma_lex_asymmetric, lemma_lex_irreflexive, lemma_lex_transitive,
    lemma_prefix_range_ends, lemma_rank_meaning, lemma_smaller_lacks_prefix, lex_le, lex_lt, rank,
    starts_with, Rank,
};
use vstd::prelude::*;

verus! {

/// One change of a storage diff: the key is given the value, or, where the
/// value is absent, removed.
#[derive(Clone, Debug, PartialEq, Eq)]
pub struct StorageChange {
    pub key: Vec<u8>,
    pub value: Option<Vec<u8>>,
}

impl View for StorageChange {
    type V = (Seq<u8>, Option<Seq<u8>>);

    open spec fn view(&self) -> (Seq<u8>, Option<Seq<u8>>) {
        (
            self.key@,
            match self.value {
                Some(v) => Some(v@),
                None => None,
            },
        )
    }
}

/// The changes of a diff, in order, as plain values.
pub open spec fn diff_view(diff: Seq<StorageChange>) -> Seq<(Seq<u8>, Option<Seq<u8>>)> {
    diff.map_values(|c: StorageChange| c@)
}

/// The effect of one change on a storage map: a present value is inserted
/// over whatever the key held, an absent value deletes the key. Deleting a
/// key that is not there leaves the map as it is.
pub open spec fn change_applied(m: Map<Seq<u8>, Seq<u8>>, change: (Seq<u8>, Option<Seq<u8>>)) -> Map<
    Seq<u8>,
    Seq<u8>,
> {
    match change.1 {
        Some(v) => m.insert(change.0, v),
        None => m.remove(change.0),
    }
}

/// The effect of a diff: its changes folded over the map from first to last.
pub open spec fn diff_applied(m: Map<Seq<u8>, Seq<u8>>, diff: Seq<(Seq<u8>, Option<Seq<u8>>)>) -> Map<
    Seq<u8>,
    Seq<u8>,
> {
    diff.fold_left(m, |acc: Map<Seq<u8>, Seq<u8>>, c: (Seq<u8>, Option<Seq<u8>>)| change_applied(acc, c))
}

/// The effect of the diffs of several blocks, applied block after block.
pub open spec fn diffs_applied(
    m: Map<Seq<u8>, Seq<u8>>,
    diffs: Seq<Seq<(Seq<u8>, Option<Seq<u8>>)>>,
) -> Map<Seq<u8>, Seq<u8>> {
    diffs.fold_left(
        m,
        |acc: Map<Seq<u8>, Seq<u8>>, d: Seq<(Seq<u8>, Option<Seq<u8>>)>| diff_applied(acc, d),
    )
}

/// `next` is the answer to a next-key query for `key`: the smallest key of
/// the map strictly greater than `key`, or nothing where the map has no
/// greater key.
pub open spec fn is_next_key(m: Map<Seq<u8>, Seq<u8>>, key: Seq<u8>, next: Option<Seq<u8>>) -> bool {
    match next {
        Some(n) => {
            &&& m.contains_key(n)
            &&& lex_lt(key, n)
            &&& forall|k: Seq<u8>| m.contains_key(k) && lex_lt(key, k) ==> lex_le(n, k)
        },
        None => forall|k: Seq<u8>| m.contains_key(k) ==> !lex_lt(key, k),
    }
}

/// `keys` is the answer to a prefix query: exactly the keys of the map that
/// start with `prefix`, in strictly ascending order.
pub open spec fn is_prefix_listing(m: Map<Seq<u8>, Seq<u8>>, prefix: Seq<u8>, keys: Seq<Seq<u8>>) -> bool {
    &&& forall|i: int, j: int| 0 <= i < j < keys.len() ==> lex_lt(keys[i], keys[j])
    &&& forall|i: int|
        0 <= i < keys.len() ==> m.contains_key(#[trigger] keys[i]) && prefix.is_prefix_of(keys[i])
    &&& forall|k: Seq<u8>| m.contains_key(k) && prefix.is_prefix_of(k) ==> keys.contains(k)
}

/// A next-key query has one answer only.
pub proof fn lemma_next_key_unique(
    m: Map<Seq<u8>, Seq<u8>>,
    key: Seq<u8>,
    a: Option<Seq<u8>>,
    b: Option<Seq<u8>>,
)
    requires
        is_next_key(m, key, a),
        is_next_key(m, key, b),
    ensures
        a == b,
{
    if a is Some && b is Some {
        let x = a->0;
        let y = b->0;
        if x != y {
            assert(lex_le(x, y));
            assert(lex_le(y, x));
            lemma_lex_asymmetric(x, y);
        }
    }
}

/// Two strictly ascending lists of keys that hold the same keys are the
/// same list.
pub proof fn lemma_ascending_lists_equal(a: Seq<Seq<u8>>, b: Seq<Seq<u8>>)
    requires
        forall|i: int, j: int| 0 <= i < j < a.len() ==> lex_lt(a[i], a[j]),
        forall|i: int, j: int| 0 <= i < j < b.len() ==> lex_lt(b[i], b[j]),
        forall|k: Seq<u8>| a.contains(k) <==> b.contains(k),
    ensures
        a == b,
    decreases a.len(),
{
    if a.len() == 0 {
        if b.len() > 0 {
            assert(b.contains(b[0]));
        }
        assert(a =~= b);
    } else {
        assert(a.contains(a[0]));
        let x = a[0];
        let y = b[0];
        assert(b.contains(y));
        let j = choose|j: int| 0 <= j < b.len() && b[j] == x;
        let i = choose|i: int| 0 <= i < a.len() && a[i] == y;
        if x != y {
            assert(lex_lt(y, x));
            assert(lex_lt(x, y));
            lemma_lex_asymmetric(x, y);
        }
        let ra = a.drop_first();
        let rb = b.drop_first();
        assert forall|k: Seq<u8>| ra.contains(k) <==> rb.contains(k) by {
            if ra.contains(k) {
                let p = choose|p: int| 0 <= p < ra.len() && ra[p] == k;
                assert(a[p + 1] == k);
                assert(lex_lt(x, k));
                lemma_lex_asymmetric(x, k);
                assert(a.contains(k));
                let q = choose|q: int| 0 <= q < b.len() && b[q] == k;
                assert(rb[q - 1] == k);
            }
            if rb.contains(k) {
                let p = choose|p: int| 0 <= p < rb.len() && rb[p] == k;
                assert(b[p + 1] == k);
                assert(lex_lt(y, k));
                lemma_lex_asymmetric(y, k);
                assert(b.contains(k));
                let q = choose|q: int| 0 <= q < a.len() && a[q] == k;
                assert(ra[q - 1] == k);
            }
        }
        assert forall|p: int, q: int| 0 <= p < q < ra.len() implies lex_lt(ra[p], ra[q]) by {
            assert(ra[p] == a[p + 1] && ra[q] == a[q + 1]);
        }
        assert forall|p: int, q: int| 0 <= p < q < rb.len() implies lex_lt(rb[p], rb[q]) by {
            assert(rb[p] == b[p + 1] && rb[q] == b[q + 1]);
        }
        lemma_ascending_lists_equal(ra, rb);
        assert(a =~= seq![x] + ra);
        assert(b =~= seq![y] + rb);
    }
}

/// A prefix query has one answer only.
pub proof fn lemma_prefix_listing_unique(
    m: Map<Seq<u8>, Seq<u8>>,
    prefix: Seq<u8>,
    a: Seq<Seq<u8>>,
    b: Seq<Seq<u8>>,
)
    requires
        is_prefix_listing(m, prefix, a),
        is_prefix_listing(m, prefix, b),
    ensures
        a == b,
{
    assert forall|k: Seq<u8>| a.contains(k) <==> b.contains(k) by {
        if a.contains(k) {
            let i = choose|i: int| 0 <= i < a.len() && a[i] == k;
            assert(m.contains_key(a[i]) && prefix.is_prefix_of(a[i]));
        }
        if b.contains(k) {
            let i = choose|i: int| 0 <= i < b.len() && b[i] == k;
            assert(m.contains_key(b[i]) && prefix.is_prefix_of(b[i]));
        }
    }
    lemma_ascending_lists_equal(a, b);
}

/// Applying the diffs of several blocks one after the other is the same as
/// applying, in order, every change of every block.
pub proof fn lemma_diffs_applied_is_one_fold(
    m: Map<Seq<u8>, Seq<u8>>,
    diffs: Seq<Seq<(Seq<u8>, Option<Seq<u8>>)>>,
)
    ensures
        diffs_applied(m, diffs) == diff_applied(m, diffs.flatten()),
    decreases diffs.len(),
{
    let f = |acc: Map<Seq<u8>, Seq<u8>>, c: (Seq<u8>, Option<Seq<u8>>)| change_applied(acc, c);
    if diffs.len() == 0 {
        assert(diffs.flatten() =~= Seq::<(Seq<u8>, Option<Seq<u8>>)>::empty());
    } else {
        let front = diffs.drop_last();
        let last = diffs.last();
        lemma_diffs_applied_is_one_fold(m, front);
        front.lemma_flatten_push(last);
        assert(diffs =~= front.push(last));
        front.flatten().lemma_fold_left_split(m, f, front.flatten().len() as int);
        (front.flatten() + last).lemma_fold_left_split(m, f, front.flatten().len() as int);
        assert((front.flatten() + last).subrange(0, front.flatten().len() as int)
            =~= front.flatten());
        assert((front.flatten() + last).subrange(
            front.flatten().len() as int,
            (front.flatten() + last).len() as int,
        ) =~= last);
    }
}

/// A key together with its value.
struct Entry {
    key: Vec<u8>,
    value: Vec<u8>,
}

/// The keys of `s` are strictly ascending.
spec fn ascending(s: Seq<Entry>) -> bool {
    forall|i: int, j: int| 0 <= i < j < s.len() ==> lex_lt(s[i].key@, s[j].key@)
}

/// Some entry of `s` has the key `k`.
spec fn holds_key(s: Seq<Entry>, k: Seq<u8>) -> bool {
    exists|i: int| 0 <= i < s.len() && s[i].key@ == k
}

/// The place in `s` of an entry with the key `k`.
spec fn place_of(s: Seq<Entry>, k: Seq<u8>) -> int {
    choose|i: int| 0 <= i < s.len() && s[i].key@ == k
}

/// The mapping that the entries of `s` stand for.
spec fn entries_map(s: Seq<Entry>) -> Map<Seq<u8>, Seq<u8>> {
    Map::new(|k: Seq<u8>| holds_key(s, k), |k: Seq<u8>| s[place_of(s, k)].value@)
}

/// In an ascending sequence each key stands at one place only.
proof fn lemma_place_unique(s: Seq<Entry>, i: int)
    requires
        ascending(s),
        0 <= i < s.len(),
    ensures
        holds_key(s, s[i].key@),
        place_of(s, s[i].key@) == i,
        entries_map(s).contains_key(s[i].key@),
        entries_map(s)[s[i].key@] == s[i].value@,
{
    let j = place_of(s, s[i].key@);
    if j < i {
        lemma_lex_irreflexive(s[i].key@);
    } else if i < j {
        lemma_lex_irreflexive(s[i].key@);
    }
}

/// A key that lies strictly between two neighbours of an ascending sequence,
/// or before its first or after its last entry, is not in it.
proof fn lemma_gap_is_absent(s: Seq<Entry>, at: int, k: Seq<u8>)
    requires
        ascending(s),
        0 <= at <= s.len(),
        forall|i: int| 0 <= i < at ==> lex_lt(#[trigger] s[i].key@, k),
        forall|i: int| at <= i < s.len() ==> lex_lt(k, #[trigger] s[i].key@),
    ensures
        !holds_key(s, k),
        !entries_map(s).contains_key(k),
{
    if holds_key(s, k) {
        let j = place_of(s, k);
        lemma_lex_irreflexive(k);
    }
}

/// The snapshot of the latest finalized block's storage.
pub struct FinalizedStorage {
    entries: Vec<Entry>,
}

impl View for FinalizedStorage {
    type V = Map<Seq<u8>, Seq<u8>>;

    closed spec fn view(&self) -> Map<Seq<u8>, Seq<u8>> {
        entries_map(self.entries@)
    }
}

impl FinalizedStorage {
    #[verifier::type_invariant]
    spec fn ordered(self) -> bool {
        ascending(self.entries@)
    }

    /// An empty snapshot.
    pub fn new() -> (s: Self)
        ensures
            s@ == Map::<Seq<u8>, Seq<u8>>::empty(),
    {
        let s = FinalizedStorage { entries: Vec::new() };
        assert(s@ =~= Map::<Seq<u8>, Seq<u8>>::empty());
        s
    }

    /// The number of keys in the snapshot.
    pub fn len(&self) -> (n: usize)
        ensures
            n == self@.dom().len(),
            self@.dom().finite(),
    {
        proof {
            use_type_invariant(self);
            lemma_domain_size(self.entries@);
        }
        self.entries.len()
    }

    /// The first place whose key is not smaller than `key`.
    fn lower_bound(&self, key: &[u8]) -> (at: usize)
        ensures
            at <= self.entries@.len(),
            forall|i: int| 0 <= i < at ==> lex_lt(#[trigger] self.entries@[i].key@, key@),
            forall|i: int| at <= i < self.entries@.len() ==> lex_le(key@, #[trigger] self.entries@[i].key@),
    {
        proof {
            use_type_invariant(self);
        }
        let mut lo: usize = 0;
        let mut hi: usize = self.entries.len();
        while lo < hi
            invariant
                lo <= hi <= self.entries@.len(),
                ascending(self.entries@),
                forall|i: int| 0 <= i < lo ==> lex_lt(#[trigger] self.entries@[i].key@, key@),
                forall|i: int|
                    hi <= i < self.entries@.len() ==> lex_le(key@, #[trigger] self.entries@[i].key@),
            decreases hi - lo,
        {
            let mid = lo + (hi - lo) / 2;
            let r = rank(self.entries[mid].key.as_slice(), key);
            proof {
                lemma_rank_meaning(self.entries@[mid as int].key@, key@);
            }
            match r {
                Rank::Before => {
                    assert forall|i: int| 0 <= i < mid + 1 implies lex_lt(
                        #[trigger] self.entries@[i].key@,
                        key@,
                    ) by {
                        if i < mid {
                            lemma_lex_transitive(
                                self.entries@[i].key@,
                                self.entries@[mid as int].key@,
                                key@,
                            );
                        }
                    }
                    lo = mid + 1;
                },
                _ => {
                    assert forall|i: int| mid <= i < self.entries@.len() implies lex_le(
                        key@,
                        #[trigger] self.entries@[i].key@,
                    ) by {
                        if mid < i {
                            if key@ != self.entries@[mid as int].key@ {
                                lemma_lex_transitive(
                                    key@,
                                    self.entries@[mid as int].key@,
                                    self.entries@[i].key@,
                                );
                            }
                        }
                    }
                    hi = mid;
                },
            }
        }
        lo
    }

    /// The value at `key`, if the snapshot holds the key.
    pub fn get(&self, key: &[u8]) -> (r: Option<&Vec<u8>>)
        ensures
            match r {
                Some(v) => self@.contains_key(key@) && self@[key@] == v@,
                None => !self@.contains_key(key@),
            },
    {
        proof {
            use_type_invariant(self);
        }
        let at = self.lower_bound(key);
        if at < self.entries.len() {
            let r = rank(self.entries[at].key.as_slice(), key);
            proof {
                lemma_rank_meaning(self.entries@[at as int].key@, key@);
            }
            if r == Rank::Same {
                proof {
                    lemma_place_unique(self.entries@, at as int);
                }
                return Some(&self.entries[at].value);
            }
        }
        proof {
            lemma_absent_at(self.entries@, at as int, key@);
        }
        None
    }

    /// Gives `key` the value `value`, over whatever it held, and returns the
    /// value that it held.
    pub fn insert(&mut self, key: Vec<u8>, value: Vec<u8>) -> (prev: Option<Vec<u8>>)
        ensures
            final(self)@ == old(self)@.insert(key@, value@),
            match prev {
                Some(v) => old(self)@.contains_key(key@) && old(self)@[key@] == v@,
                None => !old(self)@.contains_key(key@),
            },
    {
        proof {
            use_type_invariant(&*self);
        }
        let at = self.lower_bound(key.as_slice());
        let ghost before = self.entries@;
        let mut entries: Vec<Entry> = Vec::new();
        std::mem::swap(&mut entries, &mut self.entries);
        let mut prev: Option<Vec<u8>> = None;
        if at < entries.len() {
            let r = rank(entries[at].key.as_slice(), key.as_slice());
            proof {
                lemma_rank_meaning(before[at as int].key@, key@);
            }
            if r == Rank::Same {
                proof {
                    lemma_place_unique(before, at as int);
                }
                let held = entries.remove(at);
                prev = Some(held.value);
            }
        }
        proof {
            if prev.is_none() {
                lemma_absent_at(before, at as int, key@);
            }
        }
        let ghost middle = entries@;
        entries.insert(at, Entry { key, value });
        proof {
            lemma_insert_at(before, middle, entries@, at as int);
        }
        self.entries = entries;
        prev
    }


    /// Removes `key` and returns the value that it held. Where the snapshot
    /// does not hold the key, nothing changes.
    pub fn remove(&mut self, key: &[u8]) -> (prev: Option<Vec<u8>>)
        ensures
            final(self)@ == old(self)@.remove(key@),
            match prev {
                Some(v) => old(self)@.contains_key(key@) && old(self)@[key@] == v@,
                None => !old(self)@.contains_key(key@),
            },
    {
        proof {
            use_type_invariant(&*self);
        }
        let at = self.lower_bound(key);
        let ghost before = self.entries@;
        if at < self.entries.len() {
            let r = rank(self.entries[at].key.as_slice(), key);
            proof {
                lemma_rank_meaning(before[at as int].key@, key@);
            }
            if r == Rank::Same {
                let mut entries: Vec<Entry> = Vec::new();
                std::mem::swap(&mut entries, &mut self.entries);
                let held = entries.remove(at);
                proof {
                    lemma_place_unique(before, at as int);
                    lemma_remove_at(before, entries@, at as int);
                }
                self.entries = entries;
                return Some(held.value);
            }
        }
        proof {
            lemma_absent_at(before, at as int, key@);
            assert(self@ =~= old(self)@.remove(key@));
        }
        None
    }

    /// The smallest key strictly greater than `key`, if there is one.
    pub fn next_key(&self, key: &[u8]) -> (r: Option<&Vec<u8>>)
        ensures
            is_next_key(
                self@,
                key@,
                match r {
                    Some(k) => Some(k@),
                    None => None,
                },
            ),
    {
        proof {
            use_type_invariant(self);
        }
        let ghost s = self.entries@;
        let mut at = self.lower_bound(key);
        if at < self.entries.len() {
            let r = rank(self.entries[at].key.as_slice(), key);
            proof {
                lemma_rank_meaning(s[at as int].key@, key@);
            }
            if r == Rank::Same {
                at += 1;
            }
        }
        proof {
            assert forall|i: int| 0 <= i < at implies lex_le(#[trigger] s[i].key@, key@) by {}
            assert forall|i: int| at <= i < s.len() implies lex_lt(key@, #[trigger] s[i].key@) by {
                if i > at {
                    lemma_lex_transitive(key@, s[at as int].key@, s[i].key@);
                }
            }
            assert forall|k: Seq<u8>| self@.contains_key(k) && lex_lt(key@, k) implies at < s.len()
                && lex_le(s[at as int].key@, k) by {
                let j = place_of(s, k);
                if j < at {
                    lemma_lex_asymmetric(key@, k);
                }
            }
        }
        if at < self.entries.len() {
            proof {
                lemma_place_unique(s, at as int);
            }
            Some(&self.entries[at].key)
        } else {
            None
        }
    }

    /// The keys that start with `prefix`, in ascending order.
    pub fn prefix_keys(&self, prefix: &[u8]) -> (keys: Vec<Vec<u8>>)
        ensures
            is_prefix_listing(self@, prefix@, keys@.map_values(|k: Vec<u8>| k@)),
    {
        proof {
            use_type_invariant(self);
        }
        let ghost s = self.entries@;
        let start = self.lower_bound(prefix);
        let mut keys: Vec<Vec<u8>> = Vec::new();
        let mut i: usize = start;
        while i < self.entries.len() && starts_with(self.entries[i].key.as_slice(), prefix)
            invariant
                s == self.entries@,
                start <= i <= s.len(),
                keys@.len() == i - start,
                forall|j: int| 0 <= j < keys@.len() ==> (#[trigger] keys@[j])@ == s[start + j].key@,
                forall|j: int| start <= j < i ==> prefix@.is_prefix_of(#[trigger] s[j].key@),
            decreases s.len() - i,
        {
            keys.push(copy_bytes(self.entries[i].key.as_slice()));
            i += 1;
        }
        proof {
            let listing = keys@.map_values(|k: Vec<u8>| k@);
            assert forall|j: int| 0 <= j < listing.len() implies self@.contains_key(
                #[trigger] listing[j],
            ) && prefix@.is_prefix_of(listing[j]) by {
                assert(listing[j] == keys@[j]@);
                lemma_place_unique(s, start + j);
            }
            assert forall|a: int, b: int| 0 <= a < b < listing.len() implies lex_lt(
                listing[a],
                listing[b],
            ) by {
                assert(listing[a] == keys@[a]@);
                assert(listing[b] == keys@[b]@);
            }
            assert forall|k: Seq<u8>| self@.contains_key(k) && prefix@.is_prefix_of(
                k,
            ) implies listing.contains(k) by {
                let j = place_of(s, k);
                if j < start {
                    lemma_smaller_lacks_prefix(prefix@, k);
                } else if j >= i {
                    if j > i {
                        lemma_prefix_range_ends(prefix@, s[i as int].key@, k);
                    }
                } else {
                    assert(listing[j - start] == keys@[j - start]@);
                }
            }
        }
        keys
    }

    /// Applies one change of a diff: inserts the value where one is given,
    /// removes the key where none is.
    pub fn apply_change(&mut self, change: &StorageChange)
        ensures
            final(self)@ == change_applied(old(self)@, change@),
    {
        match &change.value {
            Some(value) => {
                let _ = self.insert(copy_bytes(change.key.as_slice()), copy_bytes(value.as_slice()));
            },
            None => {
                let _ = self.remove(change.key.as_slice());
            },
        }
    }

    /// Applies the changes of a diff in the order in which they stand.
    pub fn apply_diff(&mut self, diff: &Vec<StorageChange>)
        ensures
            final(self)@ == diff_applied(old(self)@, diff_view(diff@)),
    {
        let ghost changes = diff_view(diff@);
        let mut i: usize = 0;
        while i < diff.len()
            invariant
                i <= diff.len(),
                changes == diff_view(diff@),
                self@ == diff_applied(old(self)@, changes.take(i as int)),
            decreases diff.len() - i,
        {
            proof {
                assert(changes.take(i as int + 1).drop_last() =~= changes.take(i as int));
                assert(changes.take(i as int + 1).last() == diff@[i as int]@);
            }
            self.apply_change(&diff[i]);
            i += 1;
        }
        proof {
            assert(changes.take(i as int) =~= changes);
        }
    }
}

/// A key that is not at its lower bound is not in the sequence.
proof fn lemma_absent_at(s: Seq<Entry>, at: int, k: Seq<u8>)
    requires
        ascending(s),
        0 <= at <= s.len(),
        forall|i: int| 0 <= i < at ==> lex_lt(#[trigger] s[i].key@, k),
        forall|i: int| at <= i < s.len() ==> lex_le(k, #[trigger] s[i].key@),
        at < s.len() ==> s[at].key@ != k,
    ensures
        !holds_key(s, k),
        !entries_map(s).contains_key(k),
{
    assert forall|i: int| at <= i < s.len() implies lex_lt(k, #[trigger] s[i].key@) by {
        if i > at {
            if s[at].key@ != k {
                lemma_lex_transitive(k, s[at].key@, s[i].key@);
            }
        }
    }
    lemma_gap_is_absent(s, at, k);
}

/// The keys of an ascending sequence of entries, as a set, are as many as the
/// entries.
proof fn lemma_domain_size(s: Seq<Entry>)
    requires
        ascending(s),
    ensures
        entries_map(s).dom().finite(),
        entries_map(s).dom().len() == s.len(),
    decreases s.len(),
{
    if s.len() == 0 {
        assert(entries_map(s).dom() =~= Set::<Seq<u8>>::empty());
    } else {
        let front = s.drop_last();
        let last = s.last();
        lemma_domain_size(front);
        assert(!holds_key(front, last.key@)) by {
            if holds_key(front, last.key@) {
                let j = place_of(front, last.key@);
                assert(lex_lt(s[j].key@, s[s.len() - 1].key@));
                lemma_lex_irreflexive(last.key@);
            }
        }
        assert(entries_map(s).dom() =~= entries_map(front).dom().insert(last.key@)) by {
            assert forall|k: Seq<u8>| holds_key(s, k) <==> (holds_key(front, k) || k == last.key@) by {
                if holds_key(s, k) {
                    let j = place_of(s, k);
                    if j < s.len() - 1 {
                        assert(front[j].key@ == k);
                    }
                }
                if holds_key(front, k) {
                    let j = place_of(front, k);
                    assert(s[j].key@ == k);
                }
                if k == last.key@ {
                    assert(s[s.len() - 1].key@ == k);
                }
            }
        }
    }
}

/// What putting an entry in at its lower bound does to the mapping, whether
/// or not an entry with the same key was taken out there first.
proof fn lemma_insert_at(before: Seq<Entry>, middle: Seq<Entry>, after: Seq<Entry>, at: int)
    requires
        ascending(before),
        0 <= at <= middle.len(),
        at < after.len(),
        after == middle.insert(at, after[at]),
        middle == before || (at < before.len() && before[at].key@ == after[at].key@ && middle
            == before.remove(at)),
        forall|i: int| 0 <= i < at ==> lex_lt(#[trigger] before[i].key@, after[at].key@),
        forall|i: int| at <= i < before.len() ==> lex_le(after[at].key@, #[trigger] before[i].key@),
        middle == before ==> (at < before.len() ==> before[at].key@ != after[at].key@),
    ensures
        ascending(after),
        entries_map(after) == entries_map(before).insert(after[at].key@, after[at].value@),
{
    let k = after[at].key@;
    assert forall|i: int| at <= i < middle.len() implies lex_lt(k, #[trigger] middle[i].key@) by {
        if middle == before {
            if i > at && before[at].key@ != k {
                lemma_lex_transitive(k, before[at].key@, before[i].key@);
            }
        } else {
            assert(middle[i] == before[i + 1]);
            assert(lex_lt(before[at].key@, before[i + 1].key@));
        }
    }
    assert forall|i: int| 0 <= i < at implies lex_lt(#[trigger] middle[i].key@, k) by {
        assert(middle[i] == before[i]);
    }
    assert(ascending(middle)) by {
        assert forall|i: int, j: int| 0 <= i < j < middle.len() implies lex_lt(
            middle[i].key@,
            middle[j].key@,
        ) by {
            if middle != before {
                let bi = if i < at { i } else { i + 1 };
                let bj = if j < at { j } else { j + 1 };
                assert(middle[i] == before[bi]);
                assert(middle[j] == before[bj]);
            }
        }
    }
    assert(ascending(after)) by {
        assert forall|i: int, j: int| 0 <= i < j < after.len() implies lex_lt(
            after[i].key@,
            after[j].key@,
        ) by {
            if i < at && j > at {
                assert(after[j] == middle[j - 1]);
                lemma_lex_transitive(after[i].key@, k, after[j].key@);
            } else if i < at && j < at {
            } else if i == at {
                assert(after[j] == middle[j - 1]);
            } else if j == at {
            } else {
                assert(after[i] == middle[i - 1]);
                assert(after[j] == middle[j - 1]);
            }
        }
    }
    let goal = entries_map(before).insert(k, after[at].value@);
    assert forall|q: Seq<u8>| entries_map(after).contains_key(q) <==> goal.contains_key(q) by {
        if holds_key(after, q) {
            let j = place_of(after, q);
            if j < at {
                assert(before[j].key@ == q);
            } else if j > at {
                assert(middle[j - 1].key@ == q);
                if middle == before {
                    assert(before[j - 1].key@ == q);
                } else {
                    assert(before[j].key@ == q);
                }
            }
        }
        if holds_key(before, q) && q != k {
            let j = place_of(before, q);
            if j < at {
                assert(after[j].key@ == q);
            } else if middle == before {
                assert(after[j + 1].key@ == q);
            } else {
                assert(j != at);
                assert(middle[j - 1] == before[j]);
                assert(after[j].key@ == q);
            }
        }
        if q == k {
            assert(after[at].key@ == q);
        }
    }
    assert forall|q: Seq<u8>| entries_map(after).contains_key(q) implies entries_map(after)[q]
        == goal[q] by {
        let j = place_of(after, q);
        lemma_place_unique(after, j);
        if j < at {
            lemma_place_unique(before, j);
        } else if j > at {
            if middle == before {
                lemma_place_unique(before, j - 1);
            } else {
                lemma_place_unique(before, j);
            }
            lemma_lex_irreflexive(k);
        }
    }
    assert(entries_map(after) =~= goal);
}

/// What taking an entry out does to the mapping.
proof fn lemma_remove_at(before: Seq<Entry>, after: Seq<Entry>, at: int)
    requires
        ascending(before),
        0 <= at < before.len(),
        after == before.remove(at),
    ensures
        ascending(after),
        entries_map(after) == entries_map(before).remove(before[at].key@),
{
    let k = before[at].key@;
    assert forall|i: int, j: int| 0 <= i < j < after.len() implies lex_lt(
        after[i].key@,
        after[j].key@,
    ) by {
        let bi = if i < at { i } else { i + 1 };
        let bj = if j < at { j } else { j + 1 };
        assert(after[i] == before[bi]);
        assert(after[j] == before[bj]);
    }
    let goal = entries_map(before).remove(k);
    assert forall|q: Seq<u8>| entries_map(after).contains_key(q) <==> goal.contains_key(q) by {
        if holds_key(after, q) {
            let j = place_of(after, q);
            let bj = if j < at { j } else { j + 1 };
            assert(before[bj].key@ == q);
            lemma_place_unique(before, bj);
            lemma_place_unique(before, at);
        }
        if holds_key(before, q) && q != k {
            let j = place_of(before, q);
            let aj = if j < at { j } else { j - 1 };
            assert(after[aj].key@ == q);
        }
    }
    assert forall|q: Seq<u8>| entries_map(after).contains_key(q) implies entries_map(after)[q]
        == goal[q] by {
        let j = place_of(after, q);
        let bj = if j < at { j } else { j + 1 };
        assert(after[j] == before[bj]);
        lemma_place_unique(after, j);
        lemma_place_unique(before, bj);
        if bj < at {
            lemma_lex_asymmetric(before[bj].key@, k);
        } else {
            lemma_lex_asymmetric(k, before[bj].key@);
        }
    }
    assert(entries_map(after) =~= goal);
}

} // verus!
