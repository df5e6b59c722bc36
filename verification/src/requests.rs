//! The block-range requests that are in flight.
//!
//! A request is known by the id that the verification engine gave it and is
//! attributed to the source that it was sent to. It stays in the table until
//! it is resolved, which happens once: it completes, it is cancelled, or its
//! source goes away. Whichever comes first takes the request out of the
//! table, and what comes later finds nothing to act on.

use crate::peers::SourceId;
use vstd::prelude::*;

verus! {

/// Handle of a block-range request that is in flight.
#[derive(Clone, Copy, Debug, PartialEq, Eq, Structural)]
pub struct RequestId(pub u64);

/// Whether a request with the id `request` stands in `table`.
pub open spec fn in_flight(table: Seq<(u64, u64)>, request: u64) -> bool {
    exists|i: int| 0 <= i < table.len() && table[i].0 == request
}

/// No id stands twice in `table`.
pub open spec fn ids_distinct(table: Seq<(u64, u64)>) -> bool {
    forall|i: int, j: int| 0 <= i < j < table.len() ==> table[i].0 != table[j].0
}

/// Holds of the entries whose id is not `request`.
pub open spec fn not_request(request: u64) -> spec_fn((u64, u64)) -> bool {
    |e: (u64, u64)| e.0 != request
}

/// Holds of the entries that are not attributed to `source`.
pub open spec fn not_source(source: u64) -> spec_fn((u64, u64)) -> bool {
    |e: (u64, u64)| e.1 != source
}

/// Holds of the entries that are attributed to `source`.
pub open spec fn of_source(source: u64) -> spec_fn((u64, u64)) -> bool {
    |e: (u64, u64)| e.1 == source
}

/// The id of an entry.
pub open spec fn entry_id() -> spec_fn((u64, u64)) -> u64 {
    |e: (u64, u64)| e.0
}

/// The number of a request id.
pub open spec fn id_number() -> spec_fn(RequestId) -> u64 {
    |r: RequestId| r.0
}

/// The table without the request `request`.
pub open spec fn without_request(table: Seq<(u64, u64)>, request: u64) -> Seq<(u64, u64)> {
    table.filter(not_request(request))
}

/// The table without the requests attributed to `source`.
pub open spec fn without_source(table: Seq<(u64, u64)>, source: u64) -> Seq<(u64, u64)> {
    table.filter(not_source(source))
}

/// The ids of the requests attributed to `source`, oldest first.
pub open spec fn requests_of(table: Seq<(u64, u64)>, source: u64) -> Seq<u64> {
    table.filter(of_source(source)).map_values(entry_id())
}

/// The table after the request `request` has been registered for `source`.
/// An entry that an earlier request left under the same id is replaced.
pub open spec fn with_request(table: Seq<(u64, u64)>, request: u64, source: u64) -> Seq<(u64, u64)> {
    without_request(table, request).push((request, source))
}

/// Taking entries out of a table leaves its ids distinct.
pub proof fn lemma_filter_distinct(table: Seq<(u64, u64)>, pred: spec_fn((u64, u64)) -> bool)
    requires
        ids_distinct(table),
    ensures
        ids_distinct(table.filter(pred)),
    decreases table.len(),
{
    reveal(Seq::filter);
    if table.len() > 0 {
        let front = table.drop_last();
        let kept = front.filter(pred);
        lemma_filter_distinct(front, pred);
        if pred(table.last()) {
            assert forall|i: int| 0 <= i < kept.len() implies kept[i].0 != table.last().0 by {
                front.lemma_filter_contains_rev(pred, kept[i]);
                let j = choose|j: int| 0 <= j < front.len() && front[j] == kept[i];
                assert(table[j] == kept[i]);
            }
        }
    }
}

/// A request that has been taken out of the table is not in flight.
pub proof fn lemma_without_request(table: Seq<(u64, u64)>, request: u64)
    ensures
        !in_flight(without_request(table, request), request),
        forall|other: u64|
            other != request ==> (in_flight(without_request(table, request), other) <==> in_flight(
                table,
                other,
            )),
{
    let pred = not_request(request);
    let kept = table.filter(pred);
    if in_flight(kept, request) {
        let i = choose|i: int| 0 <= i < kept.len() && kept[i].0 == request;
        table.lemma_filter_pred(pred, i);
    }
    assert forall|other: u64| other != request implies (in_flight(kept, other) <==> in_flight(
        table,
        other,
    )) by {
        if in_flight(kept, other) {
            let i = choose|i: int| 0 <= i < kept.len() && kept[i].0 == other;
            table.lemma_filter_contains_rev(pred, kept[i]);
            let j = choose|j: int| 0 <= j < table.len() && table[j] == kept[i];
            assert(table[j].0 == other);
        }
        if in_flight(table, other) {
            let j = choose|j: int| 0 <= j < table.len() && table[j].0 == other;
            table.lemma_filter_contains(pred, j);
            let i = choose|i: int| 0 <= i < kept.len() && kept[i] == table[j];
            assert(kept[i].0 == other);
        }
    }
}

/// After a source has gone away, no request remains attributed to it, and
/// the requests of every other source are as before.
pub proof fn lemma_without_source(table: Seq<(u64, u64)>, source: u64)
    ensures
        requests_of(without_source(table, source), source) == Seq::<u64>::empty(),
        forall|i: int|
            0 <= i < without_source(table, source).len() ==> (#[trigger] without_source(
                table,
                source,
            )[i]).1 != source,
{
    let pred = not_source(source);
    let kept = table.filter(pred);
    assert forall|i: int| 0 <= i < kept.len() implies (#[trigger] kept[i]).1 != source by {
        table.lemma_filter_pred(pred, i);
    }
    let of = of_source(source);
    kept.lemma_all_neg_filter_empty(of);
    assert(kept.filter(of).len() == 0);
    assert(requests_of(kept, source) =~= Seq::<u64>::empty());
}

/// The requests in flight.
pub struct RequestTable {
    entries: Vec<(u64, u64)>,
}

impl View for RequestTable {
    type V = Seq<(u64, u64)>;

    closed spec fn view(&self) -> Seq<(u64, u64)> {
        self.entries@
    }
}

impl RequestTable {
    #[verifier::type_invariant]
    spec fn sound(self) -> bool {
        ids_distinct(self.entries@)
    }

    /// A table with no request in flight.
    pub fn new() -> (t: Self)
        ensures
            t@ == Seq::<(u64, u64)>::empty(),
    {
        RequestTable { entries: Vec::new() }
    }

    /// Number of requests in flight.
    pub fn len(&self) -> (n: usize)
        ensures
            n == self@.len(),
            ids_distinct(self@),
    {
        proof {
            use_type_invariant(self);
        }
        self.entries.len()
    }

    /// The source that the request is attributed to, if the request is in
    /// flight.
    pub fn source_of(&self, request: RequestId) -> (r: Option<SourceId>)
        ensures
            match r {
                Some(source) => self@.contains((request.0, source.0)),
                None => !in_flight(self@, request.0),
            },
    {
        let mut i: usize = 0;
        while i < self.entries.len()
            invariant
                i <= self.entries@.len(),
                forall|j: int| 0 <= j < i ==> self.entries@[j].0 != request.0,
            decreases self.entries@.len() - i,
        {
            if self.entries[i].0 == request.0 {
                assert(self@[i as int] == (request.0, self.entries@[i as int].1));
                return Some(SourceId(self.entries[i].1));
            }
            i += 1;
        }
        None
    }

    /// Registers a request as in flight and attributes it to `source`.
    pub fn register(&mut self, request: RequestId, source: SourceId)
        ensures
            final(self)@ == with_request(old(self)@, request.0, source.0),
            ids_distinct(final(self)@),
            in_flight(final(self)@, request.0),
    {
        proof {
            use_type_invariant(&*self);
        }
        let ghost before = self.entries@;
        let mut kept = drop_request(&self.entries, request.0);
        proof {
            lemma_filter_distinct(before, not_request(request.0));
            lemma_without_request(before, request.0);
            let prior = kept@;
            assert forall|i: int| 0 <= i < prior.len() implies prior[i].0 != request.0 by {
                if prior[i].0 == request.0 {
                    assert(in_flight(prior, request.0));
                }
            }
        }
        kept.push((request.0, source.0));
        assert(kept@[kept@.len() - 1].0 == request.0);
        self.entries = kept;
    }

    /// Resolves a request: takes it out of the table. Returns the source
    /// that it was attributed to, or nothing where it had been resolved
    /// before.
    pub fn resolve(&mut self, request: RequestId) -> (r: Option<SourceId>)
        ensures
            final(self)@ == without_request(old(self)@, request.0),
            !in_flight(final(self)@, request.0),
            match r {
                Some(source) => old(self)@.contains((request.0, source.0)),
                None => !in_flight(old(self)@, request.0),
            },
    {
        proof {
            use_type_invariant(&*self);
        }
        let found = self.source_of(request);
        let kept = drop_request(&self.entries, request.0);
        proof {
            lemma_filter_distinct(self.entries@, not_request(request.0));
            lemma_without_request(self.entries@, request.0);
        }
        self.entries = kept;
        found
    }

    /// Takes out every request attributed to `source` and returns their ids,
    /// oldest first.
    pub fn remove_source(&mut self, source: SourceId) -> (removed: Vec<RequestId>)
        ensures
            final(self)@ == without_source(old(self)@, source.0),
            removed@.map_values(id_number()) == requests_of(old(self)@, source.0),
            requests_of(final(self)@, source.0) == Seq::<u64>::empty(),
    {
        proof {
            use_type_invariant(&*self);
        }
        let ghost before = self.entries@;
        let ghost stays = not_source(source.0);
        let ghost goes = of_source(source.0);
        let mut kept: Vec<(u64, u64)> = Vec::new();
        let mut removed: Vec<RequestId> = Vec::new();
        let mut i: usize = 0;
        while i < self.entries.len()
            invariant
                i <= self.entries@.len(),
                before == self.entries@,
                stays == not_source(source.0),
                goes == of_source(source.0),
                kept@ == before.take(i as int).filter(stays),
                removed@.map_values(id_number()) == before.take(i as int).filter(
                    goes,
                ).map_values(entry_id()),
            decreases self.entries@.len() - i,
        {
            let entry = self.entries[i];
            proof {
                assert(before.take(i as int + 1) =~= before.take(i as int).push(entry));
                before.take(i as int).lemma_filter_push(entry, stays);
                before.take(i as int).lemma_filter_push(entry, goes);
            }
            let ghost removed_before = removed@.map_values(id_number());
            if entry.1 == source.0 {
                removed.push(RequestId(entry.0));
                assert(removed@.map_values(id_number()) =~= removed_before.push(entry.0));
                assert(before.take(i as int + 1).filter(goes).map_values(entry_id())
                    =~= before.take(i as int).filter(goes).map_values(entry_id()).push(
                    entry.0,
                ));
            } else {
                kept.push(entry);
            }
            i += 1;
        }
        proof {
            assert(before.take(i as int) =~= before);
            lemma_filter_distinct(before, stays);
            lemma_without_source(before, source.0);
        }
        self.entries = kept;
        removed
    }
}

/// The entries of `entries` whose id is not `request`.
fn drop_request(entries: &Vec<(u64, u64)>, request: u64) -> (kept: Vec<(u64, u64)>)
    ensures
        kept@ == without_request(entries@, request),
{
    let ghost pred = not_request(request);
    let mut kept: Vec<(u64, u64)> = Vec::new();
    let mut i: usize = 0;
    while i < entries.len()
        invariant
            i <= entries@.len(),
            pred == not_request(request),
            kept@ == entries@.take(i as int).filter(pred),
        decreases entries@.len() - i,
    {
        let entry = entries[i];
        proof {
            assert(entries@.take(i as int + 1) =~= entries@.take(i as int).push(entry));
            entries@.take(i as int).lemma_filter_push(entry, pred);
        }
        if entry.0 != request {
            kept.push(entry);
        }
        i += 1;
    }
    proof {
        assert(entries@.take(i as int) =~= entries@);
    }
    kept
}

} // verus!
