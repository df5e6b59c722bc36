//! Connection slots of one chain.
//!
//! A slot is the reserved capacity for one active peer connection. Each
//! direction has a bounded number of them. An outbound slot is taken when a
//! dial is started and stays taken while the dial is pending and while the
//! connection that came of it is open; an inbound slot is taken while an
//! accepted connection is open. Whatever ends a dial or a connection gives
//! its slot back.

use crate::lists::{find, lemma_position, position};
use vstd::prelude::*;

verus! {

/// Number of inbound slots that a chain is given.
pub const DEFAULT_IN_SLOTS: u32 = 25;

/// Number of outbound slots that a chain is given.
pub const DEFAULT_OUT_SLOTS: u32 = 25;

/// Identifies a dial attempt whose peer is not confirmed yet.
#[derive(Clone, Copy, Debug, PartialEq, Eq, Structural)]
pub struct PendingDialId(pub u64);

/// Identifies an established connection.
#[derive(Clone, Copy, Debug, PartialEq, Eq, Structural)]
pub struct ConnectionHandle(pub u64);

/// The direction in which a connection was opened.
#[derive(Clone, Copy, Debug, PartialEq, Eq, Structural)]
pub enum Direction {
    Inbound,
    Outbound,
}

/// The number of connections of `s` that have the given direction.
pub open spec fn count_direction(s: Seq<(u64, Direction)>, direction: Direction) -> nat
    decreases s.len(),
{
    if s.len() == 0 {
        0
    } else {
        count_direction(s.drop_last(), direction) + if s.last().1 == direction {
            1nat
        } else {
            0nat
        }
    }
}

/// The handles of the connections of `s`, in order.
pub open spec fn connection_handles(s: Seq<(u64, Direction)>) -> Seq<u64> {
    s.map_values(|c: (u64, Direction)| c.0)
}

/// What a slot table holds, as plain values.
pub struct SlotsView {
    pub in_capacity: nat,
    pub out_capacity: nat,
    /// The pending dials, oldest first. Each holds an outbound slot.
    pub pending: Seq<u64>,
    /// The open connections, oldest first, each with its direction.
    pub open: Seq<(u64, Direction)>,
    /// The number that the next dial or connection is given.
    pub next_id: nat,
}

/// One thing that can happen to a slot table.
pub enum SlotOp {
    /// A free outbound slot is asked for.
    FillOut,
    /// The dial with this number failed.
    DialFailed(u64),
    /// The dial with this number reached its peer.
    DialSucceeded(u64),
    /// A peer asks to connect.
    AcceptInbound,
    /// The connection with this number ended.
    Closed(u64),
}

impl SlotsView {
    /// Number of outbound slots in use.
    pub open spec fn out_used(self) -> nat {
        self.pending.len() + count_direction(self.open, Direction::Outbound)
    }

    /// Number of inbound slots in use.
    pub open spec fn in_used(self) -> nat {
        count_direction(self.open, Direction::Inbound)
    }

    /// No direction uses more slots than it has.
    pub open spec fn within_capacity(self) -> bool {
        self.out_used() <= self.out_capacity && self.in_used() <= self.in_capacity
    }

    /// Whether a number can still be given out.
    pub open spec fn has_fresh_id(self) -> bool {
        self.next_id < u64::MAX
    }

    /// An outbound slot is asked for: granted, with a new pending dial,
    /// exactly where one is free.
    pub open spec fn fill_out(self) -> (SlotsView, Option<u64>) {
        if self.out_used() < self.out_capacity && self.has_fresh_id() {
            (
                SlotsView {
                    pending: self.pending.push(self.next_id as u64),
                    next_id: self.next_id + 1,
                    ..self
                },
                Some(self.next_id as u64),
            )
        } else {
            (self, None)
        }
    }

    /// A dial failed: its slot is free again. An unknown dial changes
    /// nothing.
    pub open spec fn dial_failed(self, id: u64) -> SlotsView {
        if self.pending.contains(id) {
            SlotsView { pending: self.pending.remove(position(self.pending, id)), ..self }
        } else {
            self
        }
    }

    /// A dial reached its peer: its slot passes to the new connection. An
    /// unknown dial changes nothing, and so does a known one where no number
    /// is left to give to the connection.
    pub open spec fn dial_succeeded(self, id: u64) -> (SlotsView, Option<u64>) {
        if self.pending.contains(id) && self.has_fresh_id() {
            (
                SlotsView {
                    pending: self.pending.remove(position(self.pending, id)),
                    open: self.open.push((self.next_id as u64, Direction::Outbound)),
                    next_id: self.next_id + 1,
                    ..self
                },
                Some(self.next_id as u64),
            )
        } else {
            (self, None)
        }
    }

    /// A peer asks to connect: accepted exactly where an inbound slot is
    /// free.
    pub open spec fn accept_inbound(self) -> (SlotsView, Option<u64>) {
        if self.in_used() < self.in_capacity && self.has_fresh_id() {
            (
                SlotsView {
                    open: self.open.push((self.next_id as u64, Direction::Inbound)),
                    next_id: self.next_id + 1,
                    ..self
                },
                Some(self.next_id as u64),
            )
        } else {
            (self, None)
        }
    }

    /// A connection ended: its slot is free again. An unknown connection
    /// changes nothing.
    pub open spec fn closed(self, handle: u64) -> SlotsView {
        let handles = connection_handles(self.open);
        if handles.contains(handle) {
            SlotsView { open: self.open.remove(position(handles, handle)), ..self }
        } else {
            self
        }
    }

    /// The table after one operation.
    pub open spec fn step(self, op: SlotOp) -> SlotsView {
        match op {
            SlotOp::FillOut => self.fill_out().0,
            SlotOp::DialFailed(id) => self.dial_failed(id),
            SlotOp::DialSucceeded(id) => self.dial_succeeded(id).0,
            SlotOp::AcceptInbound => self.accept_inbound().0,
            SlotOp::Closed(handle) => self.closed(handle),
        }
    }

    /// The table after a run of operations, in any interleaving.
    pub open spec fn run(self, ops: Seq<SlotOp>) -> SlotsView {
        ops.fold_left(self, |v: SlotsView, op: SlotOp| v.step(op))
    }
}

/// Taking a connection out lowers the count of its direction by one and
/// leaves the other count as it is.
pub proof fn lemma_count_remove(s: Seq<(u64, Direction)>, at: int, direction: Direction)
    requires
        0 <= at < s.len(),
    ensures
        count_direction(s.remove(at), direction) + (if s[at].1 == direction {
            1nat
        } else {
            0nat
        }) == count_direction(s, direction),
    decreases s.len(),
{
    if at == s.len() - 1 {
        assert(s.remove(at) =~= s.drop_last());
    } else {
        lemma_count_remove(s.drop_last(), at, direction);
        assert(s.remove(at).drop_last() =~= s.drop_last().remove(at));
        assert(s.remove(at).last() == s.last());
    }
}

/// Adding a connection raises the count of its direction by one and leaves
/// the other count as it is.
pub proof fn lemma_count_push(s: Seq<(u64, Direction)>, c: (u64, Direction), direction: Direction)
    ensures
        count_direction(s.push(c), direction) == count_direction(s, direction) + (if c.1
            == direction {
            1nat
        } else {
            0nat
        }),
{
    assert(s.push(c).drop_last() =~= s);
}

/// No single operation takes a table over its capacity.
pub proof fn lemma_step_within_capacity(v: SlotsView, op: SlotOp)
    requires
        v.within_capacity(),
    ensures
        v.step(op).within_capacity(),
        v.step(op).in_capacity == v.in_capacity,
        v.step(op).out_capacity == v.out_capacity,
{
    let fresh = v.next_id as u64;
    match op {
        SlotOp::FillOut => {},
        SlotOp::DialFailed(id) => {
            if v.pending.contains(id) {
                lemma_position(v.pending, id);
            }
        },
        SlotOp::DialSucceeded(id) => {
            if v.pending.contains(id) {
                lemma_position(v.pending, id);
            }
            lemma_count_push(v.open, (fresh, Direction::Outbound), Direction::Outbound);
            lemma_count_push(v.open, (fresh, Direction::Outbound), Direction::Inbound);
        },
        SlotOp::AcceptInbound => {
            lemma_count_push(v.open, (fresh, Direction::Inbound), Direction::Outbound);
            lemma_count_push(v.open, (fresh, Direction::Inbound), Direction::Inbound);
        },
        SlotOp::Closed(handle) => {
            let handles = connection_handles(v.open);
            if handles.contains(handle) {
                lemma_position(handles, handle);
                let at = position(handles, handle);
                lemma_count_remove(v.open, at, Direction::Outbound);
                lemma_count_remove(v.open, at, Direction::Inbound);
            }
        },
    }
}

/// Slot occupancy never exceeds the configured capacity: whatever
/// operations reach a table that is within its capacity, and in whatever
/// order, the table stays within it.
pub proof fn lemma_run_within_capacity(v: SlotsView, ops: Seq<SlotOp>)
    requires
        v.within_capacity(),
    ensures
        v.run(ops).within_capacity(),
        v.run(ops).in_capacity == v.in_capacity,
        v.run(ops).out_capacity == v.out_capacity,
    decreases ops.len(),
{
    if ops.len() > 0 {
        lemma_run_within_capacity(v, ops.drop_last());
        lemma_step_within_capacity(v.run(ops.drop_last()), ops.last());
    }
}

/// The slots of one chain.
pub struct SlotTable {
    in_capacity: u32,
    out_capacity: u32,
    pending: Vec<u64>,
    open: Vec<(u64, Direction)>,
    next_id: u64,
}

impl View for SlotTable {
    type V = SlotsView;

    closed spec fn view(&self) -> SlotsView {
        SlotsView {
            in_capacity: self.in_capacity as nat,
            out_capacity: self.out_capacity as nat,
            pending: self.pending@,
            open: self.open@,
            next_id: self.next_id as nat,
        }
    }
}

/// The first place of the connection `handle` in `v`, if it is open.
fn find_open(v: &Vec<(u64, Direction)>, handle: u64) -> (r: Option<usize>)
    ensures
        match r {
            Some(at) => connection_handles(v@).contains(handle) && at == position(
                connection_handles(v@),
                handle,
            ) && at < v@.len(),
            None => !connection_handles(v@).contains(handle),
        },
{
    let ghost handles = connection_handles(v@);
    let mut i: usize = 0;
    while i < v.len()
        invariant
            i <= v.len(),
            handles == connection_handles(v@),
            forall|j: int| 0 <= j < i ==> handles[j] != handle,
        decreases v.len() - i,
    {
        if v[i].0 == handle {
            proof {
                assert(handles[i as int] == handle);
                assert(handles.contains(handle));
                lemma_position(handles, handle);
            }
            return Some(i);
        }
        i += 1;
    }
    None
}

/// Counts the connections of `v` that have the given direction.
fn count_open(v: &Vec<(u64, Direction)>, direction: Direction) -> (n: usize)
    ensures
        n == count_direction(v@, direction),
        n <= v@.len(),
{
    let mut n: usize = 0;
    let mut i: usize = 0;
    while i < v.len()
        invariant
            i <= v.len(),
            n <= i,
            n == count_direction(v@.take(i as int), direction),
        decreases v.len() - i,
    {
        proof {
            assert(v@.take(i as int + 1).drop_last() =~= v@.take(i as int));
        }
        if v[i].1 == direction {
            n += 1;
        }
        i += 1;
    }
    proof {
        assert(v@.take(i as int) =~= v@);
    }
    n
}

impl SlotTable {
    #[verifier::type_invariant]
    spec fn sound(self) -> bool {
        self@.within_capacity()
    }

    /// A table with the given capacities and every slot free.
    pub fn new(in_capacity: u32, out_capacity: u32) -> (t: Self)
        ensures
            t@ == (SlotsView {
                in_capacity: in_capacity as nat,
                out_capacity: out_capacity as nat,
                pending: Seq::empty(),
                open: Seq::empty(),
                next_id: 0,
            }),
            t@.within_capacity(),
    {
        SlotTable { in_capacity, out_capacity, pending: Vec::new(), open: Vec::new(), next_id: 0 }
    }

    /// Number of outbound slots in use.
    pub fn out_used(&self) -> (n: usize)
        ensures
            n == self@.out_used(),
            n <= self@.out_capacity,
    {
        proof {
            use_type_invariant(self);
        }
        self.pending.len() + count_open(&self.open, Direction::Outbound)
    }

    /// Number of inbound slots in use.
    pub fn in_used(&self) -> (n: usize)
        ensures
            n == self@.in_used(),
            n <= self@.in_capacity,
    {
        proof {
            use_type_invariant(self);
        }
        count_open(&self.open, Direction::Inbound)
    }

    /// Asks for a free outbound slot. Where one is free, a dial is begun in
    /// it and its number returned.
    pub fn fill_out_slot(&mut self) -> (granted: Option<PendingDialId>)
        ensures
            final(self)@ == old(self)@.fill_out().0,
            final(self)@.within_capacity(),
            match granted {
                Some(id) => old(self)@.fill_out().1 == Some(id.0),
                None => old(self)@.fill_out().1.is_none(),
            },
    {
        proof {
            use_type_invariant(&*self);
        }
        if self.out_used() < self.out_capacity as usize && self.next_id < u64::MAX {
            let id = self.next_id;
            let mut pending: Vec<u64> = Vec::new();
            std::mem::swap(&mut pending, &mut self.pending);
            pending.push(id);
            self.pending = pending;
            self.next_id = id + 1;
            Some(PendingDialId(id))
        } else {
            None
        }
    }

    /// Reports that a dial failed, which frees its slot. Tells whether the
    /// dial was pending.
    pub fn dial_failed(&mut self, id: PendingDialId) -> (was_pending: bool)
        ensures
            final(self)@ == old(self)@.dial_failed(id.0),
            final(self)@.within_capacity(),
            was_pending == old(self)@.pending.contains(id.0),
    {
        proof {
            use_type_invariant(&*self);
        }
        match find(&self.pending, id.0) {
            Some(at) => {
                let mut pending: Vec<u64> = Vec::new();
                std::mem::swap(&mut pending, &mut self.pending);
                let _ = pending.remove(at);
                self.pending = pending;
                true
            },
            None => false,
        }
    }

    /// Reports that a dial reached its peer. The slot of the dial passes to
    /// the connection, whose handle is returned.
    pub fn dial_succeeded(&mut self, id: PendingDialId) -> (connection: Option<ConnectionHandle>)
        ensures
            final(self)@ == old(self)@.dial_succeeded(id.0).0,
            final(self)@.within_capacity(),
            match connection {
                Some(c) => old(self)@.dial_succeeded(id.0).1 == Some(c.0),
                None => old(self)@.dial_succeeded(id.0).1.is_none(),
            },
    {
        proof {
            use_type_invariant(&*self);
        }
        if self.next_id == u64::MAX {
            return None;
        }
        match find(&self.pending, id.0) {
            Some(at) => {
                let handle = self.next_id;
                let mut pending: Vec<u64> = Vec::new();
                std::mem::swap(&mut pending, &mut self.pending);
                let _ = pending.remove(at);
                self.pending = pending;
                let mut open: Vec<(u64, Direction)> = Vec::new();
                std::mem::swap(&mut open, &mut self.open);
                proof {
                    lemma_count_push(open@, (handle, Direction::Outbound), Direction::Outbound);
                    lemma_count_push(open@, (handle, Direction::Outbound), Direction::Inbound);
                }
                open.push((handle, Direction::Outbound));
                self.open = open;
                self.next_id = handle + 1;
                Some(ConnectionHandle(handle))
            },
            None => None,
        }
    }

    /// Asks for a free inbound slot for a peer that wants to connect. Where
    /// one is free, the connection is opened in it and its handle returned.
    pub fn accept_inbound(&mut self) -> (connection: Option<ConnectionHandle>)
        ensures
            final(self)@ == old(self)@.accept_inbound().0,
            final(self)@.within_capacity(),
            match connection {
                Some(c) => old(self)@.accept_inbound().1 == Some(c.0),
                None => old(self)@.accept_inbound().1.is_none(),
            },
    {
        proof {
            use_type_invariant(&*self);
        }
        if self.in_used() < self.in_capacity as usize && self.next_id < u64::MAX {
            let handle = self.next_id;
            let mut open: Vec<(u64, Direction)> = Vec::new();
            std::mem::swap(&mut open, &mut self.open);
            proof {
                lemma_count_push(open@, (handle, Direction::Inbound), Direction::Outbound);
                lemma_count_push(open@, (handle, Direction::Inbound), Direction::Inbound);
            }
            open.push((handle, Direction::Inbound));
            self.open = open;
            self.next_id = handle + 1;
            Some(ConnectionHandle(handle))
        } else {
            None
        }
    }

    /// Reports that a connection ended, which frees its slot. Tells whether
    /// the connection was open.
    pub fn connection_closed(&mut self, connection: ConnectionHandle) -> (was_open: bool)
        ensures
            final(self)@ == old(self)@.closed(connection.0),
            final(self)@.within_capacity(),
            was_open == connection_handles(old(self)@.open).contains(connection.0),
    {
        proof {
            use_type_invariant(&*self);
        }
        match find_open(&self.open, connection.0) {
            Some(at) => {
                let mut open: Vec<(u64, Direction)> = Vec::new();
                std::mem::swap(&mut open, &mut self.open);
                proof {
                    lemma_count_remove(open@, at as int, Direction::Outbound);
                    lemma_count_remove(open@, at as int, Direction::Inbound);
                }
                let _ = open.remove(at);
                self.open = open;
                true
            },
            None => false,
        }
    }
}

} // verus!
