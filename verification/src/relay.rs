//! The event relay of the network service.
//!
//! The relay drains the events of the network engine. It turns each of them
//! into the [`Event`] that subscribers are told of, where there is one, and
//! hands that event to every subscriber, in the order of the subscribers and
//! in the order in which the engine gave the events.

use crate::network::{BlockAnnounce, Event, EventView};
use crate::peers::PeerId;
use vstd::prelude::*;

verus! {

/// An event of the network engine.
#[derive(Clone, Debug, PartialEq, Eq)]
pub enum EngineEvent {
    /// A connection to the peer is established.
    Connected { peer_id: PeerId },
    /// The connection to the peer is gone, and with it the peer's part in
    /// the listed chains.
    Disconnected { peer_id: PeerId, chain_indices: Vec<usize> },
    /// The peer announces a block of a chain.
    BlockAnnounce { chain_index: usize, peer_id: PeerId, announce: BlockAnnounce },
    /// The peer has joined a chain.
    ChainConnected { peer_id: PeerId, chain_index: usize, best_number: u64, best_hash: [u8; 32] },
    /// The peer has left a chain.
    ChainDisconnected { peer_id: PeerId, chain_index: usize },
    /// The peer asks the node to identify itself.
    IdentifyRequestIn { peer_id: PeerId },
}

/// What the relay does with an event of the engine.
#[derive(Clone, Debug, PartialEq, Eq)]
pub enum RelayStep {
    /// Nothing is told to the subscribers.
    Nothing,
    /// The event is handed to every subscriber.
    Publish(Event),
    /// The identification request is answered with the node's agent name.
    AnswerIdentify,
}

/// Whether the relay can handle the event. A peer that disconnects from
/// several chains at once is not provided for.
pub open spec fn relayable(event: EngineEvent) -> bool {
    event matches EngineEvent::Disconnected { chain_indices, .. } ==> chain_indices@.len() <= 1
}

/// The event that subscribers are told of for an event of the engine, if
/// any.
pub open spec fn published(event: EngineEvent) -> Option<EventView> {
    match event {
        EngineEvent::Connected { .. } => None,
        EngineEvent::Disconnected { peer_id, chain_indices } => {
            if chain_indices@.len() == 1 {
                Some(EventView::Disconnected { peer_id: peer_id@, chain_index: chain_indices@[0] })
            } else {
                None
            }
        },
        EngineEvent::BlockAnnounce { chain_index, peer_id, announce } => Some(
            EventView::BlockAnnounce { peer_id: peer_id@, chain_index, announce: announce@ },
        ),
        EngineEvent::ChainConnected { peer_id, chain_index, best_number, best_hash } => Some(
            EventView::Connected {
                peer_id: peer_id@,
                chain_index,
                best_block_number: best_number,
                best_block_hash: best_hash@,
            },
        ),
        EngineEvent::ChainDisconnected { peer_id, chain_index } => Some(
            EventView::Disconnected { peer_id: peer_id@, chain_index },
        ),
        EngineEvent::IdentifyRequestIn { .. } => None,
    }
}

/// Tells whether the relay can handle the event.
pub fn is_relayable(event: &EngineEvent) -> (r: bool)
    ensures
        r == relayable(*event),
{
    match event {
        EngineEvent::Disconnected { chain_indices, .. } => chain_indices.len() <= 1,
        _ => true,
    }
}

/// Decides what the relay does with an event of the engine.
pub fn relay_step(event: EngineEvent) -> (step: RelayStep)
    requires
        relayable(event),
    ensures
        match step {
            RelayStep::Publish(e) => published(event) == Some(e@),
            RelayStep::AnswerIdentify => event is IdentifyRequestIn,
            RelayStep::Nothing => published(event).is_none() && !(event is IdentifyRequestIn),
        },
{
    match event {
        EngineEvent::Connected { .. } => RelayStep::Nothing,
        EngineEvent::Disconnected { peer_id, chain_indices } => {
            if chain_indices.len() == 1 {
                RelayStep::Publish(Event::Disconnected { peer_id, chain_index: chain_indices[0] })
            } else {
                RelayStep::Nothing
            }
        },
        EngineEvent::BlockAnnounce { chain_index, peer_id, announce } => RelayStep::Publish(
            Event::BlockAnnounce { peer_id, chain_index, announce },
        ),
        EngineEvent::ChainConnected { peer_id, chain_index, best_number, best_hash } => {
            RelayStep::Publish(
                Event::Connected {
                    peer_id,
                    chain_index,
                    best_block_number: best_number,
                    best_block_hash: best_hash,
                },
            )
        },
        EngineEvent::ChainDisconnected { peer_id, chain_index } => RelayStep::Publish(
            Event::Disconnected { peer_id, chain_index },
        ),
        EngineEvent::IdentifyRequestIn { .. } => RelayStep::AnswerIdentify,
    }
}

/// What each of `subscribers` subscribers is handed of one event: the event
/// itself.
pub open spec fn copies(event: EventView, subscribers: nat) -> Seq<EventView> {
    Seq::new(subscribers, |i: int| event)
}

/// Makes of one event what each subscriber is handed, in the order of the
/// subscribers. With one subscriber the event itself is passed on; with
/// more, each gets a copy.
pub fn fan_out(event: Event, subscribers: usize) -> (out: Vec<Event>)
    ensures
        out@.map_values(|e: Event| e@) == copies(event@, subscribers as nat),
{
    let mut out: Vec<Event> = Vec::new();
    if subscribers == 1 {
        out.push(event);
    } else {
        let mut i: usize = 0;
        while i < subscribers
            invariant
                i <= subscribers,
                out@.len() == i,
                forall|j: int| 0 <= j < i ==> (#[trigger] out@[j])@ == event@,
            decreases subscribers - i,
        {
            out.push(event.duplicate());
            i += 1;
        }
    }
    assert(out@.map_values(|e: Event| e@) =~= copies(event@, subscribers as nat));
    out
}

/// The events that subscribers are told of for a run of events of the
/// engine, in order.
pub open spec fn published_all(events: Seq<EngineEvent>) -> Seq<EventView>
    decreases events.len(),
{
    if events.len() == 0 {
        Seq::empty()
    } else {
        let before = published_all(events.drop_last());
        match published(events.last()) {
            Some(event) => before.push(event),
            None => before,
        }
    }
}

/// What one subscriber out of `subscribers` has been handed after a run of
/// events of the engine: of each published event, the subscriber's share of
/// the fan-out.
pub open spec fn handed_to(events: Seq<EngineEvent>, subscribers: nat, subscriber: int) -> Seq<
    EventView,
>
    decreases events.len(),
{
    if events.len() == 0 {
        Seq::empty()
    } else {
        let before = handed_to(events.drop_last(), subscribers, subscriber);
        match published(events.last()) {
            Some(event) => before.push(copies(event, subscribers)[subscriber]),
            None => before,
        }
    }
}

/// Every subscriber is handed every published event exactly once, and in
/// the order in which the engine gave them.
pub proof fn lemma_fan_out_complete(events: Seq<EngineEvent>, subscribers: nat, subscriber: int)
    requires
        0 <= subscriber < subscribers,
    ensures
        handed_to(events, subscribers, subscriber) == published_all(events),
    decreases events.len(),
{
    if events.len() > 0 {
        lemma_fan_out_complete(events.drop_last(), subscribers, subscriber);
    }
}

} // verus!
