//! The network service: what it is configured with, what it tells its
//! subscribers, and the decisions that its background jobs take.
//!
//! The service runs three kinds of job around the network engine: a relay
//! that turns the engine's events into [`Event`]s and hands them to every
//! subscriber, a dialer per chain, and a driver per connection. The engine
//! and the transport stay outside; the rules that the jobs follow are here.

use crate::bytes::{copy_bytes, rank, Rank};
use crate::peers::PeerId;
use crate::slots::{DEFAULT_IN_SLOTS, DEFAULT_OUT_SLOTS};
use vstd::prelude::*;

verus! {

/// Number of events that a subscriber's queue holds before the relay has to
/// wait for the subscriber.
pub const EVENT_QUEUE_CAPACITY: usize = 16;

/// Seconds between two attempts of a chain's dialer to fill an outbound
/// slot.
pub const DIAL_INTERVAL_SECS: u64 = 1;

/// Size in bytes of the buffer that a connection driver offers the protocol
/// engine to write into.
pub const WRITE_BUFFER_SIZE: usize = 4096;

/// Name by which the node answers an identification request.
pub const AGENT_NAME: &'static str = "smoldot";

/// Address at which a node can be reached, in its binary form.
#[derive(Clone, Debug, PartialEq, Eq)]
pub struct Multiaddr {
    pub bytes: Vec<u8>,
}

impl View for Multiaddr {
    type V = Seq<u8>;

    open spec fn view(&self) -> Seq<u8> {
        self.bytes@
    }
}

/// A node that is known to belong to a chain's network.
#[derive(Clone, Debug, PartialEq, Eq)]
pub struct BootstrapNode {
    pub peer_id: PeerId,
    pub address: Multiaddr,
}

impl View for BootstrapNode {
    type V = (Seq<u8>, Seq<u8>);

    open spec fn view(&self) -> (Seq<u8>, Seq<u8>) {
        (self.peer_id@, self.address@)
    }
}

/// What the service is told of one chain.
#[derive(Debug)]
pub struct ConfigChain {
    /// Nodes known to belong to the chain's network.
    pub bootstrap_nodes: Vec<BootstrapNode>,
    /// Hash of the genesis block, by which nodes tell whether their chains
    /// match.
    pub genesis_block_hash: [u8; 32],
    /// Number and hash of the current best block.
    pub best_block: (u64, [u8; 32]),
    /// Identifier of the chain in networking messages.
    pub protocol_id: String,
    /// Whether the chain advertises the finality sub-protocol.
    pub has_grandpa_protocol: bool,
}

/// Configuration of the network service.
#[derive(Debug)]
pub struct Config {
    /// Number of independent subscriber queues.
    pub num_events_receivers: usize,
    /// The chains to connect to. A chain is later known by its index here.
    pub chains: Vec<ConfigChain>,
}

/// An announcement of a block by a peer. It has been checked and decoded
/// where the event was made: the header is known to be one, and its height
/// stands beside it.
#[derive(Clone, Debug, PartialEq, Eq)]
pub struct BlockAnnounce {
    /// The header of the announced block, in its encoded form.
    pub scale_encoded_header: Vec<u8>,
    /// The height of the announced block, as the header gives it.
    pub number: u64,
    /// Whether the peer holds the block to be its best.
    pub is_best: bool,
}

impl View for BlockAnnounce {
    type V = (Seq<u8>, u64, bool);

    open spec fn view(&self) -> (Seq<u8>, u64, bool) {
        (self.scale_encoded_header@, self.number, self.is_best)
    }
}

/// Event that can happen on the network service.
#[derive(Clone, Debug, PartialEq, Eq)]
pub enum Event {
    Connected { peer_id: PeerId, chain_index: usize, best_block_number: u64, best_block_hash: [u8; 32] },
    Disconnected { peer_id: PeerId, chain_index: usize },
    BlockAnnounce { peer_id: PeerId, chain_index: usize, announce: BlockAnnounce },
}

/// An [`Event`] as plain values.
pub enum EventView {
    Connected { peer_id: Seq<u8>, chain_index: usize, best_block_number: u64, best_block_hash: Seq<u8> },
    Disconnected { peer_id: Seq<u8>, chain_index: usize },
    BlockAnnounce { peer_id: Seq<u8>, chain_index: usize, announce: (Seq<u8>, u64, bool) },
}

impl View for Event {
    type V = EventView;

    open spec fn view(&self) -> EventView {
        match *self {
            Event::Connected { peer_id, chain_index, best_block_number, best_block_hash } => {
                EventView::Connected {
                    peer_id: peer_id@,
                    chain_index,
                    best_block_number,
                    best_block_hash: best_block_hash@,
                }
            },
            Event::Disconnected { peer_id, chain_index } => EventView::Disconnected {
                peer_id: peer_id@,
                chain_index,
            },
            Event::BlockAnnounce { peer_id, chain_index, announce } => EventView::BlockAnnounce {
                peer_id: peer_id@,
                chain_index,
                announce: announce@,
            },
        }
    }
}

impl Event {
    /// The chain that the event is about.
    pub open spec fn spec_chain_index(&self) -> usize {
        match *self {
            Event::Connected { chain_index, .. } => chain_index,
            Event::Disconnected { chain_index, .. } => chain_index,
            Event::BlockAnnounce { chain_index, .. } => chain_index,
        }
    }

    /// The chain that the event is about.
    #[verifier::when_used_as_spec(spec_chain_index)]
    pub fn chain_index(&self) -> (index: usize)
        ensures
            index == self.spec_chain_index(),
    {
        match self {
            Event::Connected { chain_index, .. } => *chain_index,
            Event::Disconnected { chain_index, .. } => *chain_index,
            Event::BlockAnnounce { chain_index, .. } => *chain_index,
        }
    }

    /// A copy of the event.
    pub fn duplicate(&self) -> (copy: Event)
        ensures
            copy@ == self@,
    {
        match self {
            Event::Connected { peer_id, chain_index, best_block_number, best_block_hash } => {
                Event::Connected {
                    peer_id: peer_id.duplicate(),
                    chain_index: *chain_index,
                    best_block_number: *best_block_number,
                    best_block_hash: *best_block_hash,
                }
            },
            Event::Disconnected { peer_id, chain_index } => Event::Disconnected {
                peer_id: peer_id.duplicate(),
                chain_index: *chain_index,
            },
            Event::BlockAnnounce { peer_id, chain_index, announce } => Event::BlockAnnounce {
                peer_id: peer_id.duplicate(),
                chain_index: *chain_index,
                announce: BlockAnnounce {
                    scale_encoded_header: copy_bytes(announce.scale_encoded_header.as_slice()),
                    number: announce.number,
                    is_best: announce.is_best,
                },
            },
        }
    }
}

impl BootstrapNode {
    /// A copy of the node.
    pub fn duplicate(&self) -> (copy: BootstrapNode)
        ensures
            copy@ == self@,
    {
        BootstrapNode {
            peer_id: self.peer_id.duplicate(),
            address: Multiaddr { bytes: copy_bytes(self.address.bytes.as_slice()) },
        }
    }
}

/// The part that the node plays in a chain's network.
#[derive(Clone, Copy, Debug, PartialEq, Eq, Structural)]
pub enum Role {
    Full,
    Light,
    Authority,
}

/// Where the finality sub-protocol stands, as advertised to peers.
#[derive(Clone, Copy, Debug, PartialEq, Eq, Structural)]
pub struct GrandpaState {
    pub round_number: u64,
    pub set_id: u64,
    pub commit_finalized_height: u64,
}

/// What the network engine is told of one chain.
#[derive(Clone, Debug, PartialEq, Eq)]
pub struct ChainSetup {
    /// The chain's bootstrap nodes, as indices into the list of known nodes.
    pub bootstrap_nodes: Vec<usize>,
    pub in_slots: u32,
    pub out_slots: u32,
    pub grandpa_protocol_config: Option<GrandpaState>,
    pub protocol_id: String,
    pub best_hash: [u8; 32],
    pub best_number: u64,
    pub genesis_hash: [u8; 32],
    pub role: Role,
}

/// What the network engine is started with.
#[derive(Clone, Debug, PartialEq, Eq)]
pub struct NetworkSetup {
    pub chains: Vec<ChainSetup>,
    /// The bootstrap nodes of all chains, chain after chain.
    pub known_nodes: Vec<BootstrapNode>,
}

/// The finality state advertised for a chain that has the sub-protocol.
pub open spec fn initial_grandpa_state() -> GrandpaState {
    GrandpaState { round_number: 1, set_id: 0, commit_finalized_height: 0 }
}

/// The bootstrap nodes of `chains`, chain after chain, as plain values.
pub open spec fn known_nodes_of(chains: Seq<ConfigChain>) -> Seq<(Seq<u8>, Seq<u8>)>
    decreases chains.len(),
{
    if chains.len() == 0 {
        Seq::empty()
    } else {
        known_nodes_of(chains.drop_last()) + chains.last().bootstrap_nodes@.map_values(
            |n: BootstrapNode| n@,
        )
    }
}

/// What the engine is told of the chain `chain`, whose bootstrap nodes
/// stand in the list of known nodes from the place `first` on.
pub open spec fn is_setup_of(setup: ChainSetup, chain: ConfigChain, first: int) -> bool {
    &&& setup.bootstrap_nodes@ == Seq::new(
        chain.bootstrap_nodes@.len(),
        |k: int| (first + k) as usize,
    )
    &&& setup.in_slots == DEFAULT_IN_SLOTS
    &&& setup.out_slots == DEFAULT_OUT_SLOTS
    &&& setup.grandpa_protocol_config == (if chain.has_grandpa_protocol {
        Some(initial_grandpa_state())
    } else {
        None
    })
    &&& setup.protocol_id@ == chain.protocol_id@
    &&& setup.best_hash == chain.best_block.1
    &&& setup.best_number == chain.best_block.0
    &&& setup.genesis_hash == chain.genesis_block_hash
    &&& setup.role == Role::Light
}

/// What the engine is started with for the configuration `config`.
pub open spec fn is_network_setup_of(setup: NetworkSetup, config: Config) -> bool {
    &&& setup.chains@.len() == config.chains@.len()
    &&& setup.known_nodes@.map_values(|n: BootstrapNode| n@) == known_nodes_of(config.chains@)
    &&& forall|i: int|
        0 <= i < config.chains@.len() ==> is_setup_of(
            #[trigger] setup.chains@[i],
            config.chains@[i],
            known_nodes_of(config.chains@.take(i)).len() as int,
        )
}

/// The bookkeeping of the network service.
pub struct NetworkService {
    /// Identities of the bootstrap nodes. A problem with one of them is
    /// logged more loudly than a problem with another peer.
    important_nodes: Vec<PeerId>,
    num_chains: usize,
    num_events_receivers: usize,
}

/// What a network service holds, as plain values.
pub struct NetworkServiceView {
    pub important_nodes: Set<Seq<u8>>,
    pub num_chains: usize,
    pub num_events_receivers: usize,
}

impl View for NetworkService {
    type V = NetworkServiceView;

    closed spec fn view(&self) -> NetworkServiceView {
        NetworkServiceView {
            important_nodes: self.important_nodes@.map_values(|p: PeerId| p@).to_set(),
            num_chains: self.num_chains,
            num_events_receivers: self.num_events_receivers,
        }
    }
}

impl NetworkService {
    /// Initializes the network service with the given configuration.
    ///
    /// Returns the service and what the network engine is to be started
    /// with.
    pub fn new(config: &Config) -> (r: (NetworkService, NetworkSetup))
        ensures
            is_network_setup_of(r.1, *config),
            r.0@.num_chains == config.chains@.len(),
            r.0@.num_events_receivers == config.num_events_receivers,
            r.0@.important_nodes == known_nodes_of(config.chains@).map_values(
                |n: (Seq<u8>, Seq<u8>)| n.0,
            ).to_set(),
    {
        let mut chains: Vec<ChainSetup> = Vec::new();
        let mut known_nodes: Vec<BootstrapNode> = Vec::new();
        let mut important_nodes: Vec<PeerId> = Vec::new();
        let mut i: usize = 0;
        while i < config.chains.len()
            invariant
                i <= config.chains@.len(),
                chains@.len() == i,
                known_nodes@.map_values(|n: BootstrapNode| n@) == known_nodes_of(
                    config.chains@.take(i as int),
                ),
                important_nodes@.map_values(|p: PeerId| p@) == known_nodes_of(
                    config.chains@.take(i as int),
                ).map_values(|n: (Seq<u8>, Seq<u8>)| n.0),
                forall|j: int|
                    0 <= j < i ==> is_setup_of(
                        #[trigger] chains@[j],
                        config.chains@[j],
                        known_nodes_of(config.chains@.take(j)).len() as int,
                    ),
            decreases config.chains@.len() - i,
        {
            let chain = &config.chains[i];
            let ghost before = known_nodes_of(config.chains@.take(i as int));
            let ghost nodes = chain.bootstrap_nodes@.map_values(|n: BootstrapNode| n@);
            let mut indices: Vec<usize> = Vec::new();
            let mut k: usize = 0;
            while k < chain.bootstrap_nodes.len()
                invariant
                    k <= chain.bootstrap_nodes@.len(),
                    nodes == chain.bootstrap_nodes@.map_values(|n: BootstrapNode| n@),
                    indices@ == Seq::new(k as nat, |m: int| (before.len() + m) as usize),
                    known_nodes@.map_values(|n: BootstrapNode| n@) == before + nodes.take(k as int),
                    important_nodes@.map_values(|p: PeerId| p@) == (before + nodes.take(
                        k as int,
                    )).map_values(|n: (Seq<u8>, Seq<u8>)| n.0),
                decreases chain.bootstrap_nodes@.len() - k,
            {
                let node = &chain.bootstrap_nodes[k];
                let ghost known_before = known_nodes@.map_values(|n: BootstrapNode| n@);
                let ghost important_before = important_nodes@.map_values(|p: PeerId| p@);
                indices.push(known_nodes.len());
                known_nodes.push(node.duplicate());
                important_nodes.push(node.peer_id.duplicate());
                proof {
                    assert(nodes[k as int] == node@);
                    assert(known_nodes@.map_values(|n: BootstrapNode| n@) =~= known_before.push(
                        node@,
                    ));
                    assert(important_nodes@.map_values(|p: PeerId| p@) =~= important_before.push(
                        node.peer_id@,
                    ));
                    assert(nodes.take(k as int + 1) =~= nodes.take(k as int).push(nodes[k as int]));
                    assert(indices@ =~= Seq::new(
                        (k + 1) as nat,
                        |m: int| (before.len() + m) as usize,
                    ));
                    assert(known_nodes@.map_values(|n: BootstrapNode| n@) =~= before + nodes.take(
                        k as int + 1,
                    ));
                    assert(important_nodes@.map_values(|p: PeerId| p@) =~= (before + nodes.take(
                        k as int + 1,
                    )).map_values(|n: (Seq<u8>, Seq<u8>)| n.0));
                }
                k += 1;
            }
            proof {
                assert(nodes.take(k as int) =~= nodes);
                assert(config.chains@.take(i as int + 1).drop_last() =~= config.chains@.take(
                    i as int,
                ));
                assert(config.chains@.take(i as int + 1).last() == config.chains@[i as int]);
            }
            chains.push(
                ChainSetup {
                    bootstrap_nodes: indices,
                    in_slots: DEFAULT_IN_SLOTS,
                    out_slots: DEFAULT_OUT_SLOTS,
                    grandpa_protocol_config: if chain.has_grandpa_protocol {
                        Some(GrandpaState { round_number: 1, set_id: 0, commit_finalized_height: 0 })
                    } else {
                        None
                    },
                    protocol_id: chain.protocol_id.clone(),
                    best_hash: chain.best_block.1,
                    best_number: chain.best_block.0,
                    genesis_hash: chain.genesis_block_hash,
                    role: Role::Light,
                },
            );
            i += 1;
        }
        proof {
            assert(config.chains@.take(i as int) =~= config.chains@);
        }
        (
            NetworkService {
                important_nodes,
                num_chains: config.chains.len(),
                num_events_receivers: config.num_events_receivers,
            },
            NetworkSetup { chains, known_nodes },
        )
    }

    /// Number of chains that the service follows.
    pub fn num_chains(&self) -> (n: usize)
        ensures
            n == self@.num_chains,
    {
        self.num_chains
    }

    /// Number of subscribers that every event is handed to.
    pub fn num_events_receivers(&self) -> (n: usize)
        ensures
            n == self@.num_events_receivers,
    {
        self.num_events_receivers
    }

    /// Whether the peer is a bootstrap node of one of the chains.
    pub fn is_important_peer(&self, peer: &PeerId) -> (r: bool)
        ensures
            r == self@.important_nodes.contains(peer@),
    {
        let ghost ids = self.important_nodes@.map_values(|p: PeerId| p@);
        let mut i: usize = 0;
        while i < self.important_nodes.len()
            invariant
                i <= self.important_nodes@.len(),
                ids == self.important_nodes@.map_values(|p: PeerId| p@),
                forall|j: int| 0 <= j < i ==> ids[j] != peer@,
            decreases self.important_nodes@.len() - i,
        {
            if rank(self.important_nodes[i].bytes.as_slice(), peer.bytes.as_slice()) == Rank::Same {
                proof {
                    assert(ids[i as int] == peer@);
                    assert(ids.contains(peer@));
                }
                return true;
            }
            i += 1;
        }
        false
    }
}

} // verus!
