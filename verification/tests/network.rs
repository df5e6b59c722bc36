use light_client::network::{
    BlockAnnounce, BootstrapNode, ChainSetup, Config, ConfigChain, Event, GrandpaState, Multiaddr,
    NetworkService, Role, AGENT_NAME, DIAL_INTERVAL_SECS, EVENT_QUEUE_CAPACITY,
};
use light_client::peers::PeerId;
use light_client::relay::{fan_out, is_relayable, relay_step, EngineEvent, RelayStep};

fn peer(n: u8) -> PeerId {
    PeerId { bytes: vec![0x12, 0x20, n] }
}

fn node(n: u8) -> BootstrapNode {
    BootstrapNode { peer_id: peer(n), address: Multiaddr { bytes: vec![4, 127, 0, 0, n] } }
}

fn chain(nodes: Vec<BootstrapNode>, grandpa: bool, tag: u8) -> ConfigChain {
    ConfigChain {
        bootstrap_nodes: nodes,
        genesis_block_hash: [tag; 32],
        best_block: (tag as u64 * 100, [tag + 1; 32]),
        protocol_id: format!("chain{}", tag),
        has_grandpa_protocol: grandpa,
    }
}

#[test]
fn observed_constants() {
    assert_eq!(EVENT_QUEUE_CAPACITY, 16);
    assert_eq!(DIAL_INTERVAL_SECS, 1);
    assert_eq!(AGENT_NAME, "smoldot");
}

#[test]
fn setup_of_a_single_chain() {
    let config = Config { num_events_receivers: 1, chains: vec![chain(vec![node(1), node(2)], true, 7)] };
    let (service, setup) = NetworkService::new(&config);
    assert_eq!(service.num_chains(), 1);
    assert_eq!(service.num_events_receivers(), 1);
    assert_eq!(setup.known_nodes, vec![node(1), node(2)]);
    assert_eq!(
        setup.chains,
        vec![ChainSetup {
            bootstrap_nodes: vec![0, 1],
            in_slots: 25,
            out_slots: 25,
            grandpa_protocol_config: Some(GrandpaState {
                round_number: 1,
                set_id: 0,
                commit_finalized_height: 0,
            }),
            protocol_id: "chain7".to_string(),
            best_hash: [8; 32],
            best_number: 700,
            genesis_hash: [7; 32],
            role: Role::Light,
        }]
    );
}

#[test]
fn bootstrap_nodes_of_later_chains_follow_those_of_earlier_ones() {
    let config = Config {
        num_events_receivers: 3,
        chains: vec![
            chain(vec![node(1), node(2)], false, 1),
            chain(vec![], true, 2),
            chain(vec![node(3), node(1), node(4)], false, 3),
        ],
    };
    let (service, setup) = NetworkService::new(&config);
    assert_eq!(service.num_chains(), 3);
    assert_eq!(service.num_events_receivers(), 3);
    assert_eq!(setup.known_nodes, vec![node(1), node(2), node(3), node(1), node(4)]);
    assert_eq!(setup.chains[0].bootstrap_nodes, vec![0, 1]);
    assert_eq!(setup.chains[1].bootstrap_nodes, Vec::<usize>::new());
    assert_eq!(setup.chains[2].bootstrap_nodes, vec![2, 3, 4]);
    assert_eq!(setup.chains[0].grandpa_protocol_config, None);
    assert!(setup.chains[1].grandpa_protocol_config.is_some());
    assert_eq!(setup.chains[2].protocol_id, "chain3");
}

#[test]
fn setup_without_chains() {
    let config = Config { num_events_receivers: 0, chains: vec![] };
    let (service, setup) = NetworkService::new(&config);
    assert_eq!(service.num_chains(), 0);
    assert!(setup.chains.is_empty());
    assert!(setup.known_nodes.is_empty());
    assert!(!service.is_important_peer(&peer(1)));
}

#[test]
fn bootstrap_nodes_are_important_peers() {
    let config = Config {
        num_events_receivers: 1,
        chains: vec![chain(vec![node(1)], false, 1), chain(vec![node(9)], false, 2)],
    };
    let (service, _) = NetworkService::new(&config);
    assert!(service.is_important_peer(&peer(1)));
    assert!(service.is_important_peer(&peer(9)));
    assert!(!service.is_important_peer(&peer(2)));
    assert!(!service.is_important_peer(&PeerId { bytes: vec![0x12, 0x20] }));
}

#[test]
fn event_knows_its_chain() {
    let connected =
        Event::Connected { peer_id: peer(1), chain_index: 3, best_block_number: 5, best_block_hash: [0; 32] };
    let disconnected = Event::Disconnected { peer_id: peer(1), chain_index: 4 };
    let announce = Event::BlockAnnounce {
        peer_id: peer(1),
        chain_index: 5,
        announce: BlockAnnounce { scale_encoded_header: vec![1, 2, 3], number: 8, is_best: true },
    };
    assert_eq!(connected.chain_index(), 3);
    assert_eq!(disconnected.chain_index(), 4);
    assert_eq!(announce.chain_index(), 5);
}

#[test]
fn duplicate_of_an_event_equals_the_event() {
    let events = vec![
        Event::Connected { peer_id: peer(1), chain_index: 3, best_block_number: 5, best_block_hash: [9; 32] },
        Event::Disconnected { peer_id: peer(2), chain_index: 4 },
        Event::BlockAnnounce {
            peer_id: peer(3),
            chain_index: 5,
            announce: BlockAnnounce { scale_encoded_header: vec![1, 2, 3], number: 8, is_best: false },
        },
    ];
    for event in events {
        assert_eq!(event.duplicate(), event);
    }
}

#[test]
fn relay_publishes_chain_events() {
    assert_eq!(
        relay_step(EngineEvent::ChainConnected {
            peer_id: peer(1),
            chain_index: 2,
            best_number: 77,
            best_hash: [5; 32]
        }),
        RelayStep::Publish(Event::Connected {
            peer_id: peer(1),
            chain_index: 2,
            best_block_number: 77,
            best_block_hash: [5; 32]
        })
    );
    assert_eq!(
        relay_step(EngineEvent::ChainDisconnected { peer_id: peer(1), chain_index: 2 }),
        RelayStep::Publish(Event::Disconnected { peer_id: peer(1), chain_index: 2 })
    );
    let announce = BlockAnnounce { scale_encoded_header: vec![7; 40], number: 77, is_best: true };
    assert_eq!(
        relay_step(EngineEvent::BlockAnnounce { chain_index: 1, peer_id: peer(4), announce: announce.clone() }),
        RelayStep::Publish(Event::BlockAnnounce { peer_id: peer(4), chain_index: 1, announce })
    );
}

#[test]
fn relay_keeps_connection_events_to_itself() {
    assert_eq!(relay_step(EngineEvent::Connected { peer_id: peer(1) }), RelayStep::Nothing);
    assert_eq!(
        relay_step(EngineEvent::Disconnected { peer_id: peer(1), chain_indices: vec![] }),
        RelayStep::Nothing
    );
}

#[test]
fn relay_publishes_a_disconnection_that_ends_one_chain() {
    assert_eq!(
        relay_step(EngineEvent::Disconnected { peer_id: peer(1), chain_indices: vec![6] }),
        RelayStep::Publish(Event::Disconnected { peer_id: peer(1), chain_index: 6 })
    );
}

#[test]
fn relay_answers_identify_requests() {
    assert_eq!(relay_step(EngineEvent::IdentifyRequestIn { peer_id: peer(1) }), RelayStep::AnswerIdentify);
}

#[test]
fn disconnection_from_several_chains_is_not_relayable() {
    assert!(!is_relayable(&EngineEvent::Disconnected { peer_id: peer(1), chain_indices: vec![0, 1] }));
    assert!(is_relayable(&EngineEvent::Disconnected { peer_id: peer(1), chain_indices: vec![0] }));
    assert!(is_relayable(&EngineEvent::Disconnected { peer_id: peer(1), chain_indices: vec![] }));
    assert!(is_relayable(&EngineEvent::Connected { peer_id: peer(1) }));
}

#[test]
fn fan_out_hands_the_event_to_every_subscriber() {
    let event = Event::Disconnected { peer_id: peer(1), chain_index: 0 };
    assert_eq!(fan_out(event.clone(), 0), Vec::<Event>::new());
    assert_eq!(fan_out(event.clone(), 1), vec![event.clone()]);
    assert_eq!(fan_out(event.clone(), 4), vec![event.clone(), event.clone(), event.clone(), event.clone()]);
}

#[test]
fn every_subscriber_sees_every_event_once_and_in_order() {
    let engine_events = vec![
        EngineEvent::Connected { peer_id: peer(1) },
        EngineEvent::ChainConnected { peer_id: peer(1), chain_index: 0, best_number: 1, best_hash: [0; 32] },
        EngineEvent::IdentifyRequestIn { peer_id: peer(1) },
        EngineEvent::BlockAnnounce {
            chain_index: 0,
            peer_id: peer(1),
            announce: BlockAnnounce { scale_encoded_header: vec![1], number: 2, is_best: true },
        },
        EngineEvent::Disconnected { peer_id: peer(1), chain_indices: vec![0] },
    ];
    let subscribers = 3;
    let mut queues: Vec<Vec<Event>> = vec![Vec::new(); subscribers];
    let mut published: Vec<Event> = Vec::new();
    for engine_event in engine_events {
        if let RelayStep::Publish(event) = relay_step(engine_event) {
            published.push(event.clone());
            for (queue, copy) in queues.iter_mut().zip(fan_out(event, subscribers)) {
                queue.push(copy);
            }
        }
    }
    assert_eq!(published.len(), 3);
    for queue in queues {
        assert_eq!(queue, published);
    }
}
