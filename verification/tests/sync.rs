use light_client::codec::HeapPagesError;
use light_client::network::{BlockAnnounce, Event};
use light_client::peers::{PeerId, SourceId};
use light_client::requests::RequestId;
use light_client::storage::{FinalizedStorage, StorageChange};
use light_client::sync::{
    is_response_complete, is_runtime_sound, needs_runtime_refresh, runtime_source_from,
    runtime_source_in, translate_blocks, BlockData, BlocksRequestConfig,
    BlocksRequestConfigStart, BlocksRequestDirection, BlocksRequestFields, Config, FinalizedBlock,
    FinishStep, NetworkStep, ProcessOutcome, ProcessStep, RequestAction, RequestFail,
    RequestOutcome, RequestStep, RequestSuccessBlock, RuntimeBuild, RuntimeSource,
    RuntimeSourceError,
    SyncService, BLOCKS_CAPACITY, BLOCKS_REQUEST_GRANULARITY, DATABASE_QUEUE_CAPACITY,
    DOWNLOAD_AHEAD_BLOCKS, SOURCES_CAPACITY,
};

const CHAIN: usize = 0;

fn peer(n: u8) -> PeerId {
    PeerId { bytes: vec![0x12, 0x20, n] }
}

fn storage_with(pairs: &[(&[u8], &[u8])]) -> FinalizedStorage {
    let mut storage = FinalizedStorage::new();
    for (key, value) in pairs {
        storage.insert(key.to_vec(), value.to_vec());
    }
    storage
}

/// A service on the given entries and a runtime: `:code` holds `wasm` unless
/// the entries say otherwise.
fn service_with(pairs: &[(&[u8], &[u8])], height: u64) -> SyncService {
    let mut storage = storage_with(&[(b":code", b"wasm")]);
    for (key, value) in pairs {
        storage.insert(key.to_vec(), value.to_vec());
    }
    let build = RuntimeBuild { source: runtime_source_in(&storage).unwrap(), accepted: true };
    assert!(is_runtime_sound(&storage, &build));
    SyncService::new(Config {
        finalized_block_number: height,
        finalized_storage: storage,
        network_chain_index: CHAIN,
        finalized_runtime: build,
    })
}

/// Has the virtual machine build the runtime that the storage holds.
fn build_runtime(storage: &FinalizedStorage) -> RuntimeBuild {
    let source = runtime_source_in(storage).unwrap();
    let built = smoldot::executor::host::HostVmPrototype::new(smoldot::executor::host::Config {
        module: &source.code,
        heap_pages: smoldot::executor::vm::HeapPages::new(source.heap_pages),
        exec_hint: smoldot::executor::vm::ExecHint::ValidateAndCompile,
        allow_unresolved_imports: false,
    });
    RuntimeBuild { source, accepted: built.is_ok() }
}

fn put(key: &[u8], value: &[u8]) -> StorageChange {
    StorageChange { key: key.to_vec(), value: Some(value.to_vec()) }
}

fn delete(key: &[u8]) -> StorageChange {
    StorageChange { key: key.to_vec(), value: None }
}

fn block(number: u64, changes: Vec<StorageChange>) -> FinalizedBlock {
    FinalizedBlock {
        number,
        scale_encoded_header: vec![number as u8; 3],
        justification: None,
        body: vec![vec![1, 2], vec![3]],
        storage_top_trie_changes: changes,
    }
}

fn announce(number: u64) -> BlockAnnounce {
    BlockAnnounce { scale_encoded_header: vec![number as u8; 5], number, is_best: true }
}

fn connect(service: &mut SyncService, who: PeerId, source: SourceId) {
    let step = service.network_event(Event::Connected {
        peer_id: who.clone(),
        chain_index: CHAIN,
        best_block_number: 10,
        best_block_hash: [0; 32],
    });
    assert_eq!(step, NetworkStep::AddSource { peer_id: who.clone(), best_block_number: 10 });
    service.source_added(who, source);
}

fn start(service: &mut SyncService, request: u64, source: u64, who: PeerId) -> RequestStep {
    service.request_action(RequestAction::Start {
        request_id: RequestId(request),
        source: SourceId(source),
        peer_id: who,
        block_height: 100,
        num_blocks: 128,
    })
}

#[test]
fn engine_parameters() {
    assert_eq!(SOURCES_CAPACITY, 32);
    assert_eq!(BLOCKS_CAPACITY, 1024);
    assert_eq!(BLOCKS_REQUEST_GRANULARITY, 128);
    assert_eq!(DOWNLOAD_AHEAD_BLOCKS, 1024);
    assert_eq!(DATABASE_QUEUE_CAPACITY, 4);
}

#[test]
fn a_new_service_holds_what_it_was_configured_with() {
    let service = service_with(&[(b"a", b"1")], 42);
    assert_eq!(service.finalized_height(), 42);
    assert_eq!(service.chain_index(), CHAIN);
    assert_eq!(service.storage().get(b"a"), Some(&b"1".to_vec()));
    assert_eq!(service.storage().get(b":code"), Some(&b"wasm".to_vec()));
    assert_eq!(service.storage().len(), 2);
    assert_eq!(service.requests_in_flight(), 0);
    assert_eq!(service.source_of(&peer(1)), None);
}

#[test]
fn idle_ends_processing() {
    let mut service = service_with(&[], 0);
    let step = service.process(ProcessOutcome::Idle);
    assert_eq!(step, ProcessStep::Idle);
    assert!(!step.continues());
    assert!(!step.yields());
}

#[test]
fn reset_leaves_the_snapshot_untouched() {
    let mut service = service_with(&[(b"a", b"1")], 5);
    let step = service.process(ProcessOutcome::Reset { previous_best_height: 9 });
    assert_eq!(step, ProcessStep::Reset { previous_best_height: 9 });
    assert!(step.continues());
    assert!(step.yields());
    assert_eq!(service.finalized_height(), 5);
    assert_eq!(service.storage().get(b"a"), Some(&b"1".to_vec()));
}

#[test]
fn new_best_is_reported_without_storage_change() {
    let mut service = service_with(&[(b"a", b"1")], 5);
    let step = service.process(ProcessOutcome::NewBest { new_best_number: 77 });
    assert_eq!(step, ProcessStep::NewBest { height: 77 });
    assert!(step.yields());
    assert_eq!(service.finalized_height(), 5);
    assert_eq!(service.storage().len(), 2);
}

#[test]
fn finalized_blocks_are_applied_in_block_order() {
    let mut service = service_with(&[(b"a", b"0")], 5);
    let blocks = vec![
        block(6, vec![put(b"a", b"1"), put(b"b", b"x")]),
        block(7, vec![put(b"a", b"2"), delete(b"b")]),
        block(8, vec![put(b"c", b"3")]),
    ];
    let step = service.process(ProcessOutcome::Finalized { finalized_blocks: blocks.clone() });
    assert_eq!(step, ProcessStep::Finalized { height: 8, finalized_blocks: blocks });
    assert!(step.yields());
    assert!(step.continues());
    assert_eq!(service.finalized_height(), 8);
    assert_eq!(service.storage().get(b"a"), Some(&b"2".to_vec()));
    assert_eq!(service.storage().get(b"b"), None);
    assert_eq!(service.storage().get(b"c"), Some(&b"3".to_vec()));
    assert_eq!(service.storage().len(), 3);
}

#[test]
fn reported_finalized_height_never_goes_down() {
    let mut service = service_with(&[], 0);
    let mut reported = vec![service.finalized_height()];
    let mut next = 1;
    for size in [1u64, 3, 2, 1, 5] {
        let blocks: Vec<FinalizedBlock> = (next..next + size).map(|n| block(n, vec![])).collect();
        next += size;
        match service.process(ProcessOutcome::Finalized { finalized_blocks: blocks }) {
            ProcessStep::Finalized { height, .. } => reported.push(height),
            other => panic!("unexpected step {:?}", other),
        }
    }
    assert_eq!(reported, vec![0, 1, 4, 6, 7, 12]);
    assert!(reported.windows(2).all(|pair| pair[0] <= pair[1]));
}

#[test]
fn a_batch_that_ends_below_the_finalized_height_does_not_lower_it() {
    let mut service = service_with(&[], 10);
    let blocks = vec![block(3, vec![put(b"k", b"old")]), block(4, vec![put(b"k", b"new")])];
    let step = service.process(ProcessOutcome::Finalized { finalized_blocks: blocks.clone() });
    assert_eq!(step, ProcessStep::Finalized { height: 10, finalized_blocks: blocks });
    assert_eq!(service.finalized_height(), 10);
    // Its diffs are applied all the same, in the order of the blocks.
    assert_eq!(service.storage().get(b"k"), Some(&b"new".to_vec()));
}

#[test]
fn a_batch_with_a_gap_is_applied_and_raises_the_height() {
    let mut service = service_with(&[], 5);
    let blocks = vec![block(7, vec![put(b"a", b"1")]), block(9, vec![delete(b"a"), put(b"b", b"2")])];
    let step = service.process(ProcessOutcome::Finalized { finalized_blocks: blocks.clone() });
    assert_eq!(step, ProcessStep::Finalized { height: 9, finalized_blocks: blocks });
    assert_eq!(service.finalized_height(), 9);
    assert_eq!(service.storage().get(b"a"), None);
    assert_eq!(service.storage().get(b"b"), Some(&b"2".to_vec()));
}

#[test]
fn an_empty_batch_changes_nothing() {
    let mut service = service_with(&[(b"a", b"1")], 5);
    let step = service.process(ProcessOutcome::Finalized { finalized_blocks: vec![] });
    assert_eq!(step, ProcessStep::Finalized { height: 5, finalized_blocks: vec![] });
    assert_eq!(service.finalized_height(), 5);
    assert_eq!(service.storage().len(), 2);
}

#[test]
fn reported_heights_do_not_go_down_whatever_the_engine_reports() {
    let mut service = service_with(&[], 4);
    let mut reported = Vec::new();
    for last in [6u64, 2, 6, 9, 0, 8, 9, 20] {
        match service.process(ProcessOutcome::Finalized { finalized_blocks: vec![block(last, vec![])] }) {
            ProcessStep::Finalized { height, .. } => reported.push(height),
            other => panic!("unexpected step {:?}", other),
        }
    }
    assert_eq!(reported, vec![6, 6, 6, 9, 9, 9, 9, 20]);
}

#[test]
fn runtime_is_refreshed_when_code_changes_and_at_height_one() {
    assert!(needs_runtime_refresh(&block(1, vec![])));
    assert!(needs_runtime_refresh(&block(9, vec![put(b"a", b"1"), put(b":code", b"wasm")])));
    assert!(needs_runtime_refresh(&block(9, vec![delete(b":code")])));
    assert!(!needs_runtime_refresh(&block(9, vec![put(b":cod", b"1"), put(b":codes", b"2")])));
    assert!(!needs_runtime_refresh(&block(2, vec![])));
}

#[test]
fn storage_get_is_answered_from_the_snapshot() {
    let mut service = service_with(&[(b"a", b"1")], 0);
    assert_eq!(
        service.process(ProcessOutcome::FinalizedStorageGet { key: b"a".to_vec() }),
        ProcessStep::InjectValue { value: Some(b"1".to_vec()) }
    );
    let step = service.process(ProcessOutcome::FinalizedStorageGet { key: b"b".to_vec() });
    assert_eq!(step, ProcessStep::InjectValue { value: None });
    assert!(step.continues());
    assert!(!step.yields());
}

#[test]
fn storage_next_key_is_answered_from_the_snapshot() {
    let mut service = service_with(&[(b"a", b""), (b"c", b""), (b"e", b"")], 0);
    assert_eq!(
        service.process(ProcessOutcome::FinalizedStorageNextKey { key: b"c".to_vec() }),
        ProcessStep::InjectKey { key: Some(b"e".to_vec()) }
    );
    assert_eq!(
        service.process(ProcessOutcome::FinalizedStorageNextKey { key: b"e".to_vec() }),
        ProcessStep::InjectKey { key: None }
    );
}

#[test]
fn storage_prefix_keys_are_answered_from_the_snapshot() {
    let mut service = service_with(&[(b"ab", &[1]), (b"abc", &[2]), (b"ac", &[3]), (b"b", &[4])], 0);
    assert_eq!(
        service.process(ProcessOutcome::FinalizedStoragePrefixKeys { prefix: b"ab".to_vec() }),
        ProcessStep::InjectKeys { keys: vec![b"ab".to_vec(), b"abc".to_vec()] }
    );
}

#[test]
fn queries_see_the_blocks_finalized_before_them() {
    let mut service = service_with(&[], 0);
    service.process(ProcessOutcome::Finalized { finalized_blocks: vec![block(1, vec![put(b"k", b"v")])] });
    assert_eq!(
        service.process(ProcessOutcome::FinalizedStorageGet { key: b"k".to_vec() }),
        ProcessStep::InjectValue { value: Some(b"v".to_vec()) }
    );
}

#[test]
fn runtime_source_with_default_heap_pages() {
    let service = service_with(&[], 0);
    assert_eq!(
        service.runtime_source(),
        Ok(RuntimeSource { code: b"wasm".to_vec(), heap_pages: 2048 })
    );
}

#[test]
fn runtime_source_reads_heap_pages_as_little_endian() {
    let service = service_with(&[(b":heappages", &[0x10, 0x02, 0, 0, 0, 0, 0, 0])], 0);
    assert_eq!(
        service.runtime_source(),
        Ok(RuntimeSource { code: b"wasm".to_vec(), heap_pages: 0x0210 })
    );
    let storage = storage_with(&[(b":code", b"w"), (b":heappages", &[0xff, 0xff, 0xff, 0xff, 0, 0, 0, 0])]);
    assert_eq!(
        runtime_source_in(&storage),
        Ok(RuntimeSource { code: b"w".to_vec(), heap_pages: u32::MAX })
    );
}

#[test]
fn runtime_source_follows_the_snapshot() {
    let mut service = service_with(&[], 0);
    service.process(ProcessOutcome::Finalized {
        finalized_blocks: vec![block(1, vec![put(b":code", b"next"), put(b":heappages", &[7, 0, 0, 0, 0, 0, 0, 0])])],
    });
    assert_eq!(
        service.runtime_source(),
        Ok(RuntimeSource { code: b"next".to_vec(), heap_pages: 7 })
    );
}

#[test]
fn a_storage_without_code_holds_no_runtime() {
    assert_eq!(runtime_source_in(&FinalizedStorage::new()), Err(RuntimeSourceError::MissingCode));
    let storage = storage_with(&[(b":heappages", &[1, 0, 0, 0, 0, 0, 0, 0])]);
    assert_eq!(runtime_source_in(&storage), Err(RuntimeSourceError::MissingCode));
}

#[test]
fn a_storage_with_heap_pages_of_wrong_length_holds_no_runtime() {
    let storage = storage_with(&[(b":code", b"wasm"), (b":heappages", &[1, 0, 0, 0])]);
    assert_eq!(
        runtime_source_in(&storage),
        Err(RuntimeSourceError::InvalidHeapPages(HeapPagesError::WrongLen))
    );
}

#[test]
fn a_storage_with_heap_pages_too_large_holds_no_runtime() {
    let storage = storage_with(&[(b":code", b"wasm"), (b":heappages", &[0, 0, 0, 0, 1, 0, 0, 0])]);
    assert_eq!(
        runtime_source_in(&storage),
        Err(RuntimeSourceError::InvalidHeapPages(HeapPagesError::TooLarge))
    );
}

#[test]
fn a_runtime_is_sound_where_its_build_was_accepted() {
    let storage = storage_with(&[(b":code", b"wasm"), (b":heappages", &[9, 0, 0, 0, 0, 0, 0, 0])]);
    let source = RuntimeSource { code: b"wasm".to_vec(), heap_pages: 9 };
    assert!(is_runtime_sound(&storage, &RuntimeBuild { source: source.clone(), accepted: true }));
    assert!(!is_runtime_sound(&storage, &RuntimeBuild { source, accepted: false }));
}

#[test]
fn a_build_of_another_runtime_does_not_make_this_one_sound() {
    let storage = storage_with(&[(b":code", b"wasm")]);
    let other_code = RuntimeSource { code: b"wasn".to_vec(), heap_pages: 2048 };
    let other_pages = RuntimeSource { code: b"wasm".to_vec(), heap_pages: 2047 };
    let same = RuntimeSource { code: b"wasm".to_vec(), heap_pages: 2048 };
    assert!(!is_runtime_sound(&storage, &RuntimeBuild { source: other_code, accepted: true }));
    assert!(!is_runtime_sound(&storage, &RuntimeBuild { source: other_pages, accepted: true }));
    assert!(is_runtime_sound(&storage, &RuntimeBuild { source: same, accepted: true }));
}

#[test]
fn no_runtime_is_sound_in_a_storage_that_holds_none() {
    let build = RuntimeBuild { source: RuntimeSource { code: vec![], heap_pages: 2048 }, accepted: true };
    assert!(!is_runtime_sound(&FinalizedStorage::new(), &build));
    let bad_pages = storage_with(&[(b":code", b""), (b":heappages", &[1, 2, 3])]);
    assert!(!is_runtime_sound(&bad_pages, &build));
    let empty_code = storage_with(&[(b":code", b"")]);
    assert!(is_runtime_sound(&empty_code, &build));
}

#[test]
fn code_that_the_virtual_machine_rejects_is_no_sound_runtime() {
    for code in [&b"wasm"[..], &[0u8][..], &b""[..], &b"\0asm\x01\0\0\0"[..]] {
        let storage = storage_with(&[(b":code", code)]);
        let build = build_runtime(&storage);
        assert!(!build.accepted);
        assert!(!is_runtime_sound(&storage, &build));
    }
}

#[test]
fn runtime_source_is_put_together_from_code_and_pages() {
    assert_eq!(
        runtime_source_from(&vec![1, 2, 3], Ok(7)),
        Ok(RuntimeSource { code: vec![1, 2, 3], heap_pages: 7 })
    );
    assert_eq!(
        runtime_source_from(&vec![1, 2, 3], Err(HeapPagesError::WrongLen)),
        Err(RuntimeSourceError::InvalidHeapPages(HeapPagesError::WrongLen))
    );
}

#[test]
fn a_started_request_is_sent_ascending_with_all_fields() {
    let mut service = service_with(&[], 0);
    let step = start(&mut service, 3, 1, peer(1));
    assert_eq!(
        step,
        RequestStep::Send {
            request_id: RequestId(3),
            target: peer(1),
            chain_index: CHAIN,
            config: BlocksRequestConfig {
                start: BlocksRequestConfigStart::Number(100),
                desired_count: 128,
                direction: BlocksRequestDirection::Ascending,
                fields: BlocksRequestFields { header: true, body: true, justification: true },
            },
        }
    );
    assert_eq!(service.requests_in_flight(), 1);
}

#[test]
fn a_cancelled_request_is_aborted_once() {
    let mut service = service_with(&[], 0);
    start(&mut service, 3, 1, peer(1));
    assert_eq!(
        service.request_action(RequestAction::Cancel { request_id: RequestId(3) }),
        RequestStep::Abort { request_id: RequestId(3) }
    );
    assert_eq!(service.requests_in_flight(), 0);
    assert_eq!(
        service.request_action(RequestAction::Cancel { request_id: RequestId(3) }),
        RequestStep::Nothing
    );
}

#[test]
fn completion_after_cancellation_is_discarded() {
    let mut service = service_with(&[], 0);
    start(&mut service, 3, 1, peer(1));
    service.request_action(RequestAction::Cancel { request_id: RequestId(3) });
    assert_eq!(service.request_finished(RequestId(3), RequestOutcome::Aborted), FinishStep::Discard);
    assert_eq!(service.request_finished(RequestId(3), RequestOutcome::Failed), FinishStep::Discard);
    assert_eq!(
        service.request_finished(RequestId(3), RequestOutcome::Blocks(vec![])),
        FinishStep::Discard
    );
}

#[test]
fn cancellation_after_completion_aborts_nothing() {
    let mut service = service_with(&[], 0);
    start(&mut service, 3, 1, peer(1));
    assert_eq!(
        service.request_finished(RequestId(3), RequestOutcome::Failed),
        FinishStep::Finish { request_id: RequestId(3), result: Err(RequestFail::BlocksUnavailable) }
    );
    assert_eq!(
        service.request_action(RequestAction::Cancel { request_id: RequestId(3) }),
        RequestStep::Nothing
    );
    assert_eq!(service.request_finished(RequestId(3), RequestOutcome::Failed), FinishStep::Discard);
}

#[test]
fn a_successful_answer_is_translated_for_the_engine() {
    let mut service = service_with(&[], 0);
    start(&mut service, 4, 1, peer(1));
    let blocks = vec![
        BlockData {
            hash: [1; 32],
            header: Some(vec![10, 11]),
            body: Some(vec![vec![1], vec![2, 3]]),
            justification: Some(vec![9]),
        },
        BlockData { hash: [2; 32], header: Some(vec![12]), body: Some(vec![]), justification: None },
    ];
    assert!(is_response_complete(&blocks));
    assert_eq!(
        service.request_finished(RequestId(4), RequestOutcome::Blocks(blocks)),
        FinishStep::Finish {
            request_id: RequestId(4),
            result: Ok(vec![
                RequestSuccessBlock {
                    scale_encoded_header: vec![10, 11],
                    scale_encoded_extrinsics: vec![vec![1], vec![2, 3]],
                    scale_encoded_justification: Some(vec![9]),
                },
                RequestSuccessBlock {
                    scale_encoded_header: vec![12],
                    scale_encoded_extrinsics: vec![],
                    scale_encoded_justification: None,
                },
            ]),
        }
    );
    assert_eq!(service.requests_in_flight(), 0);
}

#[test]
fn an_answer_without_header_or_body_is_incomplete() {
    let whole = BlockData { hash: [0; 32], header: Some(vec![1]), body: Some(vec![]), justification: None };
    let headless = BlockData { hash: [0; 32], header: None, body: Some(vec![]), justification: None };
    let bodiless = BlockData { hash: [0; 32], header: Some(vec![1]), body: None, justification: None };
    assert!(is_response_complete(&vec![]));
    assert!(is_response_complete(&vec![whole.clone()]));
    assert!(!is_response_complete(&vec![whole.clone(), headless]));
    assert!(!is_response_complete(&vec![bodiless, whole]));
}

#[test]
fn translate_blocks_keeps_the_order() {
    let blocks: Vec<BlockData> = (0u8..4)
        .map(|n| BlockData { hash: [n; 32], header: Some(vec![n]), body: Some(vec![vec![n, n]]), justification: None })
        .collect();
    let out = translate_blocks(&blocks);
    assert_eq!(out.len(), 4);
    for (n, block) in out.iter().enumerate() {
        assert_eq!(block.scale_encoded_header, vec![n as u8]);
        assert_eq!(block.scale_encoded_extrinsics, vec![vec![n as u8, n as u8]]);
    }
}

#[test]
fn a_self_aborted_request_is_discarded() {
    let mut service = service_with(&[], 0);
    start(&mut service, 3, 1, peer(1));
    assert_eq!(service.request_finished(RequestId(3), RequestOutcome::Aborted), FinishStep::Discard);
    assert_eq!(service.requests_in_flight(), 0);
}

#[test]
fn events_of_other_chains_are_ignored() {
    let mut service = service_with(&[], 0);
    connect(&mut service, peer(1), SourceId(5));
    let events = vec![
        Event::Connected { peer_id: peer(2), chain_index: 1, best_block_number: 1, best_block_hash: [0; 32] },
        Event::Disconnected { peer_id: peer(1), chain_index: 1 },
        Event::BlockAnnounce {
            peer_id: peer(1),
            chain_index: 2,
            announce: announce(9),
        },
    ];
    for event in events {
        assert!(service.expects(&event));
        assert_eq!(service.network_event(event), NetworkStep::Ignore);
    }
    assert_eq!(service.source_of(&peer(1)), Some(SourceId(5)));
}

#[test]
fn a_connected_peer_is_mapped_to_its_source() {
    let mut service = service_with(&[], 0);
    connect(&mut service, peer(1), SourceId(5));
    connect(&mut service, peer(2), SourceId(6));
    assert_eq!(service.source_of(&peer(1)), Some(SourceId(5)));
    assert_eq!(service.source_of(&peer(2)), Some(SourceId(6)));
    assert_eq!(service.source_of(&peer(3)), None);
}

#[test]
fn a_disconnected_peer_loses_its_source_and_its_requests() {
    let mut service = service_with(&[], 0);
    connect(&mut service, peer(1), SourceId(5));
    connect(&mut service, peer(2), SourceId(6));
    start(&mut service, 10, 5, peer(1));
    start(&mut service, 11, 6, peer(2));
    start(&mut service, 12, 5, peer(1));

    let event = Event::Disconnected { peer_id: peer(1), chain_index: CHAIN };
    assert!(service.expects(&event));
    assert_eq!(
        service.network_event(event),
        NetworkStep::RemoveSource { source: SourceId(5), abort: vec![RequestId(10), RequestId(12)] }
    );
    assert_eq!(service.source_of(&peer(1)), None);
    assert_eq!(service.source_of(&peer(2)), Some(SourceId(6)));
    assert_eq!(service.requests_in_flight(), 1);
    // What was attributed to the source is resolved: its late results are dropped.
    assert_eq!(service.request_finished(RequestId(10), RequestOutcome::Aborted), FinishStep::Discard);
    assert_eq!(service.request_finished(RequestId(12), RequestOutcome::Failed), FinishStep::Discard);
    assert_eq!(
        service.request_finished(RequestId(11), RequestOutcome::Failed),
        FinishStep::Finish { request_id: RequestId(11), result: Err(RequestFail::BlocksUnavailable) }
    );
}

#[test]
fn events_about_unknown_peers_are_not_expected() {
    let mut service = service_with(&[], 0);
    connect(&mut service, peer(1), SourceId(5));
    assert!(!service.expects(&Event::Disconnected { peer_id: peer(9), chain_index: CHAIN }));
    assert!(!service.expects(&Event::BlockAnnounce {
        peer_id: peer(9),
        chain_index: CHAIN,
        announce: announce(1),
    }));
    assert!(service.expects(&Event::Disconnected { peer_id: peer(1), chain_index: CHAIN }));
    assert!(service.expects(&Event::Connected {
        peer_id: peer(9),
        chain_index: CHAIN,
        best_block_number: 0,
        best_block_hash: [0; 32]
    }));
}

#[test]
fn a_block_announce_raises_the_best_block_of_its_source() {
    let mut service = service_with(&[], 0);
    connect(&mut service, peer(1), SourceId(5));
    let step = service.network_event(Event::BlockAnnounce {
        peer_id: peer(1),
        chain_index: CHAIN,
        announce: announce(37),
    });
    assert_eq!(step, NetworkStep::RaiseBest { source: SourceId(5), height: 37 });
    let step = service.network_event(Event::BlockAnnounce {
        peer_id: peer(1),
        chain_index: CHAIN,
        announce: announce(u64::MAX),
    });
    assert_eq!(step, NetworkStep::RaiseBest { source: SourceId(5), height: u64::MAX });
}

#[test]
fn a_peer_that_connects_again_gets_its_new_source() {
    let mut service = service_with(&[], 0);
    connect(&mut service, peer(1), SourceId(5));
    service.network_event(Event::Disconnected { peer_id: peer(1), chain_index: CHAIN });
    connect(&mut service, peer(1), SourceId(8));
    assert_eq!(service.source_of(&peer(1)), Some(SourceId(8)));
}
