//! The sync service: the loop that keeps the finalized-storage snapshot in
//! step with the block-verification engine and the network.
//!
//! One round of the loop has three parts. First the engine is made to
//! process what it holds until it is idle; each thing that it reports is
//! acted on. Then the block-range requests that the engine wants started or
//! cancelled are started and cancelled. Last the loop waits for the network
//! service to tell of an event or for a request to end.
//!
//! The engine, the network and the clock stay outside. [`SyncService`] holds
//! what the loop itself keeps: the snapshot, the table from peers to
//! sources, the requests in flight, and the height of the latest finalized
//! block. For each thing that can happen it says what changes and what is to
//! be done next.

use crate::bytes::{copy_bytes, rank, Rank};
use crate::codec::{heap_pages_of, storage_heap_pages_to_value, HeapPagesError};
use crate::network::Event;
use crate::peers::{
    entry_at, peer_table_contents, peer_table_get, peer_table_insert, peer_table_new,
    peer_table_remove, PeerId, PeerTable, SourceId,
};
use crate::requests::{
    id_number, in_flight, lemma_without_request, requests_of, with_request, without_request,
    without_source, RequestId, RequestTable,
};
use crate::storage::{
    diff_applied, diff_view, diffs_applied, is_next_key, is_prefix_listing,
    lemma_diffs_applied_is_one_fold, FinalizedStorage, StorageChange,
};
use vstd::prelude::*;

verus! {

/// Number of sources that the engine is made ready for.
pub const SOURCES_CAPACITY: usize = 32;

/// Number of blocks that the engine holds at most, which is the greatest
/// distance between two justifications.
pub const BLOCKS_CAPACITY: usize = 1024;

/// Number of blocks that one request asks for.
pub const BLOCKS_REQUEST_GRANULARITY: u32 = 128;

/// Number of blocks that are downloaded ahead of verification.
pub const DOWNLOAD_AHEAD_BLOCKS: u32 = 1024;

/// Number of finalized batches that may wait for the database writer.
pub const DATABASE_QUEUE_CAPACITY: usize = 4;

/// The storage key of the runtime's code, `:code`.
pub open spec fn code_key() -> Seq<u8> {
    seq![0x3au8, 0x63u8, 0x6fu8, 0x64u8, 0x65u8]
}

/// The storage key of the runtime's number of heap pages, `:heappages`.
pub open spec fn heap_pages_key() -> Seq<u8> {
    seq![0x3au8, 0x68u8, 0x65u8, 0x61u8, 0x70u8, 0x70u8, 0x61u8, 0x67u8, 0x65u8, 0x73u8]
}

/// A block that the engine has finalized.
#[derive(Clone, Debug, PartialEq, Eq)]
pub struct FinalizedBlock {
    /// Height of the block.
    pub number: u64,
    /// The header, in its encoded form.
    pub scale_encoded_header: Vec<u8>,
    /// Proof of finality of the block, where it came with one.
    pub justification: Option<Vec<u8>>,
    /// The extrinsics of the block.
    pub body: Vec<Vec<u8>>,
    /// What the block changes in the storage, in the order in which the
    /// changes apply.
    pub storage_top_trie_changes: Vec<StorageChange>,
}

/// The heights of `blocks`, in order.
pub open spec fn block_numbers(blocks: Seq<FinalizedBlock>) -> Seq<u64> {
    blocks.map_values(|b: FinalizedBlock| b.number)
}

/// The storage diffs of `blocks`, in order.
pub open spec fn block_diffs(blocks: Seq<FinalizedBlock>) -> Seq<Seq<(Seq<u8>, Option<Seq<u8>>)>> {
    blocks.map_values(|b: FinalizedBlock| diff_view(b.storage_top_trie_changes@))
}

/// The height of the latest finalized block after a batch of blocks with
/// the heights `numbers` has become final on top of the height `height`: the
/// height of the batch's last block. A finalized block is never reverted, so
/// a batch that ends below `height`, or holds no block, leaves the height as
/// it is.
pub open spec fn height_after(height: u64, numbers: Seq<u64>) -> u64 {
    if numbers.len() > 0 && numbers.last() > height {
        numbers.last()
    } else {
        height
    }
}

/// Whether the runtime version and the metadata are to be computed anew
/// after a block: where the block changes `:code`, and at height 1 in any
/// case.
pub open spec fn runtime_refresh_due(number: u64, diff: Seq<(Seq<u8>, Option<Seq<u8>>)>) -> bool {
    number == 1 || exists|i: int| 0 <= i < diff.len() && diff[i].0 == code_key()
}

/// What the engine reports of one unit of processing.
#[derive(Clone, Debug, PartialEq, Eq)]
pub enum ProcessOutcome {
    /// Nothing is left to process.
    Idle,
    /// The chain above the given height turned out to be inconsistent and
    /// was dropped.
    Reset { previous_best_height: u64 },
    /// The blocks have become final.
    Finalized { finalized_blocks: Vec<FinalizedBlock> },
    /// The best block is now at the given height.
    NewBest { new_best_number: u64 },
    /// The engine asks for the finalized value of a key.
    FinalizedStorageGet { key: Vec<u8> },
    /// The engine asks for the key that follows a key in the finalized
    /// storage.
    FinalizedStorageNextKey { key: Vec<u8> },
    /// The engine asks for the finalized keys under a prefix.
    FinalizedStoragePrefixKeys { prefix: Vec<u8> },
}

/// The storage diffs that a report of the engine brings: those of its
/// blocks, in order, where blocks have become final, and none else.
pub open spec fn outcome_diffs(outcome: ProcessOutcome) -> Seq<Seq<(Seq<u8>, Option<Seq<u8>>)>> {
    match outcome {
        ProcessOutcome::Finalized { finalized_blocks } => block_diffs(finalized_blocks@),
        _ => Seq::empty(),
    }
}

/// The snapshot after a report of the engine has been acted on: the diffs
/// that the report brings are applied in order, and nothing else changes.
pub open spec fn snapshot_after(storage: Map<Seq<u8>, Seq<u8>>, outcome: ProcessOutcome) -> Map<
    Seq<u8>,
    Seq<u8>,
> {
    diffs_applied(storage, outcome_diffs(outcome))
}

/// The snapshot after a run of reports of the engine, each acted on in its
/// turn.
pub open spec fn snapshot_after_run(storage: Map<Seq<u8>, Seq<u8>>, outcomes: Seq<ProcessOutcome>) -> Map<
    Seq<u8>,
    Seq<u8>,
>
    decreases outcomes.len(),
{
    if outcomes.len() == 0 {
        storage
    } else {
        snapshot_after(snapshot_after_run(storage, outcomes.drop_last()), outcomes.last())
    }
}

/// The storage diffs that a run of reports brings, in the order of the
/// reports and, within a report, of its blocks.
pub open spec fn run_diffs(outcomes: Seq<ProcessOutcome>) -> Seq<Seq<(Seq<u8>, Option<Seq<u8>>)>>
    decreases outcomes.len(),
{
    if outcomes.len() == 0 {
        Seq::empty()
    } else {
        run_diffs(outcomes.drop_last()) + outcome_diffs(outcomes.last())
    }
}

/// What the loop does with a report of the engine.
#[derive(Clone, Debug, PartialEq, Eq)]
pub enum ProcessStep {
    /// Processing is over for this round.
    Idle,
    /// The reset is logged. The snapshot stays as it is.
    Reset { previous_best_height: u64 },
    /// The snapshot has taken in the blocks. The new finalized height is
    /// told to the host and the blocks go to the database writer.
    Finalized { height: u64, finalized_blocks: Vec<FinalizedBlock> },
    /// The new best height is told to the host.
    NewBest { height: u64 },
    /// The engine is given the value and goes on.
    InjectValue { value: Option<Vec<u8>> },
    /// The engine is given the key and goes on.
    InjectKey { key: Option<Vec<u8>> },
    /// The engine is given the keys and goes on.
    InjectKeys { keys: Vec<Vec<u8>> },
}

/// The bytes of an optional value.
pub open spec fn bytes_view(value: Option<Vec<u8>>) -> Option<Seq<u8>> {
    match value {
        Some(bytes) => Some(bytes@),
        None => None,
    }
}

/// The bytes of each key of a list.
pub open spec fn keys_view(keys: Seq<Vec<u8>>) -> Seq<Seq<u8>> {
    keys.map_values(|k: Vec<u8>| k@)
}

impl ProcessStep {
    /// Whether the loop gives the worker up after the step, so that a long
    /// run of processing does not keep the other jobs waiting.
    pub open spec fn spec_yields(&self) -> bool {
        self is Reset || self is Finalized || self is NewBest
    }

    /// Whether the loop gives the worker up after the step.
    #[verifier::when_used_as_spec(spec_yields)]
    pub fn yields(&self) -> (r: bool)
        ensures
            r == self.spec_yields(),
    {
        match self {
            ProcessStep::Reset { .. } => true,
            ProcessStep::Finalized { .. } => true,
            ProcessStep::NewBest { .. } => true,
            _ => false,
        }
    }

    /// Whether the engine is made to process again after the step.
    pub open spec fn spec_continues(&self) -> bool {
        !(self is Idle)
    }

    /// Whether the engine is made to process again after the step.
    #[verifier::when_used_as_spec(spec_continues)]
    pub fn continues(&self) -> (r: bool)
        ensures
            r == self.spec_continues(),
    {
        match self {
            ProcessStep::Idle => false,
            _ => true,
        }
    }
}

/// What a sync service holds, as plain values.
pub struct SyncView {
    /// Index of the chain in the network service.
    pub chain_index: usize,
    /// The snapshot of the finalized storage.
    pub storage: Map<Seq<u8>, Seq<u8>>,
    /// For each connected peer, the number of its source.
    pub peers: Map<Seq<u8>, u64>,
    /// The requests in flight, each with the number of its source.
    pub requests: Seq<(u64, u64)>,
    /// Height of the latest finalized block.
    pub finalized_height: u64,
}

/// Configuration of a [`SyncService`].
pub struct Config {
    /// Height of the finalized block that the chain starts from.
    pub finalized_block_number: u64,
    /// Storage of that block.
    pub finalized_storage: FinalizedStorage,
    /// Index of the chain to sync, from the point of view of the network
    /// service.
    pub network_chain_index: usize,
    /// What the virtual machine made of the runtime of that storage.
    pub finalized_runtime: RuntimeBuild,
}

/// The state of the sync loop.
pub struct SyncService {
    chain_index: usize,
    storage: FinalizedStorage,
    peers: PeerTable,
    requests: RequestTable,
    finalized_height: u64,
}

impl View for SyncService {
    type V = SyncView;

    closed spec fn view(&self) -> SyncView {
        SyncView {
            chain_index: self.chain_index,
            storage: self.storage@,
            peers: peer_table_contents(self.peers),
            requests: self.requests@,
            finalized_height: self.finalized_height,
        }
    }
}

/// The key `:code`.
fn code_key_bytes() -> (key: Vec<u8>)
    ensures
        key@ == code_key(),
{
    let key: Vec<u8> = vec![0x3au8, 0x63u8, 0x6fu8, 0x64u8, 0x65u8];
    assert(key@ =~= code_key());
    key
}

/// The key `:heappages`.
fn heap_pages_key_bytes() -> (key: Vec<u8>)
    ensures
        key@ == heap_pages_key(),
{
    let key: Vec<u8> = vec![
        0x3au8,
        0x68u8,
        0x65u8,
        0x61u8,
        0x70u8,
        0x70u8,
        0x61u8,
        0x67u8,
        0x65u8,
        0x73u8,
    ];
    assert(key@ =~= heap_pages_key());
    key
}

/// Tells whether the runtime version and the metadata are to be computed
/// anew after a block.
pub fn needs_runtime_refresh(block: &FinalizedBlock) -> (r: bool)
    ensures
        r == runtime_refresh_due(block.number, diff_view(block.storage_top_trie_changes@)),
{
    if block.number == 1 {
        return true;
    }
    let key = code_key_bytes();
    let ghost diff = diff_view(block.storage_top_trie_changes@);
    let mut i: usize = 0;
    while i < block.storage_top_trie_changes.len()
        invariant
            i <= block.storage_top_trie_changes@.len(),
            diff == diff_view(block.storage_top_trie_changes@),
            key@ == code_key(),
            forall|j: int| 0 <= j < i ==> diff[j].0 != code_key(),
        decreases block.storage_top_trie_changes@.len() - i,
    {
        let r = rank(
            block.storage_top_trie_changes[i].key.as_slice(),
            key.as_slice(),
        );
        if r == Rank::Same {
            assert(diff[i as int].0 == code_key());
            return true;
        }
        i += 1;
    }
    false
}

/// What the runtime of the finalized block is built from.
#[derive(Clone, Debug, PartialEq, Eq)]
pub struct RuntimeSource {
    /// The code of the runtime: the value at `:code`.
    pub code: Vec<u8>,
    /// Number of heap pages that the runtime is given.
    pub heap_pages: u32,
}

/// Why no runtime can be built from a snapshot. A snapshot of a block that
/// was once accepted as final has a runtime, so either of these means that
/// the stored state is corrupt.
#[derive(Clone, Copy, Debug, PartialEq, Eq, Structural)]
pub enum RuntimeSourceError {
    /// The snapshot has no value at `:code`.
    MissingCode,
    /// The value at `:heappages` is no number of heap pages.
    InvalidHeapPages(HeapPagesError),
}

/// The value of the map at `key`, if there is one.
pub open spec fn value_at(storage: Map<Seq<u8>, Seq<u8>>, key: Seq<u8>) -> Option<Seq<u8>> {
    if storage.contains_key(key) {
        Some(storage[key])
    } else {
        None
    }
}

/// What the runtime is built from, given the heap pages that the value at
/// `:heappages` stands for.
pub open spec fn runtime_source_of(
    storage: Map<Seq<u8>, Seq<u8>>,
    heap_pages: Result<u32, HeapPagesError>,
) -> Result<(Seq<u8>, u32), RuntimeSourceError> {
    if !storage.contains_key(code_key()) {
        Err(RuntimeSourceError::MissingCode)
    } else {
        match heap_pages {
            Ok(pages) => Ok((storage[code_key()], pages)),
            Err(e) => Err(RuntimeSourceError::InvalidHeapPages(e)),
        }
    }
}

/// What the runtime of a storage is built from: the code at `:code` and the
/// heap pages that the value at `:heappages` stands for.
pub open spec fn runtime_of(storage: Map<Seq<u8>, Seq<u8>>) -> Result<(Seq<u8>, u32), RuntimeSourceError> {
    runtime_source_of(storage, heap_pages_of(value_at(storage, heap_pages_key())))
}

/// Whether a storage holds a runtime: a value at `:code`, and at
/// `:heappages` either nothing or a number of heap pages.
pub open spec fn holds_runtime(storage: Map<Seq<u8>, Seq<u8>>) -> bool {
    runtime_of(storage) is Ok
}

/// What the virtual machine made of a runtime.
///
/// To build a runtime the virtual machine compiles its code and may run it,
/// for as long as the code takes, and whether the memory suffices is the
/// machine's matter. The build is therefore made by whoever sets the service
/// up. What came of it is handed in here, together with the source that it
/// was made from.
#[derive(Clone, Debug, PartialEq, Eq)]
pub struct RuntimeBuild {
    /// What the runtime was built from.
    pub source: RuntimeSource,
    /// Whether the virtual machine accepted it.
    pub accepted: bool,
}

/// Whether the runtime of a storage is sound: the storage holds a runtime,
/// `build` tells of the build of exactly that runtime, from that code and
/// with those heap pages, and the virtual machine accepted it.
pub open spec fn runtime_sound(storage: Map<Seq<u8>, Seq<u8>>, build: RuntimeBuild) -> bool {
    &&& holds_runtime(storage)
    &&& runtime_of(storage)->Ok_0 == (build.source.code@, build.source.heap_pages)
    &&& build.accepted
}

/// The source as plain values.
pub open spec fn runtime_source_view(source: Result<RuntimeSource, RuntimeSourceError>) -> Result<
    (Seq<u8>, u32),
    RuntimeSourceError,
> {
    match source {
        Ok(s) => Ok((s.code@, s.heap_pages)),
        Err(e) => Err(e),
    }
}

impl SyncService {
    /// Initializes the sync service with the given configuration.
    ///
    /// The runtime of the finalized storage has to be sound: the storage
    /// holds a value at `:code`, and at `:heappages` either nothing or a
    /// number of heap pages, and the virtual machine has built that runtime
    /// and accepted it. A block that was once accepted as final has such a
    /// runtime, so a storage without it is corrupt, and no service is made
    /// of it. [`runtime_source_in`] gives what the runtime is to be built
    /// from, and [`is_runtime_sound`] tells whether a service can be made.
    pub fn new(config: Config) -> (service: SyncService)
        requires
            runtime_sound(config.finalized_storage@, config.finalized_runtime),
        ensures
            holds_runtime(service@.storage),
            service@ == (SyncView {
                chain_index: config.network_chain_index,
                storage: config.finalized_storage@,
                peers: Map::empty(),
                requests: Seq::empty(),
                finalized_height: config.finalized_block_number,
            }),
    {
        let peers = peer_table_new();
        assert(peer_table_contents(peers) =~= Map::<Seq<u8>, u64>::empty());
        SyncService {
            chain_index: config.network_chain_index,
            storage: config.finalized_storage,
            peers,
            requests: RequestTable::new(),
            finalized_height: config.finalized_block_number,
        }
    }

    /// Height of the latest finalized block.
    pub fn finalized_height(&self) -> (height: u64)
        ensures
            height == self@.finalized_height,
    {
        self.finalized_height
    }

    /// Index of the chain in the network service.
    pub fn chain_index(&self) -> (index: usize)
        ensures
            index == self@.chain_index,
    {
        self.chain_index
    }

    /// The snapshot of the finalized storage.
    pub fn storage(&self) -> (storage: &FinalizedStorage)
        ensures
            storage@ == self@.storage,
    {
        &self.storage
    }

    /// The source that stands for a peer, if the peer is connected.
    pub fn source_of(&self, peer_id: &PeerId) -> (source: Option<SourceId>)
        ensures
            match source {
                Some(s) => entry_at(self@.peers, peer_id@) == Some(s.0),
                None => !self@.peers.contains_key(peer_id@),
            },
    {
        match peer_table_get(&self.peers, peer_id.bytes.as_slice()) {
            Some(number) => Some(SourceId(number)),
            None => None,
        }
    }

    /// Number of requests in flight.
    pub fn requests_in_flight(&self) -> (n: usize)
        ensures
            n == self@.requests.len(),
    {
        self.requests.len()
    }

    /// What the runtime of the finalized block is built from: the code at
    /// `:code` and the heap pages at `:heappages`.
    pub fn runtime_source(&self) -> (source: Result<RuntimeSource, RuntimeSourceError>)
        ensures
            runtime_source_view(source) == runtime_of(self@.storage),
    {
        runtime_source_in(&self.storage)
    }

    /// Acts on what the engine reports of one unit of processing.
    ///
    /// The diffs of finalized blocks are applied to the snapshot in the
    /// order of the blocks, whatever the blocks are. The finalized height
    /// becomes that of the last block and never goes down. Queries are
    /// answered from the snapshot.
    pub fn process(&mut self, outcome: ProcessOutcome) -> (step: ProcessStep)
        ensures
            final(self)@.finalized_height >= old(self)@.finalized_height,
            final(self)@.chain_index == old(self)@.chain_index,
            final(self)@.peers == old(self)@.peers,
            final(self)@.requests == old(self)@.requests,
            !(outcome is Finalized) ==> final(self)@ == old(self)@,
            final(self)@.storage == snapshot_after(old(self)@.storage, outcome),
            match outcome {
                ProcessOutcome::Idle => step is Idle,
                ProcessOutcome::Reset { previous_best_height } => step == (ProcessStep::Reset {
                    previous_best_height,
                }),
                ProcessOutcome::Finalized { finalized_blocks } => {
                    &&& step == (ProcessStep::Finalized {
                        height: final(self)@.finalized_height,
                        finalized_blocks,
                    })
                    &&& final(self)@.finalized_height == height_after(
                        old(self)@.finalized_height,
                        block_numbers(finalized_blocks@),
                    )
                    &&& final(self)@.storage == diffs_applied(
                        old(self)@.storage,
                        block_diffs(finalized_blocks@),
                    )
                },
                ProcessOutcome::NewBest { new_best_number } => step == (ProcessStep::NewBest {
                    height: new_best_number,
                }),
                ProcessOutcome::FinalizedStorageGet { key } => {
                    step matches ProcessStep::InjectValue { value } && bytes_view(value) == value_at(
                        old(self)@.storage,
                        key@,
                    )
                },
                ProcessOutcome::FinalizedStorageNextKey { key } => {
                    step matches ProcessStep::InjectKey { key: next } && is_next_key(
                        old(self)@.storage,
                        key@,
                        bytes_view(next),
                    )
                },
                ProcessOutcome::FinalizedStoragePrefixKeys { prefix } => {
                    step matches ProcessStep::InjectKeys { keys } && is_prefix_listing(
                        old(self)@.storage,
                        prefix@,
                        keys_view(keys@),
                    )
                },
            },
    {
        match outcome {
            ProcessOutcome::Idle => ProcessStep::Idle,
            ProcessOutcome::Reset { previous_best_height } => ProcessStep::Reset {
                previous_best_height,
            },
            ProcessOutcome::Finalized { finalized_blocks } => {
                let mut height = self.finalized_height;
                if finalized_blocks.len() > 0 {
                    let last = finalized_blocks[finalized_blocks.len() - 1].number;
                    assert(block_numbers(finalized_blocks@).last() == last);
                    if last > height {
                        height = last;
                    }
                }
                self.apply_blocks(&finalized_blocks);
                self.finalized_height = height;
                ProcessStep::Finalized { height, finalized_blocks }
            },
            ProcessOutcome::NewBest { new_best_number } => ProcessStep::NewBest {
                height: new_best_number,
            },
            ProcessOutcome::FinalizedStorageGet { key } => {
                let value = match self.storage.get(key.as_slice()) {
                    Some(v) => Some(copy_bytes(v.as_slice())),
                    None => None,
                };
                ProcessStep::InjectValue { value }
            },
            ProcessOutcome::FinalizedStorageNextKey { key } => {
                let next = match self.storage.next_key(key.as_slice()) {
                    Some(k) => Some(copy_bytes(k.as_slice())),
                    None => None,
                };
                ProcessStep::InjectKey { key: next }
            },
            ProcessOutcome::FinalizedStoragePrefixKeys { prefix } => {
                let keys = self.storage.prefix_keys(prefix.as_slice());
                assert(keys_view(keys@) == keys@.map_values(|k: Vec<u8>| k@));
                ProcessStep::InjectKeys { keys }
            },
        }
    }

    /// Applies the diffs of the blocks to the snapshot, block after block.
    fn apply_blocks(&mut self, blocks: &Vec<FinalizedBlock>)
        ensures
            final(self)@ == (SyncView {
                storage: diffs_applied(old(self)@.storage, block_diffs(blocks@)),
                ..old(self)@
            }),
    {
        let ghost diffs = block_diffs(blocks@);
        let mut i: usize = 0;
        while i < blocks.len()
            invariant
                i <= blocks@.len(),
                diffs == block_diffs(blocks@),
                self@ == (SyncView {
                    storage: diffs_applied(old(self)@.storage, diffs.take(i as int)),
                    ..old(self)@
                }),
            decreases blocks@.len() - i,
        {
            proof {
                assert(diffs.take(i as int + 1).drop_last() =~= diffs.take(i as int));
                assert(diffs.take(i as int + 1).last() == diff_view(
                    blocks@[i as int].storage_top_trie_changes@,
                ));
            }
            self.storage.apply_diff(&blocks[i].storage_top_trie_changes);
            i += 1;
        }
        proof {
            assert(diffs.take(i as int) =~= diffs);
        }
    }
}

/// What the runtime of a storage is built from: the code at `:code` and the
/// heap pages at `:heappages`, which default to 2048 where the key has no
/// value. Gives an error where the storage holds no runtime.
pub fn runtime_source_in(storage: &FinalizedStorage) -> (source: Result<
    RuntimeSource,
    RuntimeSourceError,
>)
    ensures
        runtime_source_view(source) == runtime_of(storage@),
        source is Ok <==> holds_runtime(storage@),
{
    let code_key = code_key_bytes();
    let pages_key = heap_pages_key_bytes();
    let code = match storage.get(code_key.as_slice()) {
        Some(code) => code,
        None => {
            return Err(RuntimeSourceError::MissingCode);
        },
    };
    let pages = match storage.get(pages_key.as_slice()) {
        Some(value) => storage_heap_pages_to_value(Some(value.as_slice())),
        None => storage_heap_pages_to_value(None),
    };
    runtime_source_from(code, pages)
}

/// Tells whether the runtime of a storage is sound: whether `build` tells
/// of the build of the runtime that the storage holds, and the virtual
/// machine accepted it.
pub fn is_runtime_sound(storage: &FinalizedStorage, build: &RuntimeBuild) -> (r: bool)
    ensures
        r == runtime_sound(storage@, *build),
{
    if !build.accepted {
        return false;
    }
    let code_key = code_key_bytes();
    let pages_key = heap_pages_key_bytes();
    let code = match storage.get(code_key.as_slice()) {
        Some(code) => code,
        None => {
            return false;
        },
    };
    let pages = match storage.get(pages_key.as_slice()) {
        Some(value) => storage_heap_pages_to_value(Some(value.as_slice())),
        None => storage_heap_pages_to_value(None),
    };
    match pages {
        Ok(pages) => {
            pages == build.source.heap_pages && rank(
                code.as_slice(),
                build.source.code.as_slice(),
            ) == Rank::Same
        },
        Err(_) => false,
    }
}

/// Puts together what the runtime is built from, given the code and what
/// the value at `:heappages` stands for.
pub fn runtime_source_from(code: &Vec<u8>, heap_pages: Result<u32, HeapPagesError>) -> (source: Result<
    RuntimeSource,
    RuntimeSourceError,
>)
    ensures
        runtime_source_view(source) == (match heap_pages {
            Ok(pages) => Ok((code@, pages)),
            Err(e) => Err(RuntimeSourceError::InvalidHeapPages(e)),
        }),
{
    match heap_pages {
        Ok(pages) => Ok(RuntimeSource { code: copy_bytes(code.as_slice()), heap_pages: pages }),
        Err(e) => Err(RuntimeSourceError::InvalidHeapPages(e)),
    }
}

/// Where a block-range request starts.
#[derive(Clone, Copy, Debug, PartialEq, Eq, Structural)]
pub enum BlocksRequestConfigStart {
    /// At the block of the given height.
    Number(u64),
}

/// The direction in which a block-range request goes through the chain.
#[derive(Clone, Copy, Debug, PartialEq, Eq, Structural)]
pub enum BlocksRequestDirection {
    /// Towards higher blocks.
    Ascending,
    /// Towards lower blocks.
    Descending,
}

/// The parts of each block that a block-range request asks for.
#[derive(Clone, Copy, Debug, PartialEq, Eq, Structural)]
pub struct BlocksRequestFields {
    pub header: bool,
    pub body: bool,
    pub justification: bool,
}

/// What a block-range request asks for.
#[derive(Clone, Copy, Debug, PartialEq, Eq, Structural)]
pub struct BlocksRequestConfig {
    pub start: BlocksRequestConfigStart,
    pub desired_count: u32,
    pub direction: BlocksRequestDirection,
    pub fields: BlocksRequestFields,
}

/// The request that the loop sends for `num_blocks` blocks from
/// `block_height` on: ascending, with header, body and justification.
pub open spec fn ascending_request(block_height: u64, num_blocks: u32) -> BlocksRequestConfig {
    BlocksRequestConfig {
        start: BlocksRequestConfigStart::Number(block_height),
        desired_count: num_blocks,
        direction: BlocksRequestDirection::Ascending,
        fields: BlocksRequestFields { header: true, body: true, justification: true },
    }
}

/// What the engine wants done about a request.
#[derive(Clone, Debug, PartialEq, Eq)]
pub enum RequestAction {
    /// A request is to be started under the id `request_id`: `num_blocks`
    /// blocks from `block_height` on are asked of the source, whose peer is
    /// `peer_id`.
    Start { request_id: RequestId, source: SourceId, peer_id: PeerId, block_height: u64, num_blocks: u32 },
    /// The request is to be cancelled.
    Cancel { request_id: RequestId },
}

/// What the loop does about a request.
#[derive(Clone, Debug, PartialEq, Eq)]
pub enum RequestStep {
    /// The request is sent through the network service, in a way that can
    /// be aborted.
    Send { request_id: RequestId, target: PeerId, chain_index: usize, config: BlocksRequestConfig },
    /// The request is aborted at once.
    Abort { request_id: RequestId },
    /// The request had been resolved before: nothing is left to do.
    Nothing,
}

/// What the loop does about an event of the network service.
#[derive(Clone, Debug, PartialEq, Eq)]
pub enum NetworkStep {
    /// The peer is made a source of the engine, at the given best height.
    /// The id that the engine gives the source is then recorded with
    /// [`SyncService::source_added`].
    AddSource { peer_id: PeerId, best_block_number: u64 },
    /// The source is taken from the engine, and each of the listed requests,
    /// which were still attributed to it, is aborted.
    RemoveSource { source: SourceId, abort: Vec<RequestId> },
    /// The engine is told that the source holds a block of the given height.
    RaiseBest { source: SourceId, height: u64 },
    /// Nothing is done.
    Ignore,
}

/// A block as a peer sent it in answer to a request.
#[derive(Clone, Debug, PartialEq, Eq)]
pub struct BlockData {
    pub hash: [u8; 32],
    pub header: Option<Vec<u8>>,
    pub body: Option<Vec<Vec<u8>>>,
    pub justification: Option<Vec<u8>>,
}

/// How a request ended.
#[derive(Clone, Debug, PartialEq, Eq)]
pub enum RequestOutcome {
    /// The request was aborted by the loop itself.
    Aborted,
    /// The transport did not bring an answer.
    Failed,
    /// The peer answered with these blocks.
    Blocks(Vec<BlockData>),
}

/// A block of a successful request, as the engine takes it.
#[derive(Clone, Debug, PartialEq, Eq)]
pub struct RequestSuccessBlock {
    pub scale_encoded_header: Vec<u8>,
    pub scale_encoded_extrinsics: Vec<Vec<u8>>,
    pub scale_encoded_justification: Option<Vec<u8>>,
}

/// Why a request brought no blocks.
#[derive(Clone, Copy, Debug, PartialEq, Eq, Structural)]
pub enum RequestFail {
    /// The blocks could not be had from the source.
    BlocksUnavailable,
}

/// What the loop does when a request has ended.
#[derive(Debug, PartialEq, Eq)]
pub enum FinishStep {
    /// The result is dropped: the request was cancelled, or its source went
    /// away, before it ended.
    Discard,
    /// The engine is told how the request ended.
    Finish { request_id: RequestId, result: Result<Vec<RequestSuccessBlock>, RequestFail> },
}

/// A successful block as plain values: header, extrinsics, justification.
pub open spec fn success_view(block: RequestSuccessBlock) -> (Seq<u8>, Seq<Seq<u8>>, Option<Seq<u8>>) {
    (
        block.scale_encoded_header@,
        keys_view(block.scale_encoded_extrinsics@),
        bytes_view(block.scale_encoded_justification),
    )
}

/// Whether every block of an answer has the header and the body that were
/// asked for.
pub open spec fn response_complete(blocks: Seq<BlockData>) -> bool {
    forall|i: int| 0 <= i < blocks.len() ==> blocks[i].header is Some && blocks[i].body is Some
}

/// What the engine is given for a block of an answer.
pub open spec fn translated(block: BlockData) -> (Seq<u8>, Seq<Seq<u8>>, Option<Seq<u8>>) {
    (block.header->0@, keys_view(block.body->0@), bytes_view(block.justification))
}

/// What the engine is told of a request that ended with `outcome` and was
/// not resolved before.
pub open spec fn is_result_of(
    result: Result<Vec<RequestSuccessBlock>, RequestFail>,
    outcome: RequestOutcome,
) -> bool {
    match outcome {
        RequestOutcome::Aborted => false,
        RequestOutcome::Failed => result == Err::<Vec<RequestSuccessBlock>, RequestFail>(
            RequestFail::BlocksUnavailable,
        ),
        RequestOutcome::Blocks(blocks) => {
            &&& result is Ok
            &&& result->Ok_0@.map_values(|b: RequestSuccessBlock| success_view(b))
                == blocks@.map_values(|b: BlockData| translated(b))
        },
    }
}

/// Whether the end of a request is told to the engine: where the request is
/// still in flight and was not aborted.
pub open spec fn finish_is_observed(table: Seq<(u64, u64)>, request: u64, outcome: RequestOutcome) -> bool {
    in_flight(table, request) && !(outcome is Aborted)
}

/// Whether a cancellation aborts a request: where the request is still in
/// flight.
pub open spec fn cancel_is_observed(table: Seq<(u64, u64)>, request: u64) -> bool {
    in_flight(table, request)
}

/// A copy of a list of byte strings.
fn copy_list(list: &Vec<Vec<u8>>) -> (copy: Vec<Vec<u8>>)
    ensures
        keys_view(copy@) == keys_view(list@),
{
    let mut copy: Vec<Vec<u8>> = Vec::new();
    let mut i: usize = 0;
    while i < list.len()
        invariant
            i <= list@.len(),
            copy@.len() == i,
            forall|j: int| 0 <= j < i ==> (#[trigger] copy@[j])@ == list@[j]@,
        decreases list@.len() - i,
    {
        copy.push(copy_bytes(list[i].as_slice()));
        i += 1;
    }
    assert(keys_view(copy@) =~= keys_view(list@));
    copy
}

/// Tells whether every block of an answer has its header and its body.
pub fn is_response_complete(blocks: &Vec<BlockData>) -> (r: bool)
    ensures
        r == response_complete(blocks@),
{
    let mut i: usize = 0;
    while i < blocks.len()
        invariant
            i <= blocks@.len(),
            forall|j: int| 0 <= j < i ==> blocks@[j].header is Some && blocks@[j].body is Some,
        decreases blocks@.len() - i,
    {
        if blocks[i].header.is_none() || blocks[i].body.is_none() {
            return false;
        }
        i += 1;
    }
    true
}

/// Turns the blocks of an answer into what the engine takes.
pub fn translate_blocks(blocks: &Vec<BlockData>) -> (out: Vec<RequestSuccessBlock>)
    requires
        response_complete(blocks@),
    ensures
        out@.map_values(|b: RequestSuccessBlock| success_view(b)) == blocks@.map_values(
            |b: BlockData| translated(b),
        ),
{
    let mut out: Vec<RequestSuccessBlock> = Vec::new();
    let mut i: usize = 0;
    while i < blocks.len()
        invariant
            i <= blocks@.len(),
            response_complete(blocks@),
            out@.len() == i,
            forall|j: int| 0 <= j < i ==> success_view(#[trigger] out@[j]) == translated(blocks@[j]),
        decreases blocks@.len() - i,
    {
        let block = &blocks[i];
        let header = match &block.header {
            Some(h) => copy_bytes(h.as_slice()),
            None => Vec::new(),
        };
        let body = match &block.body {
            Some(b) => copy_list(b),
            None => Vec::new(),
        };
        let justification = match &block.justification {
            Some(j) => Some(copy_bytes(j.as_slice())),
            None => None,
        };
        out.push(
            RequestSuccessBlock {
                scale_encoded_header: header,
                scale_encoded_extrinsics: body,
                scale_encoded_justification: justification,
            },
        );
        i += 1;
    }
    assert(out@.map_values(|b: RequestSuccessBlock| success_view(b)) =~= blocks@.map_values(
        |b: BlockData| translated(b),
    ));
    out
}

/// Whether the loop can act on the event: an event of its own chain that
/// tells of a disconnection or of a block needs a peer that is connected.
pub open spec fn event_expected(view: SyncView, event: Event) -> bool {
    match event {
        Event::Connected { .. } => true,
        Event::Disconnected { peer_id, chain_index } => chain_index == view.chain_index
            ==> view.peers.contains_key(peer_id@),
        Event::BlockAnnounce { peer_id, chain_index, .. } => chain_index == view.chain_index
            ==> view.peers.contains_key(peer_id@),
    }
}

impl SyncService {
    /// Acts on what the engine wants done about a request.
    ///
    /// A request that is started is registered as in flight under its id and
    /// attributed to its source. A request that is cancelled leaves the
    /// table; it is aborted only where it was still in flight.
    pub fn request_action(&mut self, action: RequestAction) -> (step: RequestStep)
        ensures
            match action {
                RequestAction::Start { request_id, source, peer_id, block_height, num_blocks } => {
                    &&& final(self)@ == (SyncView {
                        requests: with_request(old(self)@.requests, request_id.0, source.0),
                        ..old(self)@
                    })
                    &&& in_flight(final(self)@.requests, request_id.0)
                    &&& step == (RequestStep::Send {
                        request_id,
                        target: peer_id,
                        chain_index: old(self)@.chain_index,
                        config: ascending_request(block_height, num_blocks),
                    })
                },
                RequestAction::Cancel { request_id } => {
                    &&& final(self)@ == (SyncView {
                        requests: without_request(old(self)@.requests, request_id.0),
                        ..old(self)@
                    })
                    &&& !in_flight(final(self)@.requests, request_id.0)
                    &&& (if cancel_is_observed(old(self)@.requests, request_id.0) {
                        step == (RequestStep::Abort { request_id })
                    } else {
                        step is Nothing
                    })
                },
            },
    {
        match action {
            RequestAction::Start { request_id, source, peer_id, block_height, num_blocks } => {
                self.requests.register(request_id, source);
                RequestStep::Send {
                    request_id,
                    target: peer_id,
                    chain_index: self.chain_index,
                    config: BlocksRequestConfig {
                        start: BlocksRequestConfigStart::Number(block_height),
                        desired_count: num_blocks,
                        direction: BlocksRequestDirection::Ascending,
                        fields: BlocksRequestFields { header: true, body: true, justification: true },
                    },
                }
            },
            RequestAction::Cancel { request_id } => {
                match self.requests.resolve(request_id) {
                    Some(_) => {
                        proof {
                            let source = choose|source: u64|
                                old(self)@.requests.contains((request_id.0, source));
                            let i = choose|i: int|
                                0 <= i < old(self)@.requests.len() && old(self)@.requests[i] == (
                                    request_id.0,
                                    source,
                                );
                            assert(old(self)@.requests[i].0 == request_id.0);
                        }
                        RequestStep::Abort { request_id }
                    },
                    None => RequestStep::Nothing,
                }
            },
        }
    }

    /// Tells whether the loop can act on the event.
    pub fn expects(&self, event: &Event) -> (r: bool)
        ensures
            r == event_expected(self@, *event),
    {
        match event {
            Event::Connected { .. } => true,
            Event::Disconnected { peer_id, chain_index } => {
                *chain_index != self.chain_index || self.source_of(peer_id).is_some()
            },
            Event::BlockAnnounce { peer_id, chain_index, .. } => {
                *chain_index != self.chain_index || self.source_of(peer_id).is_some()
            },
        }
    }

    /// Acts on an event of the network service.
    ///
    /// Events of other chains are ignored. A peer that connects is to be made
    /// a source. A peer that disconnects loses its source, and with it every
    /// request that is still attributed to that source. A peer that announces
    /// a block has its source's best height raised to the height of that
    /// block.
    pub fn network_event(&mut self, event: Event) -> (step: NetworkStep)
        requires
            event_expected(old(self)@, event),
        ensures
            final(self)@.finalized_height == old(self)@.finalized_height,
            final(self)@.storage == old(self)@.storage,
            final(self)@.chain_index == old(self)@.chain_index,
            event.chain_index() != old(self)@.chain_index ==> step is Ignore && final(self)@ == old(
                self,
            )@,
            event.chain_index() == old(self)@.chain_index ==> match event {
                Event::Connected { peer_id, best_block_number, .. } => {
                    &&& final(self)@ == old(self)@
                    &&& step == (NetworkStep::AddSource { peer_id, best_block_number })
                },
                Event::Disconnected { peer_id, .. } => {
                    let source = old(self)@.peers[peer_id@];
                    &&& final(self)@.peers == old(self)@.peers.remove(peer_id@)
                    &&& final(self)@.requests == without_source(old(self)@.requests, source)
                    &&& requests_of(final(self)@.requests, source) == Seq::<u64>::empty()
                    &&& step matches NetworkStep::RemoveSource { source: s, abort }
                    &&& s.0 == source
                    &&& abort@.map_values(id_number()) == requests_of(old(self)@.requests, source)
                },
                Event::BlockAnnounce { peer_id, announce, .. } => {
                    &&& final(self)@ == old(self)@
                    &&& step == (NetworkStep::RaiseBest {
                        source: SourceId(old(self)@.peers[peer_id@]),
                        height: announce.number,
                    })
                },
            },
    {
        if event.chain_index() != self.chain_index {
            return NetworkStep::Ignore;
        }
        match event {
            Event::Connected { peer_id, best_block_number, .. } => NetworkStep::AddSource {
                peer_id,
                best_block_number,
            },
            Event::Disconnected { peer_id, .. } => {
                match peer_table_remove(&mut self.peers, peer_id.bytes.as_slice()) {
                    Some(number) => {
                        let abort = self.requests.remove_source(SourceId(number));
                        NetworkStep::RemoveSource { source: SourceId(number), abort }
                    },
                    None => NetworkStep::Ignore,
                }
            },
            Event::BlockAnnounce { peer_id, announce, .. } => {
                match peer_table_get(&self.peers, peer_id.bytes.as_slice()) {
                    Some(number) => NetworkStep::RaiseBest {
                        source: SourceId(number),
                        height: announce.number,
                    },
                    None => NetworkStep::Ignore,
                }
            },
        }
    }

    /// Records the id that the engine gave to the source of a peer.
    pub fn source_added(&mut self, peer_id: PeerId, source: SourceId)
        ensures
            final(self)@ == (SyncView {
                peers: old(self)@.peers.insert(peer_id@, source.0),
                ..old(self)@
            }),
    {
        let _ = peer_table_insert(&mut self.peers, peer_id.bytes, source.0);
    }

    /// Acts on the end of a request.
    ///
    /// The request leaves the table. Where it had left it before, by being
    /// cancelled or by its source going away, or where it was aborted, its
    /// result is dropped. Else the engine is told of the blocks that came,
    /// or that the blocks are not to be had.
    pub fn request_finished(&mut self, request_id: RequestId, outcome: RequestOutcome) -> (step:
        FinishStep)
        requires
            outcome matches RequestOutcome::Blocks(blocks) ==> response_complete(blocks@),
        ensures
            final(self)@ == (SyncView {
                requests: without_request(old(self)@.requests, request_id.0),
                ..old(self)@
            }),
            !in_flight(final(self)@.requests, request_id.0),
            if finish_is_observed(old(self)@.requests, request_id.0, outcome) {
                step matches FinishStep::Finish { request_id: id, result } && id == request_id
                    && is_result_of(result, outcome)
            } else {
                step is Discard
            },
    {
        let known = self.requests.resolve(request_id);
        proof {
            if known is Some {
                let source = known->0;
                let i = choose|i: int|
                    0 <= i < old(self)@.requests.len() && old(self)@.requests[i] == (
                        request_id.0,
                        source.0,
                    );
                assert(old(self)@.requests[i].0 == request_id.0);
            }
        }
        if known.is_none() {
            return FinishStep::Discard;
        }
        match outcome {
            RequestOutcome::Aborted => FinishStep::Discard,
            RequestOutcome::Failed => FinishStep::Finish {
                request_id,
                result: Err(RequestFail::BlocksUnavailable),
            },
            RequestOutcome::Blocks(blocks) => FinishStep::Finish {
                request_id,
                result: Ok(translate_blocks(&blocks)),
            },
        }
    }
}

/// Completion and cancellation of a request exclude each other. While the
/// request is in flight, whichever of the two comes first is observed; it
/// takes the request out of the table, and after that neither is observed
/// for that request again.
pub proof fn lemma_resolved_exactly_once(table: Seq<(u64, u64)>, request: u64, outcome: RequestOutcome)
    ensures
        in_flight(table, request) ==> cancel_is_observed(table, request),
        in_flight(table, request) && !(outcome is Aborted) ==> finish_is_observed(
            table,
            request,
            outcome,
        ),
        !cancel_is_observed(without_request(table, request), request),
        !finish_is_observed(without_request(table, request), request, outcome),
{
    lemma_without_request(table, request);
}

/// Whatever the engine reports over a run, the snapshot at its end is the
/// snapshot at its start with every change of every finalized block applied
/// in order: the blocks in the order in which they were reported, the
/// changes of a block in the order in which they stand. Reports that
/// finalize nothing change no entry.
pub proof fn lemma_snapshot_is_fold_of_diffs(storage: Map<Seq<u8>, Seq<u8>>, outcomes: Seq<ProcessOutcome>)
    ensures
        snapshot_after_run(storage, outcomes) == diffs_applied(storage, run_diffs(outcomes)),
        snapshot_after_run(storage, outcomes) == diff_applied(storage, run_diffs(outcomes).flatten()),
    decreases outcomes.len(),
{
    let f = |acc: Map<Seq<u8>, Seq<u8>>, d: Seq<(Seq<u8>, Option<Seq<u8>>)>| diff_applied(acc, d);
    if outcomes.len() > 0 {
        let front = run_diffs(outcomes.drop_last());
        let last = outcome_diffs(outcomes.last());
        lemma_snapshot_is_fold_of_diffs(storage, outcomes.drop_last());
        (front + last).lemma_fold_left_split(storage, f, front.len() as int);
        assert((front + last).subrange(0, front.len() as int) =~= front);
        assert((front + last).subrange(front.len() as int, (front + last).len() as int) =~= last);
    }
    lemma_diffs_applied_is_one_fold(storage, run_diffs(outcomes));
}

/// The finalized height after a run in which the engine finalizes the
/// batches with the heights `batches`, one after the other, starting from
/// the height `height`.
pub open spec fn height_after_run(height: u64, batches: Seq<Seq<u64>>) -> u64
    decreases batches.len(),
{
    if batches.len() == 0 {
        height
    } else {
        height_after(height_after_run(height, batches.drop_last()), batches.last())
    }
}

/// The finalized heights that are told to the host over such a run: after
/// each batch, the finalized height that the batch leaves.
pub open spec fn reported_heights(height: u64, batches: Seq<Seq<u64>>) -> Seq<u64> {
    Seq::new(batches.len(), |i: int| height_after_run(height, batches.take(i + 1)))
}

/// The finalized height that is told to the host never goes down, whatever
/// the engine reports: each report is at least the one before it, and none
/// is below the height that the run started from. A report is the height of
/// its batch's last block wherever that block is above what was final
/// before.
pub proof fn lemma_reported_heights_ascend(height: u64, batches: Seq<Seq<u64>>, i: int, j: int)
    requires
        0 <= i <= j < batches.len(),
    ensures
        height <= reported_heights(height, batches)[i],
        reported_heights(height, batches)[i] <= reported_heights(height, batches)[j],
        batches[j].len() > 0 && batches[j].last() > height_after_run(height, batches.take(j))
            ==> reported_heights(height, batches)[j] == batches[j].last(),
    decreases j - i,
{
    lemma_height_after_run_ascends(height, batches.take(i + 1));
    assert(batches.take(j + 1).drop_last() =~= batches.take(j));
    assert(batches.take(j + 1).last() == batches[j]);
    if i < j {
        lemma_reported_heights_ascend(height, batches, i, j - 1);
        assert(batches.take(j) =~= batches.take(j - 1 + 1));
    }
}

/// A run never leaves the finalized height below where it started.
proof fn lemma_height_after_run_ascends(height: u64, batches: Seq<Seq<u64>>)
    ensures
        height <= height_after_run(height, batches),
    decreases batches.len(),
{
    if batches.len() > 0 {
        lemma_height_after_run_ascends(height, batches.drop_last());
    }
}

} // verus!
