//! The side table from a peer's identity to the source that stands for it.
//!
//! A peer is known to the network by its identity and to the verification
//! engine by a source id. The table is a hash map of the `hashbrown` crate
//! with the FNV hasher; what it holds is spoken of as a
//! `Map<Seq<u8>, u64>` from the identity's bytes to the source's number.

use crate::bytes::copy_bytes;
use vstd::prelude::*;

verus! {

/// Identity of a node of the network: the bytes of its multihash.
#[derive(Clone, Debug, PartialEq, Eq)]
pub struct PeerId {
    pub bytes: Vec<u8>,
}

impl View for PeerId {
    type V = Seq<u8>;

    open spec fn view(&self) -> Seq<u8> {
        self.bytes@
    }
}

impl PeerId {
    /// A copy of the identity.
    pub fn duplicate(&self) -> (r: PeerId)
        ensures
            r@ == self@,
    {
        PeerId { bytes: copy_bytes(self.bytes.as_slice()) }
    }
}

/// Handle by which the verification engine knows a peer as a provider of
/// blocks.
#[derive(Clone, Copy, Debug, PartialEq, Eq, Structural)]
pub struct SourceId(pub u64);

/// The table itself. Its field is a `hashbrown::HashMap`, which Verus does
/// not look into: everything known of it comes from the contracts of the
/// functions below.
#[verifier::external_body]
pub struct PeerTable {
    map: hashbrown::HashMap<Vec<u8>, u64, fnv::FnvBuildHasher>,
}

/// What a table holds: for each identity in it, the number of its source.
pub uninterp spec fn peer_table_contents(table: PeerTable) -> Map<Seq<u8>, u64>;

/// The entry of `m` at `key`, if there is one.
pub open spec fn entry_at(m: Map<Seq<u8>, u64>, key: Seq<u8>) -> Option<u64> {
    if m.contains_key(key) {
        Some(m[key])
    } else {
        None
    }
}

/// `hashbrown::HashMap::with_hasher`: a new map holds no entry.
#[verifier::external_body]
pub(crate) fn peer_table_new() -> (table: PeerTable)
    ensures
        forall|k: Seq<u8>| !peer_table_contents(table).contains_key(k),
{
    PeerTable { map: hashbrown::HashMap::with_hasher(fnv::FnvBuildHasher::default()) }
}

/// `hashbrown::HashMap::insert`: the key maps to the new value afterwards,
/// the other entries stay, and the value that the key had before is
/// returned.
#[verifier::external_body]
pub(crate) fn peer_table_insert(table: &mut PeerTable, peer: Vec<u8>, source: u64) -> (prev: Option<u64>)
    ensures
        peer_table_contents(*final(table)) == peer_table_contents(*old(table)).insert(peer@, source),
        prev == entry_at(peer_table_contents(*old(table)), peer@),
{
    table.map.insert(peer, source)
}

/// `hashbrown::HashMap::remove`: the key has no entry afterwards, the other
/// entries stay, and the value that the key had is returned.
#[verifier::external_body]
pub(crate) fn peer_table_remove(table: &mut PeerTable, peer: &[u8]) -> (prev: Option<u64>)
    ensures
        peer_table_contents(*final(table)) == peer_table_contents(*old(table)).remove(peer@),
        prev == entry_at(peer_table_contents(*old(table)), peer@),
{
    table.map.remove(peer)
}

/// `hashbrown::HashMap::get`: the value at the key, if the key has an entry.
#[verifier::external_body]
pub(crate) fn peer_table_get(table: &PeerTable, peer: &[u8]) -> (found: Option<u64>)
    ensures
        found == entry_at(peer_table_contents(*table), peer@),
{
    table.map.get(peer).copied()
}

} // verus!
