//! What the library has the `smoldot` crate compute on bytes.
//!
//! The number of heap pages that a storage value stands for is taken from
//! `smoldot`. Verus does not read `smoldot`; the contract of the wrapper
//! below says what is taken for granted.

use vstd::prelude::*;

verus! {

/// Number of heap pages of a runtime where the storage does not give one.
pub const DEFAULT_HEAP_PAGES: u32 = 2048;

/// Why a storage value is no number of heap pages.
#[derive(Clone, Copy, Debug, PartialEq, Eq, Structural)]
pub enum HeapPagesError {
    /// The value is not eight bytes long.
    WrongLen,
    /// The number does not fit in 32 bits.
    TooLarge,
}

/// The number that eight bytes stand for, least significant byte first.
pub open spec fn le_u64(bytes: Seq<u8>) -> nat
    recommends
        bytes.len() == 8,
{
    (bytes[0] as nat) + (bytes[1] as nat) * 0x100 + (bytes[2] as nat) * 0x1_0000 + (bytes[3] as nat)
        * 0x100_0000 + (bytes[4] as nat) * 0x1_0000_0000 + (bytes[5] as nat) * 0x100_0000_0000 + (
    bytes[6] as nat) * 0x1_0000_0000_0000 + (bytes[7] as nat) * 0x100_0000_0000_0000
}

/// The number of heap pages that the storage value at `:heappages` stands
/// for: the default where the key has no value, else the value read as a
/// 64-bit number, least significant byte first, which has to fit in 32 bits.
pub open spec fn heap_pages_of(value: Option<Seq<u8>>) -> Result<u32, HeapPagesError> {
    match value {
        None => Ok(DEFAULT_HEAP_PAGES),
        Some(bytes) => {
            if bytes.len() != 8 {
                Err(HeapPagesError::WrongLen)
            } else if le_u64(bytes) > u32::MAX {
                Err(HeapPagesError::TooLarge)
            } else {
                Ok(le_u64(bytes) as u32)
            }
        },
    }
}

/// The bytes of an optional value.
pub open spec fn value_view(value: Option<&[u8]>) -> Option<Seq<u8>> {
    match value {
        Some(bytes) => Some(bytes@),
        None => None,
    }
}

/// `smoldot::executor::storage_heap_pages_to_value`: the default of 2048
/// pages for an absent value; for a present one the 64-bit little-endian
/// number that its eight bytes hold, or an error where it is not eight bytes
/// long or the number does not fit in 32 bits.
#[verifier::external_body]
pub(crate) fn storage_heap_pages_to_value(value: Option<&[u8]>) -> (pages: Result<u32, HeapPagesError>)
    ensures
        pages == heap_pages_of(value_view(value)),
{
    match smoldot::executor::storage_heap_pages_to_value(value) {
        Ok(pages) => Ok(u32::from(pages)),
        Err(smoldot::executor::InvalidHeapPagesError::WrongLen) => Err(HeapPagesError::WrongLen),
        Err(smoldot::executor::InvalidHeapPagesError::TooLarge) => Err(HeapPagesError::TooLarge),
    }
}

} // verus!
