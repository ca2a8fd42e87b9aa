//! Storage-backed accessors for values that live in the 32-byte words of
//! contract storage.
//!
//! `cache` holds storage itself: words numbered by 256-bit slots, zero until
//! written. `accessors` holds one accessor type per kind of value; each names
//! where its value sits and remembers the value once read or written.
//! `primitives` holds the values and `bytes` their big-endian encodings.
//! `laws` states what holds across calls.
use vstd::prelude::*;

pub mod accessors;
pub mod bytes;
pub mod cache;
pub mod laws;
pub mod primitives;

pub use accessors::{
    overwrite_cell, StorageAddress, StorageBlockHash, StorageBlockNumber, StorageBool,
    StorageFixedBytes, StorageSigned, StorageUint,
};
pub use cache::StorageCache;
pub use primitives::{
    Address, BlockHash, BlockNumber, FixedBytes, Signed, Uint, B256, U256,
};

verus! {

/// Accessor for a storage-backed 0-bit unsigned integer.
pub type StorageU0 = StorageUint<0, 0>;
/// Accessor for a storage-backed 0-bit signed integer.
pub type StorageI0 = StorageSigned<0, 0>;
/// Accessor for a storage-backed 1-bit unsigned integer.
pub type StorageU1 = StorageUint<1, 1>;
/// Accessor for a storage-backed 1-bit signed integer.
pub type StorageI1 = StorageSigned<1, 1>;
/// Accessor for a storage-backed 8-bit unsigned integer.
pub type StorageU8 = StorageUint<8, 1>;
/// Accessor for a storage-backed 8-bit signed integer.
pub type StorageI8 = StorageSigned<8, 1>;
/// Accessor for a storage-backed 16-bit unsigned integer.
pub type StorageU16 = StorageUint<16, 1>;
/// Accessor for a storage-backed 16-bit signed integer.
pub type StorageI16 = StorageSigned<16, 1>;
/// Accessor for a storage-backed 32-bit unsigned integer.
pub type StorageU32 = StorageUint<32, 1>;
/// Accessor for a storage-backed 32-bit signed integer.
pub type StorageI32 = StorageSigned<32, 1>;
/// Accessor for a storage-backed 64-bit unsigned integer.
pub type StorageU64 = StorageUint<64, 1>;
/// Accessor for a storage-backed 64-bit signed integer.
pub type StorageI64 = StorageSigned<64, 1>;
/// Accessor for a storage-backed 128-bit unsigned integer.
pub type StorageU128 = StorageUint<128, 2>;
/// Accessor for a storage-backed 128-bit signed integer.
pub type StorageI128 = StorageSigned<128, 2>;
/// Accessor for a storage-backed 160-bit unsigned integer.
pub type StorageU160 = StorageUint<160, 3>;
/// Accessor for a storage-backed 160-bit signed integer.
pub type StorageI160 = StorageSigned<160, 3>;
/// Accessor for a storage-backed 192-bit unsigned integer.
pub type StorageU192 = StorageUint<192, 3>;
/// Accessor for a storage-backed 192-bit signed integer.
pub type StorageI192 = StorageSigned<192, 3>;
/// Accessor for a storage-backed 256-bit unsigned integer.
pub type StorageU256 = StorageUint<256, 4>;
/// Accessor for a storage-backed 256-bit signed integer.
pub type StorageI256 = StorageSigned<256, 4>;

/// Accessor for storage-backed 0 bytes.
pub type StorageB0 = StorageFixedBytes<0>;
/// Accessor for storage-backed 1 byte.
pub type StorageB8 = StorageFixedBytes<1>;
/// Accessor for storage-backed 2 bytes.
pub type StorageB16 = StorageFixedBytes<2>;
/// Accessor for storage-backed 4 bytes.
pub type StorageB32 = StorageFixedBytes<4>;
/// Accessor for storage-backed 8 bytes.
pub type StorageB64 = StorageFixedBytes<8>;
/// Accessor for storage-backed 12 bytes.
pub type StorageB96 = StorageFixedBytes<12>;
/// Accessor for storage-backed 16 bytes.
pub type StorageB128 = StorageFixedBytes<16>;
/// Accessor for storage-backed 20 bytes.
pub type StorageB160 = StorageFixedBytes<20>;
/// Accessor for storage-backed 24 bytes.
pub type StorageB192 = StorageFixedBytes<24>;
/// Accessor for storage-backed 28 bytes.
pub type StorageB224 = StorageFixedBytes<28>;
/// Accessor for storage-backed 32 bytes.
pub type StorageB256 = StorageFixedBytes<32>;

} // verus!
