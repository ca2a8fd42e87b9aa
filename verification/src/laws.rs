//! What holds of storage accessors across calls: a value written is the
//! value read back, a write leaves every other byte of storage as it was, and
//! an accessor's remembered value stays the one in storage while nothing else
//! writes over it.
use crate::accessors::{
    bool_byte, StorageAddress, StorageBlockHash, StorageBlockNumber, StorageBool,
    StorageFixedBytes, StorageSigned, StorageUint,
};
use crate::bytes::{
    be_encode, be_value, lemma_be_encode_of_value, write_bytes, lemma_be_roundtrip, lemma_be_value_zeros, lemma_pow256_eight, lemma_read_after_write,
    lemma_write_keeps_other_bytes,
};
use crate::cache::{bytes_at, store_write, uint_at, uint_written, word_of, words_are_32_bytes};
use crate::primitives::lemma_pow256_is_pow2;
use vstd::arithmetic::power2::pow2;
use vstd::prelude::*;

verus! {

/// Two byte ranges of storage that do not share a byte: in different slots,
/// or side by side in one slot.
pub open spec fn disjoint(s1: nat, o1: int, n1: int, s2: nat, o2: int, n2: int) -> bool {
    s1 != s2 || o1 + n1 <= o2 || o2 + n2 <= o1
}

proof fn lemma_word_of_len(store: Map<nat, Seq<u8>>, slot: nat)
    requires
        words_are_32_bytes(store),
    ensures
        word_of(store, slot).len() == 32,
{
    if store.contains_key(slot) {
        assert(store[slot].len() == 32);
    }
}

/// Bytes written into a slot are the bytes then read from the same place.
pub proof fn law_bytes_read_back(store: Map<nat, Seq<u8>>, slot: nat, offset: int, bytes: Seq<u8>)
    requires
        words_are_32_bytes(store),
        0 <= offset,
        offset + bytes.len() <= 32,
    ensures
        bytes_at(store_write(store, slot, offset, bytes), slot, offset, bytes.len() as int)
            == bytes,
{
    lemma_word_of_len(store, slot);
    lemma_read_after_write(word_of(store, slot), offset, bytes);
}

/// A write changes no byte of storage outside the range it writes: every
/// range that shares no byte with it reads as before.
pub proof fn law_write_keeps_other_bytes(
    store: Map<nat, Seq<u8>>,
    slot: nat,
    offset: int,
    bytes: Seq<u8>,
    other_slot: nat,
    other_offset: int,
    n: int,
)
    requires
        words_are_32_bytes(store),
        0 <= offset,
        offset + bytes.len() <= 32,
        0 <= other_offset,
        0 <= n,
        other_offset + n <= 32,
        disjoint(slot, offset, bytes.len() as int, other_slot, other_offset, n),
    ensures
        bytes_at(store_write(store, slot, offset, bytes), other_slot, other_offset, n) == bytes_at(
            store,
            other_slot,
            other_offset,
            n,
        ),
{
    lemma_word_of_len(store, slot);
    if slot == other_slot {
        lemma_write_keeps_other_bytes(word_of(store, slot), offset, bytes, other_offset, n);
    }
}

/// A `B`-bit unsigned number written into storage is the number then read
/// from the same place.
pub proof fn law_uint_read_back(
    store: Map<nat, Seq<u8>>,
    slot: nat,
    offset: int,
    bits: nat,
    value: nat,
)
    requires
        words_are_32_bytes(store),
        bits % 8 == 0,
        0 <= offset,
        offset + bits / 8 <= 32,
        value < pow2(bits),
    ensures
        uint_at(uint_written(store, slot, offset, bits, value), slot, offset, bits) == value,
{
    let n = bits / 8;
    lemma_pow256_is_pow2(n);
    assert(8 * n == bits);
    lemma_be_roundtrip(value, n);
    law_bytes_read_back(store, slot, offset, be_encode(value, n));
}

/// Writing back the unsigned number just read from storage changes no word
/// of storage.
pub proof fn law_uint_write_back_changes_nothing(
    store: Map<nat, Seq<u8>>,
    slot: nat,
    offset: int,
    bits: nat,
    other: nat,
)
    requires
        words_are_32_bytes(store),
        bits % 8 == 0,
        0 <= offset,
        offset + bits / 8 <= 32,
    ensures
        word_of(
            uint_written(store, slot, offset, bits, uint_at(store, slot, offset, bits)),
            other,
        ) == word_of(store, other),
{
    let n = bits / 8;
    let w = word_of(store, slot);
    lemma_word_of_len(store, slot);
    let old_bytes = bytes_at(store, slot, offset, n as int);
    lemma_be_encode_of_value(old_bytes);
    if other == slot {
        assert(write_bytes(w, offset, old_bytes) =~= w);
    }
}

/// A block number written into storage is the number then read from the same place.
pub proof fn law_block_number_read_back(
    store: Map<nat, Seq<u8>>,
    slot: nat,
    offset: int,
    value: u64,
)
    requires
        words_are_32_bytes(store),
        0 <= offset,
        offset + 8 <= 32,
    ensures
        be_value(bytes_at(store_write(store, slot, offset, be_encode(value as nat, 8)), slot, offset, 8))
            == value,
{
    lemma_pow256_eight();
    lemma_be_roundtrip(value as nat, 8);
    law_bytes_read_back(store, slot, offset, be_encode(value as nat, 8));
}

/// A `bool` written into storage is the `bool` then read from the same place,
/// and any nonzero byte reads as `true`.
pub proof fn law_bool_read_back(store: Map<nat, Seq<u8>>, slot: nat, offset: int, value: bool)
    requires
        words_are_32_bytes(store),
        0 <= offset < 32,
    ensures
        (word_of(store_write(store, slot, offset, seq![bool_byte(value)]), slot)[offset] != 0)
            == value,
{
    law_bytes_read_back(store, slot, offset, seq![bool_byte(value)]);
    assert(bytes_at(store_write(store, slot, offset, seq![bool_byte(value)]), slot, offset, 1)[0]
        == word_of(store_write(store, slot, offset, seq![bool_byte(value)]), slot)[offset]);
}

/// Every byte of a slot that was never written reads as zero, and so does
/// every number kept in it.
pub proof fn law_unwritten_slot_is_zero(store: Map<nat, Seq<u8>>, slot: nat, offset: int, n: int)
    requires
        !store.contains_key(slot),
        0 <= offset,
        0 <= n,
        offset + n <= 32,
    ensures
        bytes_at(store, slot, offset, n) == Seq::new(n as nat, |i: int| 0u8),
        be_value(bytes_at(store, slot, offset, n)) == 0,
{
    assert(bytes_at(store, slot, offset, n) =~= Seq::new(n as nat, |i: int| 0u8));
    lemma_be_value_zeros(bytes_at(store, slot, offset, n));
}

/// An unsigned accessor that is coherent with storage reads the number that
/// storage holds, and stays coherent through every write that does not touch
/// its bytes.
pub proof fn law_uint_coherence<const B: usize, const L: usize>(
    a: StorageUint<B, L>,
    store: Map<nat, Seq<u8>>,
    slot: nat,
    offset: int,
    bytes: Seq<u8>,
)
    requires
        a.is_coherent(store),
        words_are_32_bytes(store),
        a.offset() + B / 8 <= 32,
        0 <= offset,
        offset + bytes.len() <= 32,
        disjoint(slot, offset, bytes.len() as int, a.slot(), a.offset() as int, (B / 8) as int),
    ensures
        a.reads(store) == uint_at(store, a.slot(), a.offset() as int, B as nat),
        a.is_coherent(store_write(store, slot, offset, bytes)),
{
    law_write_keeps_other_bytes(
        store,
        slot,
        offset,
        bytes,
        a.slot(),
        a.offset() as int,
        (B / 8) as int,
    );
}

/// An unsigned accessor whose remembered value was just written is coherent
/// with the storage it was written to.
pub proof fn law_uint_set_is_coherent<const B: usize, const L: usize>(
    a: StorageUint<B, L>,
    store: Map<nat, Seq<u8>>,
    value: nat,
)
    requires
        words_are_32_bytes(store),
        a.cached() == Some(value),
        B % 8 == 0,
        a.offset() + B / 8 <= 32,
        value < pow2(B as nat),
    ensures
        a.is_coherent(uint_written(store, a.slot(), a.offset() as int, B as nat, value)),
{
    law_uint_read_back(store, a.slot(), a.offset() as int, B as nat, value);
}

/// A signed accessor that is coherent with storage reads the bit pattern that
/// storage holds, and stays coherent through every write that does not touch
/// its bytes.
pub proof fn law_signed_coherence<const B: usize, const L: usize>(
    a: StorageSigned<B, L>,
    store: Map<nat, Seq<u8>>,
    slot: nat,
    offset: int,
    bytes: Seq<u8>,
)
    requires
        a.is_coherent(store),
        words_are_32_bytes(store),
        a.offset() + B / 8 <= 32,
        0 <= offset,
        offset + bytes.len() <= 32,
        disjoint(slot, offset, bytes.len() as int, a.slot(), a.offset() as int, (B / 8) as int),
    ensures
        a.reads(store) == uint_at(store, a.slot(), a.offset() as int, B as nat),
        a.is_coherent(store_write(store, slot, offset, bytes)),
{
    law_write_keeps_other_bytes(
        store,
        slot,
        offset,
        bytes,
        a.slot(),
        a.offset() as int,
        (B / 8) as int,
    );
}

/// A signed accessor whose remembered bit pattern was just written is
/// coherent with the storage it was written to.
pub proof fn law_signed_set_is_coherent<const B: usize, const L: usize>(
    a: StorageSigned<B, L>,
    store: Map<nat, Seq<u8>>,
    raw: nat,
)
    requires
        words_are_32_bytes(store),
        a.cached() == Some(raw),
        B % 8 == 0,
        a.offset() + B / 8 <= 32,
        raw < pow2(B as nat),
    ensures
        a.is_coherent(uint_written(store, a.slot(), a.offset() as int, B as nat, raw)),
{
    law_uint_read_back(store, a.slot(), a.offset() as int, B as nat, raw);
}

/// A byte-array accessor that is coherent with storage reads the bytes that
/// storage holds, is coherent after its own write, and stays coherent through
/// every write that does not touch its bytes.
pub proof fn law_fixed_bytes_coherence<const N: usize>(
    a: StorageFixedBytes<N>,
    store: Map<nat, Seq<u8>>,
    slot: nat,
    offset: int,
    bytes: Seq<u8>,
)
    requires
        words_are_32_bytes(store),
        a.offset() + N <= 32,
        0 <= offset,
        offset + bytes.len() <= 32,
    ensures
        a.is_coherent(store) ==> a.reads(store) == bytes_at(
            store,
            a.slot(),
            a.offset() as int,
            N as int,
        ),
        a.is_coherent(store) && disjoint(
            slot,
            offset,
            bytes.len() as int,
            a.slot(),
            a.offset() as int,
            N as int,
        ) ==> a.is_coherent(store_write(store, slot, offset, bytes)),
        (slot == a.slot() && offset == a.offset() && bytes.len() == N && a.cached() == Some(bytes))
            ==> a.is_coherent(store_write(store, slot, offset, bytes)),
{
    if disjoint(slot, offset, bytes.len() as int, a.slot(), a.offset() as int, N as int) {
        law_write_keeps_other_bytes(store, slot, offset, bytes, a.slot(), a.offset() as int, N as int);
    }
    law_bytes_read_back(store, slot, offset, bytes);
}

/// An address accessor that is coherent with storage reads the address that
/// storage holds, is coherent after its own write, and stays coherent through
/// every write that does not touch its bytes.
pub proof fn law_address_coherence(
    a: StorageAddress,
    store: Map<nat, Seq<u8>>,
    slot: nat,
    offset: int,
    bytes: Seq<u8>,
)
    requires
        words_are_32_bytes(store),
        a.offset() + 20 <= 32,
        0 <= offset,
        offset + bytes.len() <= 32,
    ensures
        a.is_coherent(store) ==> a.reads(store) == bytes_at(store, a.slot(), a.offset() as int, 20),
        a.is_coherent(store) && disjoint(
            slot,
            offset,
            bytes.len() as int,
            a.slot(),
            a.offset() as int,
            20,
        ) ==> a.is_coherent(store_write(store, slot, offset, bytes)),
        (slot == a.slot() && offset == a.offset() && bytes.len() == 20 && a.cached() == Some(bytes))
            ==> a.is_coherent(store_write(store, slot, offset, bytes)),
{
    if disjoint(slot, offset, bytes.len() as int, a.slot(), a.offset() as int, 20) {
        law_write_keeps_other_bytes(store, slot, offset, bytes, a.slot(), a.offset() as int, 20);
    }
    law_bytes_read_back(store, slot, offset, bytes);
}

/// A `bool` accessor that is coherent with storage reads the `bool` that
/// storage holds, is coherent after its own write, and stays coherent through
/// every write that does not touch its byte.
pub proof fn law_bool_coherence(
    a: StorageBool,
    store: Map<nat, Seq<u8>>,
    slot: nat,
    offset: int,
    bytes: Seq<u8>,
    value: bool,
)
    requires
        words_are_32_bytes(store),
        a.offset() < 32,
        0 <= offset,
        offset + bytes.len() <= 32,
    ensures
        a.is_coherent(store) ==> a.reads(store) == (word_of(store, a.slot())[a.offset() as int]
            != 0),
        a.is_coherent(store) && disjoint(
            slot,
            offset,
            bytes.len() as int,
            a.slot(),
            a.offset() as int,
            1,
        ) ==> a.is_coherent(store_write(store, slot, offset, bytes)),
        a.cached() == Some(value) ==> a.is_coherent(
            store_write(store, a.slot(), a.offset() as int, seq![bool_byte(value)]),
        ),
{
    lemma_word_of_len(store, a.slot());
    if disjoint(slot, offset, bytes.len() as int, a.slot(), a.offset() as int, 1) {
        law_write_keeps_other_bytes(store, slot, offset, bytes, a.slot(), a.offset() as int, 1);
        let after = store_write(store, slot, offset, bytes);
        lemma_word_of_len(after, a.slot());
        assert(bytes_at(after, a.slot(), a.offset() as int, 1)[0] == word_of(after, a.slot())[a.offset() as int]);
        assert(bytes_at(store, a.slot(), a.offset() as int, 1)[0] == word_of(store, a.slot())[a.offset() as int]);
    }
    law_bool_read_back(store, a.slot(), a.offset() as int, value);
}

/// A block-number accessor that is coherent with storage reads the number
/// that storage holds, is coherent after its own write, and stays coherent
/// through every write that does not touch its bytes.
pub proof fn law_block_number_coherence(
    a: StorageBlockNumber,
    store: Map<nat, Seq<u8>>,
    slot: nat,
    offset: int,
    bytes: Seq<u8>,
    value: u64,
)
    requires
        words_are_32_bytes(store),
        a.offset() + 8 <= 32,
        0 <= offset,
        offset + bytes.len() <= 32,
    ensures
        a.is_coherent(store) ==> a.reads(store) == be_value(
            bytes_at(store, a.slot(), a.offset() as int, 8),
        ),
        a.is_coherent(store) && disjoint(
            slot,
            offset,
            bytes.len() as int,
            a.slot(),
            a.offset() as int,
            8,
        ) ==> a.is_coherent(store_write(store, slot, offset, bytes)),
        a.cached() == Some(value) ==> a.is_coherent(
            store_write(store, a.slot(), a.offset() as int, be_encode(value as nat, 8)),
        ),
{
    if disjoint(slot, offset, bytes.len() as int, a.slot(), a.offset() as int, 8) {
        law_write_keeps_other_bytes(store, slot, offset, bytes, a.slot(), a.offset() as int, 8);
    }
    law_block_number_read_back(store, a.slot(), a.offset() as int, value);
}

/// A block-hash accessor that is coherent with storage reads the word that
/// storage holds, is coherent after its own write, and stays coherent through
/// every write to another slot.
pub proof fn law_block_hash_coherence(
    a: StorageBlockHash,
    store: Map<nat, Seq<u8>>,
    slot: nat,
    word: Seq<u8>,
)
    ensures
        a.is_coherent(store) ==> a.reads(store) == word_of(store, a.slot()),
        a.is_coherent(store) && slot != a.slot() ==> a.is_coherent(store.insert(slot, word)),
        a.cached() == Some(word) && slot == a.slot() ==> a.is_coherent(store.insert(slot, word)),
{
}

/// An unsigned accessor that remembers a value gives that value, whatever storage
/// now holds; only one that remembers nothing reads storage.
pub proof fn law_uint_remembered_value_wins<const B: usize, const L: usize>(
    a: StorageUint<B, L>,
    store1: Map<nat, Seq<u8>>,
    store2: Map<nat, Seq<u8>>,
)
    ensures
        a.cached() matches Some(v) ==> a.reads(store1) == v,
        a.cached() is Some ==> a.reads(store1) == a.reads(store2),
        a.cached() is None ==> a.reads(store1) == uint_at(store1, a.slot(), a.offset() as int, B as nat),
{
}

/// A signed accessor that remembers a value gives that value, whatever storage
/// now holds; only one that remembers nothing reads storage.
pub proof fn law_signed_remembered_value_wins<const B: usize, const L: usize>(
    a: StorageSigned<B, L>,
    store1: Map<nat, Seq<u8>>,
    store2: Map<nat, Seq<u8>>,
)
    ensures
        a.cached() matches Some(v) ==> a.reads(store1) == v,
        a.cached() is Some ==> a.reads(store1) == a.reads(store2),
        a.cached() is None ==> a.reads(store1) == uint_at(store1, a.slot(), a.offset() as int, B as nat),
{
}

/// A byte-array accessor that remembers a value gives that value, whatever storage
/// now holds; only one that remembers nothing reads storage.
pub proof fn law_fixed_bytes_remembered_value_wins<const N: usize>(
    a: StorageFixedBytes<N>,
    store1: Map<nat, Seq<u8>>,
    store2: Map<nat, Seq<u8>>,
)
    ensures
        a.cached() matches Some(v) ==> a.reads(store1) == v,
        a.cached() is Some ==> a.reads(store1) == a.reads(store2),
        a.cached() is None ==> a.reads(store1) == bytes_at(store1, a.slot(), a.offset() as int, N as int),
{
}

/// A `bool` accessor that remembers a value gives that value, whatever storage
/// now holds; only one that remembers nothing reads storage.
pub proof fn law_bool_remembered_value_wins(
    a: StorageBool,
    store1: Map<nat, Seq<u8>>,
    store2: Map<nat, Seq<u8>>,
)
    ensures
        a.cached() matches Some(v) ==> a.reads(store1) == v,
        a.cached() is Some ==> a.reads(store1) == a.reads(store2),
        a.cached() is None ==> a.reads(store1) == (word_of(store1, a.slot())[a.offset() as int] != 0),
{
}

/// An address accessor that remembers a value gives that value, whatever storage
/// now holds; only one that remembers nothing reads storage.
pub proof fn law_address_remembered_value_wins(
    a: StorageAddress,
    store1: Map<nat, Seq<u8>>,
    store2: Map<nat, Seq<u8>>,
)
    ensures
        a.cached() matches Some(v) ==> a.reads(store1) == v,
        a.cached() is Some ==> a.reads(store1) == a.reads(store2),
        a.cached() is None ==> a.reads(store1) == bytes_at(store1, a.slot(), a.offset() as int, 20),
{
}

/// A block-number accessor that remembers a value gives that value, whatever storage
/// now holds; only one that remembers nothing reads storage.
pub proof fn law_block_number_remembered_value_wins(
    a: StorageBlockNumber,
    store1: Map<nat, Seq<u8>>,
    store2: Map<nat, Seq<u8>>,
)
    ensures
        a.cached() matches Some(v) ==> a.reads(store1) == v as nat,
        a.cached() is Some ==> a.reads(store1) == a.reads(store2),
        a.cached() is None ==> a.reads(store1) == be_value(bytes_at(store1, a.slot(), a.offset() as int, 8)),
{
}

/// A block-hash accessor that remembers a value gives that value, whatever storage
/// now holds; only one that remembers nothing reads storage.
pub proof fn law_block_hash_remembered_value_wins(
    a: StorageBlockHash,
    store1: Map<nat, Seq<u8>>,
    store2: Map<nat, Seq<u8>>,
)
    ensures
        a.cached() matches Some(v) ==> a.reads(store1) == v,
        a.cached() is Some ==> a.reads(store1) == a.reads(store2),
        a.cached() is None ==> a.reads(store1) == word_of(store1, a.slot()),
{
}

} // verus!
