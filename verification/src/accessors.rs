//! Accessors for single values in storage.
//!
//! Each accessor names a place in storage (a slot, and for values narrower
//! than a word, the offset of their first byte from the left of the word) and
//! keeps a cache of the value: the first `get` reads storage and remembers the
//! value, later `get`s return the remembered one, and `set` writes storage and
//! remembers what it wrote.
use crate::bytes::{be_encode, be_value, u64_from_be_bytes, u64_to_be_bytes};
use crate::cache::{
    bytes_at, store_write, uint_at, uint_written, word_of, StorageCache,
};
use crate::laws::{
    law_address_coherence, law_block_hash_coherence, law_block_number_coherence,
    law_bool_coherence, law_fixed_bytes_coherence, law_signed_set_is_coherent,
    law_uint_set_is_coherent,
};
use crate::primitives::{
    uint_limbs, Address, BlockHash, BlockNumber, FixedBytes, Signed, Uint, U256,
};
use vstd::prelude::*;

verus! {

/// Overwrites the value in a cell.
pub fn overwrite_cell<T>(cell: &mut Option<T>, value: T)
    ensures
        *final(cell) == Some(value),
    no_unwind
{
    *cell = Some(value);
}

/// Accessor for a storage-backed [`Uint`].
pub struct StorageUint<const B: usize, const L: usize> {
    slot: U256,
    offset: u8,
    cached: Option<Uint<B, L>>,
}

impl<const B: usize, const L: usize> StorageUint<B, L> {
    #[verifier::type_invariant]
    spec fn dims(self) -> bool {
        B <= 256 && L == uint_limbs(B as nat)
    }

    /// The slot that holds the value.
    pub closed spec fn slot(self) -> nat {
        self.slot@
    }

    /// How many bytes from the left of its slot the value starts.
    pub closed spec fn offset(self) -> nat {
        self.offset as nat
    }

    /// The remembered value, if any.
    pub closed spec fn cached(self) -> Option<nat> {
        match self.cached {
            Some(v) => Some(v@),
            None => None,
        }
    }

    /// The value that a `get` returns against `store`.
    pub open spec fn reads(self, store: Map<nat, Seq<u8>>) -> nat {
        match self.cached() {
            Some(v) => v,
            None => uint_at(store, self.slot(), self.offset() as int, B as nat),
        }
    }

    /// The remembered value, if any, is the one in `store`.
    pub open spec fn is_coherent(self, store: Map<nat, Seq<u8>>) -> bool {
        self.cached() is Some ==> self.cached() == Some(
            uint_at(store, self.slot(), self.offset() as int, B as nat),
        )
    }

    /// The number of bytes the value takes in its slot.
    pub fn slot_bytes() -> (r: usize)
        ensures
            r == B / 8,
    {
        B / 8
    }

    /// An accessor for the value that starts `offset` bytes from the left of `slot`.
    pub fn new(slot: U256, offset: u8) -> (r: Self)
        requires
            B <= 256,
            L == uint_limbs(B as nat),
        ensures
            r.slot() == slot@,
            r.offset() == offset,
            r.cached() is None,
    {
        StorageUint { slot, offset, cached: None }
    }

    /// Gets the underlying [`Uint`] in persistent storage.
    pub fn get(&mut self, storage: &StorageCache) -> (r: Uint<B, L>)
        requires
            storage.wf(),
            old(self).offset() + B / 8 <= 32,
        ensures
            r@ == old(self).reads(storage@),
            old(self).cached() matches Some(v) ==> r@ == v,
            old(self).cached() is None ==> r@ == uint_at(storage@, old(self).slot(), old(self).offset() as int, B as nat),
            final(self).cached() == Some(r@),
            old(self).is_coherent(storage@) ==> final(self).is_coherent(storage@),
            final(self).slot() == old(self).slot(),
            final(self).offset() == old(self).offset(),
    {
        proof {
            use_type_invariant(&*self);
        }
        match self.cached {
            Some(v) => v,
            None => {
                let v = storage.get_uint::<B, L>(&self.slot, self.offset as usize);
                overwrite_cell(&mut self.cached, v);
                v
            },
        }
    }

    /// Sets the underlying [`Uint`] in persistent storage.
    pub fn set(&mut self, storage: &mut StorageCache, value: Uint<B, L>)
        requires
            old(storage).wf(),
            B % 8 == 0,
            old(self).offset() + B / 8 <= 32,
        ensures
            final(storage).wf(),
            final(storage)@ == uint_written(
                old(storage)@,
                old(self).slot(),
                old(self).offset() as int,
                B as nat,
                value@,
            ),
            final(self).cached() == Some(value@),
            final(self).is_coherent(final(storage)@),
            final(self).slot() == old(self).slot(),
            final(self).offset() == old(self).offset(),
    {
        proof {
            use_type_invariant(&*self);
            use_type_invariant(&value);
            storage.lemma_words_len();
        }
        let ghost old_store = storage@;
        overwrite_cell(&mut self.cached, value);
        storage.set_uint::<B, L>(&self.slot, self.offset as usize, value);
        proof {
            law_uint_set_is_coherent(*self, old_store, value@);
        }
    }

    /// Sets the value from the wrapped type; the same as `set`.
    pub fn set_by_wrapped(&mut self, storage: &mut StorageCache, value: Uint<B, L>)
        requires
            old(storage).wf(),
            B % 8 == 0,
            old(self).offset() + B / 8 <= 32,
        ensures
            final(storage).wf(),
            final(storage)@ == uint_written(
                old(storage)@,
                old(self).slot(),
                old(self).offset() as int,
                B as nat,
                value@,
            ),
            final(self).cached() == Some(value@),
            final(self).is_coherent(final(storage)@),
            final(self).slot() == old(self).slot(),
            final(self).offset() == old(self).offset(),
    {
        self.set(storage, value);
    }

    /// Sets the value to zero.
    pub fn erase(&mut self, storage: &mut StorageCache)
        requires
            old(storage).wf(),
            B % 8 == 0,
            old(self).offset() + B / 8 <= 32,
        ensures
            final(storage).wf(),
            final(storage)@ == uint_written(
                old(storage)@,
                old(self).slot(),
                old(self).offset() as int,
                B as nat,
                0,
            ),
            final(self).cached() == Some(0nat),
            final(self).is_coherent(final(storage)@),
            final(self).slot() == old(self).slot(),
            final(self).offset() == old(self).offset(),
    {
        self.set(storage, Uint::zero());
    }

    /// Consumes the accessor and gives its value.
    pub fn load(self, storage: &StorageCache) -> (r: Uint<B, L>)
        requires
            storage.wf(),
            self.offset() + B / 8 <= 32,
        ensures
            r@ == self.reads(storage@),
            self.cached() matches Some(v) ==> r@ == v,
            self.cached() is None ==> r@ == uint_at(storage@, self.slot(), self.offset() as int, B as nat),
    {
        let mut a = self;
        a.get(storage)
    }
}

/// Accessor for a storage-backed [`Signed`].
pub struct StorageSigned<const B: usize, const L: usize> {
    slot: U256,
    offset: u8,
    cached: Option<Signed<B, L>>,
}

impl<const B: usize, const L: usize> StorageSigned<B, L> {
    #[verifier::type_invariant]
    spec fn dims(self) -> bool {
        L == uint_limbs(B as nat)
    }

    /// The slot that holds the value.
    pub closed spec fn slot(self) -> nat {
        self.slot@
    }

    /// How many bytes from the left of its slot the value starts.
    pub closed spec fn offset(self) -> nat {
        self.offset as nat
    }

    /// The bit pattern of the remembered value, if any.
    pub closed spec fn cached(self) -> Option<nat> {
        match self.cached {
            Some(v) => Some(v.raw_value()),
            None => None,
        }
    }

    /// The bit pattern of the value that a `get` returns against `store`.
    pub open spec fn reads(self, store: Map<nat, Seq<u8>>) -> nat {
        match self.cached() {
            Some(v) => v,
            None => uint_at(store, self.slot(), self.offset() as int, B as nat),
        }
    }

    /// The remembered value, if any, is the one in `store`.
    pub open spec fn is_coherent(self, store: Map<nat, Seq<u8>>) -> bool {
        self.cached() is Some ==> self.cached() == Some(
            uint_at(store, self.slot(), self.offset() as int, B as nat),
        )
    }

    /// The number of bytes the value takes in its slot.
    pub fn slot_bytes() -> (r: usize)
        ensures
            r == B / 8,
    {
        B / 8
    }

    /// An accessor for the value that starts `offset` bytes from the left of `slot`.
    pub fn new(slot: U256, offset: u8) -> (r: Self)
        requires
            L == uint_limbs(B as nat),
        ensures
            r.slot() == slot@,
            r.offset() == offset,
            r.cached() is None,
    {
        StorageSigned { slot, offset, cached: None }
    }

    /// Gets the underlying [`Signed`] in persistent storage.
    pub fn get(&mut self, storage: &StorageCache) -> (r: Signed<B, L>)
        requires
            storage.wf(),
            old(self).offset() + B / 8 <= 32,
        ensures
            r.raw_value() == old(self).reads(storage@),
            old(self).cached() matches Some(v) ==> r.raw_value() == v,
            old(self).cached() is None ==> r.raw_value() == uint_at(storage@, old(self).slot(), old(self).offset() as int, B as nat),
            final(self).cached() == Some(r.raw_value()),
            old(self).is_coherent(storage@) ==> final(self).is_coherent(storage@),
            final(self).slot() == old(self).slot(),
            final(self).offset() == old(self).offset(),
    {
        proof {
            use_type_invariant(&*self);
        }
        match self.cached {
            Some(v) => v,
            None => {
                let v = storage.get_signed::<B, L>(&self.slot, self.offset as usize);
                overwrite_cell(&mut self.cached, v);
                v
            },
        }
    }

    /// Sets the underlying [`Signed`] in persistent storage.
    pub fn set(&mut self, storage: &mut StorageCache, value: Signed<B, L>)
        requires
            old(storage).wf(),
            B % 8 == 0,
            old(self).offset() + B / 8 <= 32,
        ensures
            final(storage).wf(),
            final(storage)@ == uint_written(
                old(storage)@,
                old(self).slot(),
                old(self).offset() as int,
                B as nat,
                value.raw_value(),
            ),
            final(self).cached() == Some(value.raw_value()),
            final(self).is_coherent(final(storage)@),
            final(self).slot() == old(self).slot(),
            final(self).offset() == old(self).offset(),
    {
        proof {
            use_type_invariant(&*self);
            storage.lemma_words_len();
        }
        let _raw = value.into_raw();
        proof {
            use_type_invariant(&_raw);
        }
        let ghost old_store = storage@;
        overwrite_cell(&mut self.cached, value);
        storage.set_signed::<B, L>(&self.slot, self.offset as usize, value);
        proof {
            law_signed_set_is_coherent(*self, old_store, value.raw_value());
        }
    }

    /// Sets the value from the wrapped type; the same as `set`.
    pub fn set_by_wrapped(&mut self, storage: &mut StorageCache, value: Signed<B, L>)
        requires
            old(storage).wf(),
            B % 8 == 0,
            old(self).offset() + B / 8 <= 32,
        ensures
            final(storage).wf(),
            final(storage)@ == uint_written(
                old(storage)@,
                old(self).slot(),
                old(self).offset() as int,
                B as nat,
                value.raw_value(),
            ),
            final(self).cached() == Some(value.raw_value()),
            final(self).is_coherent(final(storage)@),
            final(self).slot() == old(self).slot(),
            final(self).offset() == old(self).offset(),
    {
        self.set(storage, value);
    }

    /// Sets the value to zero.
    pub fn erase(&mut self, storage: &mut StorageCache)
        requires
            old(storage).wf(),
            B % 8 == 0,
            old(self).offset() + B / 8 <= 32,
        ensures
            final(storage).wf(),
            final(storage)@ == uint_written(
                old(storage)@,
                old(self).slot(),
                old(self).offset() as int,
                B as nat,
                0,
            ),
            final(self).cached() == Some(0nat),
            final(self).is_coherent(final(storage)@),
            final(self).slot() == old(self).slot(),
            final(self).offset() == old(self).offset(),
    {
        self.set(storage, Signed::zero());
    }

    /// Consumes the accessor and gives its value.
    pub fn load(self, storage: &StorageCache) -> (r: Signed<B, L>)
        requires
            storage.wf(),
            self.offset() + B / 8 <= 32,
        ensures
            r.raw_value() == self.reads(storage@),
            self.cached() matches Some(v) ==> r.raw_value() == v,
            self.cached() is None ==> r.raw_value() == uint_at(storage@, self.slot(), self.offset() as int, B as nat),
    {
        let mut a = self;
        a.get(storage)
    }
}

/// Accessor for a storage-backed [`FixedBytes`].
pub struct StorageFixedBytes<const N: usize> {
    slot: U256,
    offset: u8,
    cached: Option<FixedBytes<N>>,
}

impl<const N: usize> StorageFixedBytes<N> {
    /// The slot that holds the value.
    pub closed spec fn slot(self) -> nat {
        self.slot@
    }

    /// How many bytes from the left of its slot the value starts.
    pub closed spec fn offset(self) -> nat {
        self.offset as nat
    }

    /// The remembered value, if any.
    pub closed spec fn cached(self) -> Option<Seq<u8>> {
        match self.cached {
            Some(v) => Some(v@),
            None => None,
        }
    }

    /// The value that a `get` returns against `store`.
    pub open spec fn reads(self, store: Map<nat, Seq<u8>>) -> Seq<u8> {
        match self.cached() {
            Some(v) => v,
            None => bytes_at(store, self.slot(), self.offset() as int, N as int),
        }
    }

    /// The remembered value, if any, is the one in `store`.
    pub open spec fn is_coherent(self, store: Map<nat, Seq<u8>>) -> bool {
        self.cached() is Some ==> self.cached() == Some(
            bytes_at(store, self.slot(), self.offset() as int, N as int),
        )
    }

    /// The number of bytes the value takes in its slot.
    pub fn slot_bytes() -> (r: usize)
        ensures
            r == N,
    {
        N
    }

    /// An accessor for the value that starts `offset` bytes from the left of `slot`.
    pub fn new(slot: U256, offset: u8) -> (r: Self)
        ensures
            r.slot() == slot@,
            r.offset() == offset,
            r.cached() is None,
    {
        StorageFixedBytes { slot, offset, cached: None }
    }

    /// Gets the underlying [`FixedBytes`] in persistent storage.
    pub fn get(&mut self, storage: &StorageCache) -> (r: FixedBytes<N>)
        requires
            storage.wf(),
            old(self).offset() + N <= 32,
        ensures
            r@ == old(self).reads(storage@),
            old(self).cached() matches Some(v) ==> r@ == v,
            old(self).cached() is None ==> r@ == bytes_at(storage@, old(self).slot(), old(self).offset() as int, N as int),
            final(self).cached() == Some(r@),
            old(self).is_coherent(storage@) ==> final(self).is_coherent(storage@),
            final(self).slot() == old(self).slot(),
            final(self).offset() == old(self).offset(),
    {
        match self.cached {
            Some(v) => v,
            None => {
                let v = storage.get::<N>(&self.slot, self.offset as usize);
                overwrite_cell(&mut self.cached, v);
                v
            },
        }
    }

    /// Sets the underlying [`FixedBytes`] in persistent storage.
    pub fn set(&mut self, storage: &mut StorageCache, value: FixedBytes<N>)
        requires
            old(storage).wf(),
            old(self).offset() + N <= 32,
        ensures
            final(storage).wf(),
            final(storage)@ == store_write(
                old(storage)@,
                old(self).slot(),
                old(self).offset() as int,
                value@,
            ),
            final(self).cached() == Some(value@),
            final(self).is_coherent(final(storage)@),
            final(self).slot() == old(self).slot(),
            final(self).offset() == old(self).offset(),
    {
        proof {
            storage.lemma_words_len();
        }
        let ghost old_store = storage@;
        overwrite_cell(&mut self.cached, value);
        storage.set::<N>(&self.slot, self.offset as usize, value);
        proof {
            law_fixed_bytes_coherence(*self, old_store, self.slot(), self.offset() as int, value@);
        }
    }

    /// Sets the value from the wrapped type; the same as `set`.
    pub fn set_by_wrapped(&mut self, storage: &mut StorageCache, value: FixedBytes<N>)
        requires
            old(storage).wf(),
            old(self).offset() + N <= 32,
        ensures
            final(storage).wf(),
            final(storage)@ == store_write(
                old(storage)@,
                old(self).slot(),
                old(self).offset() as int,
                value@,
            ),
            final(self).cached() == Some(value@),
            final(self).is_coherent(final(storage)@),
            final(self).slot() == old(self).slot(),
            final(self).offset() == old(self).offset(),
    {
        self.set(storage, value);
    }

    /// Sets the value to zero bytes.
    pub fn erase(&mut self, storage: &mut StorageCache)
        requires
            old(storage).wf(),
            old(self).offset() + N <= 32,
        ensures
            final(storage).wf(),
            final(storage)@ == store_write(
                old(storage)@,
                old(self).slot(),
                old(self).offset() as int,
                Seq::new(N as nat, |i: int| 0u8),
            ),
            final(self).cached() == Some(Seq::new(N as nat, |i: int| 0u8)),
            final(self).is_coherent(final(storage)@),
            final(self).slot() == old(self).slot(),
            final(self).offset() == old(self).offset(),
    {
        self.set(storage, FixedBytes::zero());
    }

    /// Consumes the accessor and gives its value.
    pub fn load(self, storage: &StorageCache) -> (r: FixedBytes<N>)
        requires
            storage.wf(),
            self.offset() + N <= 32,
        ensures
            r@ == self.reads(storage@),
            self.cached() matches Some(v) ==> r@ == v,
            self.cached() is None ==> r@ == bytes_at(storage@, self.slot(), self.offset() as int, N as int),
    {
        let mut a = self;
        a.get(storage)
    }
}

/// The byte that stores a `bool`.
pub open spec fn bool_byte(value: bool) -> u8 {
    if value {
        1
    } else {
        0
    }
}

/// Accessor for a storage-backed [`bool`].
pub struct StorageBool {
    slot: U256,
    offset: u8,
    cached: Option<bool>,
}

impl StorageBool {
    /// The slot that holds the value.
    pub closed spec fn slot(self) -> nat {
        self.slot@
    }

    /// How many bytes from the left of its slot the value's byte stands.
    pub closed spec fn offset(self) -> nat {
        self.offset as nat
    }

    /// The remembered value, if any.
    pub closed spec fn cached(self) -> Option<bool> {
        self.cached
    }

    /// The value that a `get` returns against `store`: whether the byte is
    /// nonzero, unless a value is remembered.
    pub open spec fn reads(self, store: Map<nat, Seq<u8>>) -> bool {
        match self.cached() {
            Some(v) => v,
            None => word_of(store, self.slot())[self.offset() as int] != 0,
        }
    }

    /// The remembered value, if any, is the one in `store`.
    pub open spec fn is_coherent(self, store: Map<nat, Seq<u8>>) -> bool {
        self.cached() is Some ==> self.cached() == Some(
            word_of(store, self.slot())[self.offset() as int] != 0,
        )
    }

    /// The number of bytes the value takes in its slot.
    pub fn slot_bytes() -> (r: usize)
        ensures
            r == 1,
    {
        1
    }

    /// An accessor for the value in the byte `offset` bytes from the left of `slot`.
    pub fn new(slot: U256, offset: u8) -> (r: Self)
        ensures
            r.slot() == slot@,
            r.offset() == offset,
            r.cached() is None,
    {
        StorageBool { slot, offset, cached: None }
    }

    /// Gets the underlying [`bool`] in persistent storage.
    pub fn get(&mut self, storage: &StorageCache) -> (r: bool)
        requires
            storage.wf(),
            old(self).offset() < 32,
        ensures
            r == old(self).reads(storage@),
            old(self).cached() matches Some(v) ==> r == v,
            old(self).cached() is None ==> r == (word_of(storage@, old(self).slot())[old(self).offset() as int] != 0),
            final(self).cached() == Some(r),
            old(self).is_coherent(storage@) ==> final(self).is_coherent(storage@),
            final(self).slot() == old(self).slot(),
            final(self).offset() == old(self).offset(),
    {
        match self.cached {
            Some(v) => v,
            None => {
                let data = storage.get_byte(&self.slot, self.offset as usize);
                let v = data != 0;
                overwrite_cell(&mut self.cached, v);
                v
            },
        }
    }

    /// Sets the underlying [`bool`] in persistent storage.
    pub fn set(&mut self, storage: &mut StorageCache, value: bool)
        requires
            old(storage).wf(),
            old(self).offset() < 32,
        ensures
            final(storage).wf(),
            final(storage)@ == store_write(
                old(storage)@,
                old(self).slot(),
                old(self).offset() as int,
                seq![bool_byte(value)],
            ),
            final(self).cached() == Some(value),
            final(self).is_coherent(final(storage)@),
            final(self).slot() == old(self).slot(),
            final(self).offset() == old(self).offset(),
    {
        proof {
            storage.lemma_words_len();
        }
        let ghost old_store = storage@;
        overwrite_cell(&mut self.cached, value);
        let byte: u8 = if value {
            1
        } else {
            0
        };
        storage.set_byte(&self.slot, self.offset as usize, byte);
        proof {
            law_bool_coherence(*self, old_store, self.slot(), self.offset() as int, seq![byte], value);
        }
    }

    /// Sets the value from the wrapped type; the same as `set`.
    pub fn set_by_wrapped(&mut self, storage: &mut StorageCache, value: bool)
        requires
            old(storage).wf(),
            old(self).offset() < 32,
        ensures
            final(storage).wf(),
            final(storage)@ == store_write(
                old(storage)@,
                old(self).slot(),
                old(self).offset() as int,
                seq![bool_byte(value)],
            ),
            final(self).cached() == Some(value),
            final(self).is_coherent(final(storage)@),
            final(self).slot() == old(self).slot(),
            final(self).offset() == old(self).offset(),
    {
        self.set(storage, value);
    }

    /// Sets the value to `false`.
    pub fn erase(&mut self, storage: &mut StorageCache)
        requires
            old(storage).wf(),
            old(self).offset() < 32,
        ensures
            final(storage).wf(),
            final(storage)@ == store_write(
                old(storage)@,
                old(self).slot(),
                old(self).offset() as int,
                seq![0u8],
            ),
            final(self).cached() == Some(false),
            final(self).is_coherent(final(storage)@),
            final(self).slot() == old(self).slot(),
            final(self).offset() == old(self).offset(),
    {
        self.set(storage, false);
    }

    /// Consumes the accessor and gives its value.
    pub fn load(self, storage: &StorageCache) -> (r: bool)
        requires
            storage.wf(),
            self.offset() < 32,
        ensures
            r == self.reads(storage@),
            self.cached() matches Some(v) ==> r == v,
            self.cached() is None ==> r == (word_of(storage@, self.slot())[self.offset() as int] != 0),
    {
        let mut a = self;
        a.get(storage)
    }
}

/// Accessor for a storage-backed [`Address`].
pub struct StorageAddress {
    slot: U256,
    offset: u8,
    cached: Option<Address>,
}

impl StorageAddress {
    /// The slot that holds the value.
    pub closed spec fn slot(self) -> nat {
        self.slot@
    }

    /// How many bytes from the left of its slot the value starts.
    pub closed spec fn offset(self) -> nat {
        self.offset as nat
    }

    /// The remembered value, if any.
    pub closed spec fn cached(self) -> Option<Seq<u8>> {
        match self.cached {
            Some(v) => Some(v@),
            None => None,
        }
    }

    /// The value that a `get` returns against `store`.
    pub open spec fn reads(self, store: Map<nat, Seq<u8>>) -> Seq<u8> {
        match self.cached() {
            Some(v) => v,
            None => bytes_at(store, self.slot(), self.offset() as int, 20),
        }
    }

    /// The remembered value, if any, is the one in `store`.
    pub open spec fn is_coherent(self, store: Map<nat, Seq<u8>>) -> bool {
        self.cached() is Some ==> self.cached() == Some(
            bytes_at(store, self.slot(), self.offset() as int, 20),
        )
    }

    /// The number of bytes the value takes in its slot.
    pub fn slot_bytes() -> (r: usize)
        ensures
            r == 20,
    {
        20
    }

    /// An accessor for the value that starts `offset` bytes from the left of `slot`.
    pub fn new(slot: U256, offset: u8) -> (r: Self)
        ensures
            r.slot() == slot@,
            r.offset() == offset,
            r.cached() is None,
    {
        StorageAddress { slot, offset, cached: None }
    }

    /// Gets the underlying [`Address`] in persistent storage.
    pub fn get(&mut self, storage: &StorageCache) -> (r: Address)
        requires
            storage.wf(),
            old(self).offset() + 20 <= 32,
        ensures
            r@ == old(self).reads(storage@),
            old(self).cached() matches Some(v) ==> r@ == v,
            old(self).cached() is None ==> r@ == bytes_at(storage@, old(self).slot(), old(self).offset() as int, 20),
            final(self).cached() == Some(r@),
            old(self).is_coherent(storage@) ==> final(self).is_coherent(storage@),
            final(self).slot() == old(self).slot(),
            final(self).offset() == old(self).offset(),
    {
        match self.cached {
            Some(v) => v,
            None => {
                let v = Address(storage.get::<20>(&self.slot, self.offset as usize));
                overwrite_cell(&mut self.cached, v);
                v
            },
        }
    }

    /// Sets the underlying [`Address`] in persistent storage.
    pub fn set(&mut self, storage: &mut StorageCache, value: Address)
        requires
            old(storage).wf(),
            old(self).offset() + 20 <= 32,
        ensures
            final(storage).wf(),
            final(storage)@ == store_write(
                old(storage)@,
                old(self).slot(),
                old(self).offset() as int,
                value@,
            ),
            final(self).cached() == Some(value@),
            final(self).is_coherent(final(storage)@),
            final(self).slot() == old(self).slot(),
            final(self).offset() == old(self).offset(),
    {
        proof {
            storage.lemma_words_len();
        }
        let ghost old_store = storage@;
        overwrite_cell(&mut self.cached, value);
        storage.set::<20>(&self.slot, self.offset as usize, value.0);
        proof {
            law_address_coherence(*self, old_store, self.slot(), self.offset() as int, value@);
        }
    }

    /// Sets the value from the wrapped type; the same as `set`.
    pub fn set_by_wrapped(&mut self, storage: &mut StorageCache, value: Address)
        requires
            old(storage).wf(),
            old(self).offset() + 20 <= 32,
        ensures
            final(storage).wf(),
            final(storage)@ == store_write(
                old(storage)@,
                old(self).slot(),
                old(self).offset() as int,
                value@,
            ),
            final(self).cached() == Some(value@),
            final(self).is_coherent(final(storage)@),
            final(self).slot() == old(self).slot(),
            final(self).offset() == old(self).offset(),
    {
        self.set(storage, value);
    }

    /// Sets the value to the zero address.
    pub fn erase(&mut self, storage: &mut StorageCache)
        requires
            old(storage).wf(),
            old(self).offset() + 20 <= 32,
        ensures
            final(storage).wf(),
            final(storage)@ == store_write(
                old(storage)@,
                old(self).slot(),
                old(self).offset() as int,
                Seq::new(20, |i: int| 0u8),
            ),
            final(self).cached() == Some(Seq::new(20, |i: int| 0u8)),
            final(self).is_coherent(final(storage)@),
            final(self).slot() == old(self).slot(),
            final(self).offset() == old(self).offset(),
    {
        self.set(storage, Address::zero());
    }

    /// Consumes the accessor and gives its value.
    pub fn load(self, storage: &StorageCache) -> (r: Address)
        requires
            storage.wf(),
            self.offset() + 20 <= 32,
        ensures
            r@ == self.reads(storage@),
            self.cached() matches Some(v) ==> r@ == v,
            self.cached() is None ==> r@ == bytes_at(storage@, self.slot(), self.offset() as int, 20),
    {
        let mut a = self;
        a.get(storage)
    }
}

/// Accessor for a storage-backed [`BlockNumber`], kept as eight big-endian bytes.
pub struct StorageBlockNumber {
    slot: U256,
    offset: u8,
    cached: Option<BlockNumber>,
}

impl StorageBlockNumber {
    /// The slot that holds the value.
    pub closed spec fn slot(self) -> nat {
        self.slot@
    }

    /// How many bytes from the left of its slot the value starts.
    pub closed spec fn offset(self) -> nat {
        self.offset as nat
    }

    /// The remembered value, if any.
    pub closed spec fn cached(self) -> Option<u64> {
        self.cached
    }

    /// The value that a `get` returns against `store`.
    pub open spec fn reads(self, store: Map<nat, Seq<u8>>) -> nat {
        match self.cached() {
            Some(v) => v as nat,
            None => be_value(bytes_at(store, self.slot(), self.offset() as int, 8)),
        }
    }

    /// The remembered value, if any, is the one in `store`.
    pub open spec fn is_coherent(self, store: Map<nat, Seq<u8>>) -> bool {
        self.cached() matches Some(v) ==> v as nat == be_value(
            bytes_at(store, self.slot(), self.offset() as int, 8),
        )
    }

    /// The number of bytes the value takes in its slot.
    pub fn slot_bytes() -> (r: usize)
        ensures
            r == 8,
    {
        8
    }

    /// An accessor for the value that starts `offset` bytes from the left of `slot`.
    pub fn new(slot: U256, offset: u8) -> (r: Self)
        ensures
            r.slot() == slot@,
            r.offset() == offset,
            r.cached() is None,
    {
        StorageBlockNumber { slot, offset, cached: None }
    }

    /// Gets the underlying [`BlockNumber`] in persistent storage.
    pub fn get(&mut self, storage: &StorageCache) -> (r: BlockNumber)
        requires
            storage.wf(),
            old(self).offset() + 8 <= 32,
        ensures
            r as nat == old(self).reads(storage@),
            old(self).cached() matches Some(v) ==> r == v,
            old(self).cached() is None ==> r as nat == be_value(bytes_at(storage@, old(self).slot(), old(self).offset() as int, 8)),
            final(self).cached() == Some(r),
            old(self).is_coherent(storage@) ==> final(self).is_coherent(storage@),
            final(self).slot() == old(self).slot(),
            final(self).offset() == old(self).offset(),
    {
        match self.cached {
            Some(v) => v,
            None => {
                let data = storage.get::<8>(&self.slot, self.offset as usize);
                let v = u64_from_be_bytes(data.0);
                overwrite_cell(&mut self.cached, v);
                v
            },
        }
    }

    /// Sets the underlying [`BlockNumber`] in persistent storage.
    pub fn set(&mut self, storage: &mut StorageCache, value: BlockNumber)
        requires
            old(storage).wf(),
            old(self).offset() + 8 <= 32,
        ensures
            final(storage).wf(),
            final(storage)@ == store_write(
                old(storage)@,
                old(self).slot(),
                old(self).offset() as int,
                be_encode(value as nat, 8),
            ),
            final(self).cached() == Some(value),
            final(self).is_coherent(final(storage)@),
            final(self).slot() == old(self).slot(),
            final(self).offset() == old(self).offset(),
    {
        proof {
            storage.lemma_words_len();
        }
        let ghost old_store = storage@;
        overwrite_cell(&mut self.cached, value);
        let bytes = FixedBytes(u64_to_be_bytes(value));
        storage.set::<8>(&self.slot, self.offset as usize, bytes);
        proof {
            law_block_number_coherence(
                *self,
                old_store,
                self.slot(),
                self.offset() as int,
                bytes@,
                value,
            );
        }
    }

    /// Sets the value from the wrapped type; the same as `set`.
    pub fn set_by_wrapped(&mut self, storage: &mut StorageCache, value: BlockNumber)
        requires
            old(storage).wf(),
            old(self).offset() + 8 <= 32,
        ensures
            final(storage).wf(),
            final(storage)@ == store_write(
                old(storage)@,
                old(self).slot(),
                old(self).offset() as int,
                be_encode(value as nat, 8),
            ),
            final(self).cached() == Some(value),
            final(self).is_coherent(final(storage)@),
            final(self).slot() == old(self).slot(),
            final(self).offset() == old(self).offset(),
    {
        self.set(storage, value);
    }

    /// Sets the value to block zero.
    pub fn erase(&mut self, storage: &mut StorageCache)
        requires
            old(storage).wf(),
            old(self).offset() + 8 <= 32,
        ensures
            final(storage).wf(),
            final(storage)@ == store_write(
                old(storage)@,
                old(self).slot(),
                old(self).offset() as int,
                be_encode(0, 8),
            ),
            final(self).cached() == Some(0u64),
            final(self).is_coherent(final(storage)@),
            final(self).slot() == old(self).slot(),
            final(self).offset() == old(self).offset(),
    {
        self.set(storage, 0);
    }

    /// Consumes the accessor and gives its value.
    pub fn load(self, storage: &StorageCache) -> (r: BlockNumber)
        requires
            storage.wf(),
            self.offset() + 8 <= 32,
        ensures
            r as nat == self.reads(storage@),
            self.cached() matches Some(v) ==> r == v,
            self.cached() is None ==> r as nat == be_value(bytes_at(storage@, self.slot(), self.offset() as int, 8)),
    {
        let mut a = self;
        a.get(storage)
    }
}

/// Accessor for a storage-backed [`BlockHash`], which fills its slot.
pub struct StorageBlockHash {
    slot: U256,
    cached: Option<BlockHash>,
}

impl StorageBlockHash {
    /// The slot that holds the value.
    pub closed spec fn slot(self) -> nat {
        self.slot@
    }

    /// The remembered value, if any.
    pub closed spec fn cached(self) -> Option<Seq<u8>> {
        match self.cached {
            Some(v) => Some(v@),
            None => None,
        }
    }

    /// The value that a `get` returns against `store`.
    pub open spec fn reads(self, store: Map<nat, Seq<u8>>) -> Seq<u8> {
        match self.cached() {
            Some(v) => v,
            None => word_of(store, self.slot()),
        }
    }

    /// The remembered value, if any, is the one in `store`.
    pub open spec fn is_coherent(self, store: Map<nat, Seq<u8>>) -> bool {
        self.cached() is Some ==> self.cached() == Some(word_of(store, self.slot()))
    }

    /// An accessor for the word of `slot`; a block hash fills its slot, so
    /// the offset is not used.
    pub fn new(slot: U256, _offset: u8) -> (r: Self)
        ensures
            r.slot() == slot@,
            r.cached() is None,
    {
        StorageBlockHash { slot, cached: None }
    }

    /// Gets the underlying [`BlockHash`] in persistent storage.
    pub fn get(&mut self, storage: &StorageCache) -> (r: BlockHash)
        requires
            storage.wf(),
        ensures
            r@ == old(self).reads(storage@),
            old(self).cached() matches Some(v) ==> r@ == v,
            old(self).cached() is None ==> r@ == word_of(storage@, old(self).slot()),
            final(self).cached() == Some(r@),
            old(self).is_coherent(storage@) ==> final(self).is_coherent(storage@),
            final(self).slot() == old(self).slot(),
    {
        match self.cached {
            Some(v) => v,
            None => {
                let v = storage.get_word(&self.slot);
                overwrite_cell(&mut self.cached, v);
                v
            },
        }
    }

    /// Sets the underlying [`BlockHash`] in persistent storage.
    pub fn set(&mut self, storage: &mut StorageCache, value: BlockHash)
        requires
            old(storage).wf(),
        ensures
            final(storage).wf(),
            final(storage)@ == old(storage)@.insert(old(self).slot(), value@),
            final(self).cached() == Some(value@),
            final(self).is_coherent(final(storage)@),
            final(self).slot() == old(self).slot(),
    {
        let ghost old_store = storage@;
        overwrite_cell(&mut self.cached, value);
        storage.set_word(&self.slot, value);
        proof {
            law_block_hash_coherence(*self, old_store, self.slot(), value@);
        }
    }

    /// Sets the value from the wrapped type; the same as `set`.
    pub fn set_by_wrapped(&mut self, storage: &mut StorageCache, value: BlockHash)
        requires
            old(storage).wf(),
        ensures
            final(storage).wf(),
            final(storage)@ == old(storage)@.insert(old(self).slot(), value@),
            final(self).cached() == Some(value@),
            final(self).is_coherent(final(storage)@),
            final(self).slot() == old(self).slot(),
    {
        self.set(storage, value);
    }

    /// Sets the value to the zero hash.
    pub fn erase(&mut self, storage: &mut StorageCache)
        requires
            old(storage).wf(),
        ensures
            final(storage).wf(),
            final(storage)@ == old(storage)@.insert(old(self).slot(), Seq::new(32, |i: int| 0u8)),
            final(self).cached() == Some(Seq::new(32, |i: int| 0u8)),
            final(self).is_coherent(final(storage)@),
            final(self).slot() == old(self).slot(),
    {
        self.set(storage, FixedBytes::zero());
    }

    /// Consumes the accessor and gives its value.
    pub fn load(self, storage: &StorageCache) -> (r: BlockHash)
        requires
            storage.wf(),
        ensures
            r@ == self.reads(storage@),
            self.cached() matches Some(v) ==> r@ == v,
            self.cached() is None ==> r@ == word_of(storage@, self.slot()),
    {
        let mut a = self;
        a.get(storage)
    }
}

} // verus!
