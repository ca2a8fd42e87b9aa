//! Contract storage: 32-byte words numbered by 256-bit slots, every one of
//! them zero until written, and the reads and writes of values that sit
//! inside one word, `offset` bytes from its left.
use crate::bytes::{be_encode, be_value, lemma_be_value_bound, read_bytes, write_bytes, zero_word};
use crate::primitives::{
    lemma_pow256_is_pow2, uint_bytes, uint_limbs, FixedBytes, Signed, Uint, B256, U256,
};
use vstd::arithmetic::power2::pow2;
use vstd::prelude::*;

verus! {

/// The word that `slot` holds in `store`: the zero word where none was written.
pub open spec fn word_of(store: Map<nat, Seq<u8>>, slot: nat) -> Seq<u8> {
    if store.contains_key(slot) {
        store[slot]
    } else {
        zero_word()
    }
}

/// Every word of `store` has 32 bytes.
pub open spec fn words_are_32_bytes(store: Map<nat, Seq<u8>>) -> bool {
    forall|slot: nat| store.contains_key(slot) ==> (#[trigger] store[slot]).len() == 32
}

/// `store` after the bytes of `slot` that start `offset` bytes from the left
/// are replaced by `bytes`.
pub open spec fn store_write(
    store: Map<nat, Seq<u8>>,
    slot: nat,
    offset: int,
    bytes: Seq<u8>,
) -> Map<nat, Seq<u8>> {
    store.insert(slot, write_bytes(word_of(store, slot), offset, bytes))
}

/// The `n` bytes of `slot` in `store` that start `offset` bytes from the left.
pub open spec fn bytes_at(store: Map<nat, Seq<u8>>, slot: nat, offset: int, n: int) -> Seq<u8> {
    read_bytes(word_of(store, slot), offset, n)
}

/// The unsigned number whose `bits / 8` big-endian bytes start `offset` bytes
/// from the left of `slot` in `store`.
pub open spec fn uint_at(store: Map<nat, Seq<u8>>, slot: nat, offset: int, bits: nat) -> nat {
    be_value(bytes_at(store, slot, offset, (bits / 8) as int))
}

/// `store` after the unsigned number `value` is written as `bits / 8`
/// big-endian bytes that start `offset` bytes from the left of `slot`.
pub open spec fn uint_written(
    store: Map<nat, Seq<u8>>,
    slot: nat,
    offset: int,
    bits: nat,
    value: nat,
) -> Map<nat, Seq<u8>> {
    store_write(store, slot, offset, be_encode(value, bits / 8))
}

/// The words of contract storage that have been written, by slot.
pub struct StorageCache {
    slots: Vec<U256>,
    words: Vec<[u8; 32]>,
    contents: Ghost<Map<nat, Seq<u8>>>,
}

impl View for StorageCache {
    type V = Map<nat, Seq<u8>>;

    closed spec fn view(&self) -> Map<nat, Seq<u8>> {
        self.contents@
    }
}

impl StorageCache {
    /// The slots and words agree with the contents, one entry per slot.
    pub closed spec fn wf(&self) -> bool {
        &&& self.slots.len() == self.words.len()
        &&& forall|i: int, j: int|
            0 <= i < j < self.slots.len() ==> self.slots@[i]@ != self.slots@[j]@
        &&& forall|i: int|
            0 <= i < self.slots.len() ==> {
                &&& self.contents@.contains_key(#[trigger] self.slots@[i]@)
                &&& self.contents@[self.slots@[i]@] == self.words@[i]@
            }
        &&& forall|k: nat|
            self.contents@.contains_key(k) ==> exists|i: int|
                0 <= i < self.slots.len() && #[trigger] self.slots@[i]@ == k
        &&& words_are_32_bytes(self.contents@)
    }

    /// Every word of a well-formed storage has 32 bytes.
    pub proof fn lemma_words_len(&self)
        requires
            self.wf(),
        ensures
            words_are_32_bytes(self@),
            forall|slot: nat| (#[trigger] word_of(self@, slot)).len() == 32,
    {
    }

    /// Storage in which every slot holds the zero word.
    pub fn new() -> (r: Self)
        ensures
            r.wf(),
            r@ == Map::<nat, Seq<u8>>::empty(),
    {
        StorageCache { slots: Vec::new(), words: Vec::new(), contents: Ghost(Map::empty()) }
    }

    /// The index of the entry for `key`, if any.
    fn find(&self, key: &U256) -> (r: Option<usize>)
        requires
            self.wf(),
        ensures
            r matches Some(i) ==> i < self.slots.len() && self.slots@[i as int]@ == key@,
            r is None ==> !self@.contains_key(key@),
    {
        let mut i: usize = 0;
        while i < self.slots.len()
            invariant
                self.wf(),
                i <= self.slots.len(),
                forall|j: int| 0 <= j < i ==> self.slots@[j]@ != key@,
            decreases self.slots.len() - i,
        {
            if self.slots[i].same_value(key) {
                return Some(i);
            }
            i = i + 1;
        }
        None
    }

    /// The word that slot `key` holds.
    pub fn get_word(&self, key: &U256) -> (r: B256)
        requires
            self.wf(),
        ensures
            r@ == word_of(self@, key@),
    {
        match self.find(key) {
            Some(i) => FixedBytes(self.words[i]),
            None => {
                let r = FixedBytes([0u8; 32]);
                assert(r@ =~= zero_word());
                r
            },
        }
    }

    /// Makes slot `key` hold `value`.
    pub fn set_word(&mut self, key: &U256, value: B256)
        requires
            old(self).wf(),
        ensures
            final(self).wf(),
            final(self)@ == old(self)@.insert(key@, value@),
    {
        let ghost old_contents = self.contents@;
        let ghost old_slots = self.slots@;
        match self.find(key) {
            Some(i) => {
                self.words.set(i, value.0);
                self.contents = Ghost(old_contents.insert(key@, value@));
                assert forall|k: nat| self.contents@.contains_key(k) implies exists|j: int|
                    0 <= j < self.slots.len() && #[trigger] self.slots@[j]@ == k by {
                    if k != key@ {
                        assert(old_contents.contains_key(k));
                    }
                }
            },
            None => {
                self.slots.push(*key);
                self.words.push(value.0);
                self.contents = Ghost(old_contents.insert(key@, value@));
                assert forall|k: nat| self.contents@.contains_key(k) implies exists|j: int|
                    0 <= j < self.slots.len() && #[trigger] self.slots@[j]@ == k by {
                    if k != key@ {
                        assert(old_contents.contains_key(k));
                        let j = choose|j: int|
                            0 <= j < old_slots.len() && #[trigger] old_slots[j]@ == k;
                        assert(self.slots@[j] == old_slots[j]);
                    } else {
                        assert(self.slots@[self.slots.len() - 1]@ == k);
                    }
                }
            },
        }
    }

    /// The `N` bytes of slot `key` that start `offset` bytes from the left.
    pub fn get<const N: usize>(&self, key: &U256, offset: usize) -> (r: FixedBytes<N>)
        requires
            self.wf(),
            N + offset <= 32,
        ensures
            r@ == read_bytes(word_of(self@, key@), offset as int, N as int),
    {
        let word = self.get_word(key);
        proof {
            self.lemma_words_len();
        }
        let mut out = [0u8; N];
        let mut i: usize = 0;
        while i < N
            invariant
                i <= N,
                N + offset <= 32,
                word@.len() == 32,
                out@.len() == N,
                forall|j: int| 0 <= j < i ==> out@[j] == word@[offset + j],
            decreases N - i,
        {
            out[i] = word.0[offset + i];
            i = i + 1;
        }
        let r = FixedBytes(out);
        assert(r@ =~= read_bytes(word@, offset as int, N as int));
        r
    }

    /// Replaces the `N` bytes of slot `key` that start `offset` bytes from the
    /// left by `value`.
    pub fn set<const N: usize>(&mut self, key: &U256, offset: usize, value: FixedBytes<N>)
        requires
            old(self).wf(),
            N + offset <= 32,
        ensures
            final(self).wf(),
            final(self)@ == store_write(old(self)@, key@, offset as int, value@),
    {
        let word = self.get_word(key);
        let ghost old_word = word@;
        proof {
            self.lemma_words_len();
        }
        let mut bytes = word.0;
        let mut i: usize = 0;
        while i < N
            invariant
                i <= N,
                N + offset <= 32,
                old_word.len() == 32,
                bytes@.len() == 32,
                value@.len() == N,
                forall|j: int|
                    0 <= j < 32 ==> #[trigger] bytes@[j] == (if offset <= j < offset + i {
                        value@[j - offset]
                    } else {
                        old_word[j]
                    }),
            decreases N - i,
        {
            bytes[offset + i] = value.0[i];
            i = i + 1;
        }
        let new_word = FixedBytes(bytes);
        assert(new_word@ =~= write_bytes(old_word, offset as int, value@));
        self.set_word(key, new_word);
    }

    /// The byte of slot `key` that stands `offset` bytes from the left.
    pub fn get_byte(&self, key: &U256, offset: usize) -> (r: u8)
        requires
            self.wf(),
            offset < 32,
        ensures
            r == word_of(self@, key@)[offset as int],
    {
        let b = self.get::<1>(key, offset);
        b.0[0]
    }

    /// Makes the byte of slot `key` that stands `offset` bytes from the left `value`.
    pub fn set_byte(&mut self, key: &U256, offset: usize, value: u8)
        requires
            old(self).wf(),
            offset < 32,
        ensures
            final(self).wf(),
            final(self)@ == store_write(old(self)@, key@, offset as int, seq![value]),
    {
        let b = FixedBytes([value]);
        assert(b@ =~= seq![value]);
        self.set::<1>(key, offset, b);
    }

    /// The `B`-bit unsigned integer whose `B / 8` big-endian bytes start
    /// `offset` bytes from the left of slot `key`.
    pub fn get_uint<const B: usize, const L: usize>(&self, key: &U256, offset: usize) -> (r: Uint<
        B,
        L,
    >)
        requires
            self.wf(),
            L == uint_limbs(B as nat),
            B / 8 + offset <= 32,
        ensures
            r@ == uint_at(self@, key@, offset as int, B as nat),
    {
        let word = self.get_word(key);
        proof {
            self.lemma_words_len();
        }
        let n: usize = B / 8;
        let mut bytes: Vec<u8> = Vec::new();
        let mut i: usize = 0;
        while i < n
            invariant
                n == B / 8,
                i <= n,
                n + offset <= 32,
                word@.len() == 32,
                bytes@ =~= read_bytes(word@, offset as int, i as int),
            decreases n - i,
        {
            bytes.push(word.0[offset + i]);
            i = i + 1;
        }
        proof {
            lemma_be_value_bound(bytes@);
            lemma_pow256_is_pow2(n as nat);
            if 8 * (n as nat) < B {
                vstd::arithmetic::power2::lemma_pow2_strictly_increases(8 * (n as nat), B as nat);
            }
        }
        match Uint::<B, L>::from_be_slice(bytes.as_slice()) {
            Some(u) => u,
            None => {
                assert(false);
                Uint::zero()
            },
        }
    }

    /// Writes the `B`-bit unsigned integer `value` as `B / 8` big-endian bytes
    /// that start `offset` bytes from the left of slot `key`.
    pub fn set_uint<const B: usize, const L: usize>(
        &mut self,
        key: &U256,
        offset: usize,
        value: Uint<B, L>,
    )
        requires
            old(self).wf(),
            L == uint_limbs(B as nat),
            B % 8 == 0,
            B / 8 + offset <= 32,
        ensures
            final(self).wf(),
            final(self)@ == uint_written(old(self)@, key@, offset as int, B as nat, value@),
    {
        let encoded = value.to_be_bytes_vec();
        let word = self.get_word(key);
        let ghost old_word = word@;
        proof {
            self.lemma_words_len();
            assert(uint_bytes(B as nat) == B / 8);
        }
        let n: usize = B / 8;
        let mut bytes = word.0;
        let mut i: usize = 0;
        while i < n
            invariant
                n == B / 8,
                i <= n,
                n + offset <= 32,
                old_word.len() == 32,
                bytes@.len() == 32,
                encoded@.len() == n,
                forall|j: int|
                    0 <= j < 32 ==> #[trigger] bytes@[j] == (if offset <= j < offset + i {
                        encoded@[j - offset]
                    } else {
                        old_word[j]
                    }),
            decreases n - i,
        {
            bytes[offset + i] = encoded[i];
            i = i + 1;
        }
        let new_word = FixedBytes(bytes);
        assert(new_word@ =~= write_bytes(old_word, offset as int, encoded@));
        self.set_word(key, new_word);
    }

    /// The `B`-bit signed integer whose bit pattern `get_uint` reads.
    pub fn get_signed<const B: usize, const L: usize>(&self, key: &U256, offset: usize) -> (r:
        Signed<B, L>)
        requires
            self.wf(),
            L == uint_limbs(B as nat),
            B / 8 + offset <= 32,
        ensures
            r.raw_value() == uint_at(self@, key@, offset as int, B as nat),
    {
        Signed::from_raw(self.get_uint::<B, L>(key, offset))
    }

    /// Writes the bit pattern of `value` as `set_uint` does.
    pub fn set_signed<const B: usize, const L: usize>(
        &mut self,
        key: &U256,
        offset: usize,
        value: Signed<B, L>,
    )
        requires
            old(self).wf(),
            L == uint_limbs(B as nat),
            B % 8 == 0,
            B / 8 + offset <= 32,
        ensures
            final(self).wf(),
            final(self)@ == uint_written(old(self)@, key@, offset as int, B as nat, value.raw_value()),
    {
        self.set_uint::<B, L>(key, offset, value.into_raw());
    }
}

} // verus!
