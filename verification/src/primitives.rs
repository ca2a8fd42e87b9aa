//! The values that storage accessors read and write: fixed-width unsigned and
//! signed integers, fixed-size byte arrays and addresses.
//!
//! An unsigned integer holds the same plain data as `alloy_primitives::Uint`
//! (its 64-bit limbs, least significant first); its conversions to and from
//! big-endian bytes are made by `alloy_primitives` itself.
use crate::bytes::{be_encode, be_value, lemma_be_encode_len, pow256};
use vstd::arithmetic::power2::pow2;
use vstd::prelude::*;

verus! {

/// `2^64`, the weight of one limb.
pub open spec fn limb_base() -> nat {
    0x1_0000_0000_0000_0000
}

/// The number that the limbs `s` denote, least significant limb first.
pub open spec fn limbs_value(s: Seq<u64>) -> nat
    decreases s.len(),
{
    if s.len() == 0 {
        0
    } else {
        s[0] as nat + limb_base() * limbs_value(s.drop_first())
    }
}

/// The number of limbs of a `bits`-bit integer.
pub open spec fn uint_limbs(bits: nat) -> nat {
    (bits + 63) / 64
}

/// The number of bytes of a `bits`-bit integer in its big-endian form.
pub open spec fn uint_bytes(bits: nat) -> nat {
    (bits + 7) / 8
}

/// The two's-complement reading of the `bits`-bit pattern `raw`.
pub open spec fn signed_value(raw: nat, bits: nat) -> int {
    if bits > 0 && raw >= pow2((bits - 1) as nat) {
        raw - pow2(bits)
    } else {
        raw as int
    }
}

pub proof fn lemma_limbs_value_zero(s: Seq<u64>)
    requires
        forall|i: int| 0 <= i < s.len() ==> s[i] == 0,
    ensures
        limbs_value(s) == 0,
    decreases s.len(),
{
    if s.len() > 0 {
        lemma_limbs_value_zero(s.drop_first());
    }
}

/// Limb sequences of one length that denote the same number are the same.
pub proof fn lemma_limbs_value_injective(a: Seq<u64>, b: Seq<u64>)
    requires
        a.len() == b.len(),
        limbs_value(a) == limbs_value(b),
    ensures
        a == b,
    decreases a.len(),
{
    if a.len() > 0 {
        let ra = limbs_value(a.drop_first());
        let rb = limbs_value(b.drop_first());
        let a0 = a[0] as int;
        let b0 = b[0] as int;
        assert(a0 == b0 && ra == rb) by (nonlinear_arith)
            requires
                a0 + 0x1_0000_0000_0000_0000 * ra == b0 + 0x1_0000_0000_0000_0000 * rb,
                0 <= a0 < 0x1_0000_0000_0000_0000,
                0 <= b0 < 0x1_0000_0000_0000_0000,
                ra >= 0,
                rb >= 0,
        ;
        lemma_limbs_value_injective(a.drop_first(), b.drop_first());
        assert(a =~= b) by {
            assert forall|i: int| 0 <= i < a.len() implies a[i] == b[i] by {
                if i > 0 {
                    assert(a[i] == a.drop_first()[i - 1]);
                    assert(b[i] == b.drop_first()[i - 1]);
                }
            }
        }
    } else {
        assert(a =~= b);
    }
}

/// `256^n == 2^(8n)`.
pub proof fn lemma_pow256_is_pow2(n: nat)
    ensures
        pow256(n) == pow2(8 * n),
    decreases n,
{
    vstd::arithmetic::power2::lemma2_to64();
    if n > 0 {
        lemma_pow256_is_pow2((n - 1) as nat);
        vstd::arithmetic::power2::lemma_pow2_adds(8 * (n - 1) as nat, 8);
        assert(8 * n == 8 * (n - 1) as nat + 8);
    }
}

/// `ruint::Uint::<B, L>::try_from_be_slice`, re-exported by `alloy_primitives`:
/// the bytes read as a big-endian number, in limbs, or `None` when more than
/// `ceil(B / 8)` bytes are given or the number needs more than `B` bits.
#[verifier::external_body]
fn alloy_uint_try_from_be_slice<const B: usize, const L: usize>(bytes: &[u8]) -> (r: Option<
    [u64; L],
>)
    requires
        L == uint_limbs(B as nat),
    ensures
        r is Some <==> (bytes@.len() <= uint_bytes(B as nat) && be_value(bytes@) < pow2(B as nat)),
        r matches Some(limbs) ==> limbs_value(limbs@) == be_value(bytes@),
{
    match alloy_primitives::Uint::<B, L>::try_from_be_slice(bytes) {
        Some(u) => Some(u.into_limbs()),
        None => None,
    }
}

/// `ruint::Uint::<B, L>::from_limbs` followed by `to_be_bytes_vec`: the
/// number that the limbs denote, as exactly `ceil(B / 8)` big-endian bytes.
/// `from_limbs` panics when the number needs more than `B` bits.
#[verifier::external_body]
fn alloy_uint_to_be_bytes_vec<const B: usize, const L: usize>(limbs: [u64; L]) -> (r: Vec<u8>)
    requires
        L == uint_limbs(B as nat),
        limbs_value(limbs@) < pow2(B as nat),
    ensures
        r@ == be_encode(limbs_value(limbs@), uint_bytes(B as nat)),
{
    alloy_primitives::Uint::<B, L>::from_limbs(limbs).to_be_bytes_vec()
}

/// An unsigned integer of `B` bits, held in `L` limbs of 64 bits, least
/// significant first.
#[derive(Clone, Copy, Debug, PartialEq, Eq, Hash)]
pub struct Uint<const B: usize, const L: usize> {
    limbs: [u64; L],
}

/// A 256-bit unsigned integer; storage slots are numbered by these.
pub type U256 = Uint<256, 4>;

impl<const B: usize, const L: usize> Uint<B, L> {
    /// The number needs at most `B` bits; every value of the type keeps this.
    #[verifier::type_invariant]
    pub open spec fn fits(self) -> bool {
        self.value() < pow2(B as nat)
    }

    /// The number this integer holds.
    pub closed spec fn value(self) -> nat {
        limbs_value(self.limbs@)
    }

    /// Zero.
    pub fn zero() -> (r: Self)
        ensures
            r@ == 0,
    {
        let limbs = [0u64; L];
        proof {
            lemma_limbs_value_zero(limbs@);
            vstd::arithmetic::power2::lemma_pow2_pos(B as nat);
        }
        Uint { limbs }
    }

    /// The integer that big-endian `bytes` denote, or `None` where there are
    /// more than `ceil(B / 8)` bytes or the number needs more than `B` bits.
    pub fn from_be_slice(bytes: &[u8]) -> (r: Option<Self>)
        requires
            L == uint_limbs(B as nat),
        ensures
            r is Some <==> (bytes@.len() <= uint_bytes(B as nat) && be_value(bytes@) < pow2(
                B as nat,
            )),
            r matches Some(u) ==> u@ == be_value(bytes@),
    {
        match alloy_uint_try_from_be_slice::<B, L>(bytes) {
            Some(limbs) => Some(Uint { limbs }),
            None => None,
        }
    }

    /// The number as exactly `ceil(B / 8)` big-endian bytes.
    pub fn to_be_bytes_vec(&self) -> (r: Vec<u8>)
        requires
            L == uint_limbs(B as nat),
        ensures
            r@ == be_encode(self@, uint_bytes(B as nat)),
            r@.len() == uint_bytes(B as nat),
    {
        proof {
            use_type_invariant(self);
            lemma_be_encode_len(self@, uint_bytes(B as nat));
        }
        alloy_uint_to_be_bytes_vec::<B, L>(self.limbs)
    }

    /// The limbs, least significant first.
    pub fn as_limbs(&self) -> (r: &[u64; L])
        ensures
            limbs_value(r@) == self@,
    {
        &self.limbs
    }

    /// Whether both integers hold the same number.
    pub fn same_value(&self, other: &Self) -> (r: bool)
        ensures
            r == (self@ == other@),
    {
        let mut i: usize = 0;
        while i < L
            invariant
                i <= L,
                self.limbs@.len() == L,
                other.limbs@.len() == L,
                forall|j: int| 0 <= j < i ==> self.limbs@[j] == other.limbs@[j],
            decreases L - i,
        {
            if self.limbs[i] != other.limbs[i] {
                proof {
                    if self@ == other@ {
                        lemma_limbs_value_injective(self.limbs@, other.limbs@);
                    }
                }
                return false;
            }
            i = i + 1;
        }
        assert(self.limbs@ =~= other.limbs@);
        true
    }
}

impl<const B: usize, const L: usize> View for Uint<B, L> {
    type V = nat;

    open spec fn view(&self) -> nat {
        self.value()
    }
}

/// A signed integer of `B` bits in two's complement, held as the bit pattern
/// of an unsigned integer.
#[derive(Clone, Copy, Debug, PartialEq, Eq, Hash)]
pub struct Signed<const B: usize, const L: usize> {
    raw: Uint<B, L>,
}

impl<const B: usize, const L: usize> Signed<B, L> {
    /// The bit pattern, as an unsigned integer.
    pub closed spec fn raw_value(self) -> nat {
        self.raw@
    }

    /// Zero.
    pub fn zero() -> (r: Self)
        ensures
            r.raw_value() == 0,
            r@ == 0,
    {
        proof {
            if B > 0 {
                vstd::arithmetic::power2::lemma_pow2_pos((B - 1) as nat);
            }
        }
        Signed { raw: Uint::zero() }
    }

    /// The signed integer with bit pattern `raw`.
    pub fn from_raw(raw: Uint<B, L>) -> (r: Self)
        ensures
            r.raw_value() == raw@,
    {
        Signed { raw }
    }

    /// The bit pattern, as an unsigned integer.
    pub fn into_raw(self) -> (r: Uint<B, L>)
        ensures
            r@ == self.raw_value(),
    {
        self.raw
    }
}

impl<const B: usize, const L: usize> View for Signed<B, L> {
    type V = int;

    open spec fn view(&self) -> int {
        signed_value(self.raw_value(), B as nat)
    }
}

/// `N` bytes.
#[derive(Clone, Copy, Debug, PartialEq, Eq, Hash)]
pub struct FixedBytes<const N: usize>(pub [u8; N]);

/// 32 bytes: a whole storage word.
pub type B256 = FixedBytes<32>;

/// The hash of a block.
pub type BlockHash = FixedBytes<32>;

/// The number of a block.
pub type BlockNumber = u64;

impl<const N: usize> FixedBytes<N> {
    /// `N` zero bytes.
    pub fn zero() -> (r: Self)
        ensures
            r@ == Seq::new(N as nat, |i: int| 0u8),
    {
        let r = FixedBytes([0u8; N]);
        assert(r@ =~= Seq::new(N as nat, |i: int| 0u8));
        r
    }
}

impl<const N: usize> View for FixedBytes<N> {
    type V = Seq<u8>;

    open spec fn view(&self) -> Seq<u8> {
        self.0@
    }
}

/// A 20-byte account address.
#[derive(Clone, Copy, Debug, PartialEq, Eq, Hash)]
pub struct Address(pub FixedBytes<20>);

impl Address {
    /// The address of 20 zero bytes.
    pub fn zero() -> (r: Self)
        ensures
            r@ == Seq::new(20, |i: int| 0u8),
    {
        Address(FixedBytes::zero())
    }
}

impl View for Address {
    type V = Seq<u8>;

    open spec fn view(&self) -> Seq<u8> {
        self.0@
    }
}

} // verus!
