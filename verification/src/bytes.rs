//! Big-endian byte encodings and the byte surgery performed on 32-byte
//! storage words.
use vstd::prelude::*;

verus! {

/// `256^n`: one more than the largest number that `n` bytes hold.
pub open spec fn pow256(n: nat) -> nat
    decreases n,
{
    if n == 0 {
        1
    } else {
        256 * pow256((n - 1) as nat)
    }
}

/// The number that the bytes `s` denote, most significant byte first.
pub open spec fn be_value(s: Seq<u8>) -> nat
    decreases s.len(),
{
    if s.len() == 0 {
        0
    } else {
        be_value(s.drop_last()) * 256 + s.last() as nat
    }
}

/// The `n` low-order bytes of `v`, most significant byte first.
pub open spec fn be_encode(v: nat, n: nat) -> Seq<u8>
    decreases n,
{
    if n == 0 {
        Seq::empty()
    } else {
        be_encode(v / 256, (n - 1) as nat).push((v % 256) as u8)
    }
}

/// The `n` bytes of `word` that start `offset` bytes from the left.
pub open spec fn read_bytes(word: Seq<u8>, offset: int, n: int) -> Seq<u8> {
    word.subrange(offset, offset + n)
}

/// `word` with the bytes that start `offset` bytes from the left replaced by `bytes`.
pub open spec fn write_bytes(word: Seq<u8>, offset: int, bytes: Seq<u8>) -> Seq<u8> {
    Seq::new(
        word.len(),
        |i: int|
            if offset <= i < offset + bytes.len() {
                bytes[i - offset]
            } else {
                word[i]
            },
    )
}

/// The word of 32 zero bytes, which every storage slot holds until written.
pub open spec fn zero_word() -> Seq<u8> {
    Seq::new(32, |i: int| 0u8)
}

pub proof fn lemma_pow256_pos(n: nat)
    ensures
        pow256(n) > 0,
    decreases n,
{
    if n > 0 {
        lemma_pow256_pos((n - 1) as nat);
    }
}

pub proof fn lemma_pow256_monotonic(a: nat, b: nat)
    requires
        a <= b,
    ensures
        pow256(a) <= pow256(b),
    decreases b,
{
    if a < b {
        lemma_pow256_monotonic(a, (b - 1) as nat);
        lemma_pow256_pos((b - 1) as nat);
    }
}

/// `n` bytes denote a number below `256^n`.
pub proof fn lemma_be_value_bound(s: Seq<u8>)
    ensures
        be_value(s) < pow256(s.len()),
    decreases s.len(),
{
    if s.len() > 0 {
        lemma_be_value_bound(s.drop_last());
        let p = pow256((s.len() - 1) as nat);
        let q = be_value(s.drop_last());
        assert(q * 256 + s.last() < 256 * p) by (nonlinear_arith)
            requires
                q < p,
                s.last() < 256,
        ;
    }
}

pub proof fn lemma_be_encode_len(v: nat, n: nat)
    ensures
        be_encode(v, n).len() == n,
    decreases n,
{
    if n > 0 {
        lemma_be_encode_len(v / 256, (n - 1) as nat);
    }
}

/// Encoding `v` in `n` bytes and reading the bytes back gives `v` modulo `256^n`.
pub proof fn lemma_be_value_of_encode(v: nat, n: nat)
    ensures
        be_value(be_encode(v, n)) == v % pow256(n),
    decreases n,
{
    lemma_be_encode_len(v, n);
    if n > 0 {
        let m = (n - 1) as nat;
        lemma_be_value_of_encode(v / 256, m);
        lemma_pow256_pos(m);
        let e = be_encode(v, n);
        assert(e.drop_last() =~= be_encode(v / 256, m));
        vstd::arithmetic::div_mod::lemma_mod_breakdown(v as int, 256, pow256(m) as int);
        assert(be_value(e) == ((v / 256) % pow256(m)) * 256 + v % 256);
    } else {
        assert(pow256(0) == 1);
    }
}

/// A number below `256^n` survives encoding in `n` bytes.
pub proof fn lemma_be_roundtrip(v: nat, n: nat)
    requires
        v < pow256(n),
    ensures
        be_value(be_encode(v, n)) == v,
        be_encode(v, n).len() == n,
{
    lemma_be_value_of_encode(v, n);
    lemma_be_encode_len(v, n);
    vstd::arithmetic::div_mod::lemma_small_mod(v, pow256(n));
}

/// Bytes survive being read as a number and encoded again in as many bytes.
pub proof fn lemma_be_encode_of_value(s: Seq<u8>)
    ensures
        be_encode(be_value(s), s.len()) == s,
    decreases s.len(),
{
    if s.len() > 0 {
        let q = be_value(s.drop_last());
        let v = q * 256 + s.last() as nat;
        lemma_be_encode_of_value(s.drop_last());
        assert(v / 256 == q && v % 256 == s.last()) by (nonlinear_arith)
            requires
                v == q * 256 + s.last(),
                0 <= s.last() < 256,
                q >= 0,
        ;
        assert(be_encode(v, s.len()) =~= s);
    } else {
        assert(be_encode(be_value(s), 0) =~= s);
    }
}

/// Reading back the bytes just written gives them unchanged.
pub proof fn lemma_read_after_write(word: Seq<u8>, offset: int, bytes: Seq<u8>)
    requires
        0 <= offset,
        offset + bytes.len() <= word.len(),
    ensures
        read_bytes(write_bytes(word, offset, bytes), offset, bytes.len() as int) == bytes,
        write_bytes(word, offset, bytes).len() == word.len(),
{
    assert(read_bytes(write_bytes(word, offset, bytes), offset, bytes.len() as int) =~= bytes);
}

/// A write leaves every byte outside its range unchanged.
pub proof fn lemma_write_keeps_other_bytes(
    word: Seq<u8>,
    offset: int,
    bytes: Seq<u8>,
    other: int,
    n: int,
)
    requires
        0 <= other,
        0 <= n,
        other + n <= word.len(),
        other + n <= offset || offset + bytes.len() <= other,
    ensures
        read_bytes(write_bytes(word, offset, bytes), other, n) == read_bytes(word, other, n),
{
    assert(read_bytes(write_bytes(word, offset, bytes), other, n) =~= read_bytes(word, other, n));
}

/// Zero bytes denote zero.
pub proof fn lemma_be_value_zeros(s: Seq<u8>)
    requires
        forall|i: int| 0 <= i < s.len() ==> s[i] == 0,
    ensures
        be_value(s) == 0,
    decreases s.len(),
{
    if s.len() > 0 {
        lemma_be_value_zeros(s.drop_last());
    }
}

/// Eight bytes hold the numbers below `2^64`.
pub proof fn lemma_pow256_eight()
    ensures
        pow256(8) == 0x1_0000_0000_0000_0000,
{
    reveal_with_fuel(pow256, 9);
}

/// Prepending the next more significant byte extends an encoding by one byte.
pub proof fn lemma_be_encode_prepend(v: nat, n: nat)
    ensures
        be_encode(v, n + 1) == seq![((v / pow256(n)) % 256) as u8] + be_encode(v, n),
    decreases n,
{
    lemma_pow256_pos(n);
    if n == 0 {
        assert(pow256(0) == 1);
        assert(v / 1 == v);
        reveal_with_fuel(be_encode, 2);
        assert(be_encode(v, 1) =~= seq![((v / pow256(0)) % 256) as u8] + be_encode(v, 0));
    } else {
        let m = (n - 1) as nat;
        lemma_be_encode_prepend(v / 256, m);
        lemma_pow256_pos(m);
        vstd::arithmetic::div_mod::lemma_div_denominator(v as int, 256, pow256(m) as int);
        assert((v / 256) / pow256(m) == v / pow256(n));
        assert(be_encode(v, n + 1) =~= seq![((v / pow256(n)) % 256) as u8] + be_encode(v, n));
    }
}

/// The number that eight big-endian bytes denote.
pub fn u64_from_be_bytes(bytes: [u8; 8]) -> (r: u64)
    ensures
        r == be_value(bytes@),
{
    let mut acc: u64 = 0;
    let mut i: usize = 0;
    proof {
        lemma_pow256_eight();
    }
    while i < 8
        invariant
            i <= 8,
            bytes@.len() == 8,
            pow256(8) == 0x1_0000_0000_0000_0000,
            acc == be_value(bytes@.subrange(0, i as int)),
            acc < pow256(i as nat),
        decreases 8 - i,
    {
        let ghost prefix = bytes@.subrange(0, i as int + 1);
        assert(prefix.drop_last() =~= bytes@.subrange(0, i as int));
        proof {
            lemma_pow256_monotonic(i as nat + 1, 8);
            let a = acc as int;
            let b = bytes@[i as int] as int;
            let p = pow256(i as nat) as int;
            assert(a * 256 + b < 256 * p) by (nonlinear_arith)
                requires
                    a < p,
                    0 <= b < 256,
            ;
        }
        acc = acc * 256 + bytes[i] as u64;
        i = i + 1;
    }
    assert(bytes@.subrange(0, 8) =~= bytes@);
    acc
}

/// The eight big-endian bytes of `v`.
pub fn u64_to_be_bytes(v: u64) -> (r: [u8; 8])
    ensures
        r@ == be_encode(v as nat, 8),
{
    let mut out = [0u8; 8];
    let mut cur: u64 = v;
    let mut i: usize = 0;
    assert(pow256(0) == 1);
    assert(v as nat / 1 == v as nat);
    assert(out@.subrange(8, 8) =~= be_encode(v as nat, 0));
    while i < 8
        invariant
            i <= 8,
            out@.len() == 8,
            cur == v as nat / pow256(i as nat),
            out@.subrange(8 - i as int, 8) == be_encode(v as nat, i as nat),
        decreases 8 - i,
    {
        proof {
            lemma_be_encode_prepend(v as nat, i as nat);
            lemma_pow256_pos(i as nat);
            vstd::arithmetic::div_mod::lemma_div_denominator(v as int, pow256(i as nat) as int, 256);
            assert(pow256(i as nat + 1) == pow256(i as nat) * 256) by {
                assert(pow256(i as nat + 1) == 256 * pow256(i as nat));
            }
        }
        let ghost old_out = out@;
        out[7 - i] = (cur % 256) as u8;
        assert(out@.subrange(8 - (i + 1) as int, 8) =~= seq![((v as nat / pow256(i as nat)) % 256) as u8]
            + old_out.subrange(8 - i as int, 8));
        cur = cur / 256;
        i = i + 1;
    }
    assert(out@.subrange(0, 8) =~= out@);
    out
}

} // verus!
