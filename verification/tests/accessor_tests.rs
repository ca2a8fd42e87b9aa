use stylus_storage::bytes::{u64_from_be_bytes, u64_to_be_bytes};
use stylus_storage::{
    overwrite_cell, Address, FixedBytes, Signed, StorageAddress, StorageBlockHash,
    StorageBlockNumber, StorageBool, StorageCache, StorageFixedBytes, StorageI16, StorageI8,
    StorageU16, StorageU256, StorageU32, StorageU8, Uint, U256,
};

fn slot(n: u8) -> U256 {
    U256::from_be_slice(&[n]).unwrap()
}

fn word_bytes(storage: &StorageCache, n: u8) -> [u8; 32] {
    storage.get_word(&slot(n)).0
}

#[test]
fn fresh_storage_reads_zero() {
    let storage = StorageCache::new();
    let mut a = StorageU256::new(slot(1), 0);
    assert_eq!(a.get(&storage).as_limbs(), &[0u64; 4]);
    let mut b = StorageBool::new(slot(2), 31);
    assert!(!b.get(&storage));
    let mut c = StorageAddress::new(slot(3), 12);
    assert_eq!(c.get(&storage), Address::zero());
    let mut d = StorageBlockNumber::new(slot(4), 24);
    assert_eq!(d.get(&storage), 0);
    let mut e = StorageBlockHash::new(slot(5), 0);
    assert_eq!(e.get(&storage).0, [0u8; 32]);
}

#[test]
fn uint256_set_then_get() {
    let mut storage = StorageCache::new();
    let bytes: Vec<u8> = (1..=32).collect();
    let value = Uint::<256, 4>::from_be_slice(&bytes).unwrap();
    let mut a = StorageU256::new(slot(7), 0);
    a.set(&mut storage, value);
    assert_eq!(a.get(&storage), value);
    let mut fresh = StorageU256::new(slot(7), 0);
    assert_eq!(fresh.get(&storage), value);
    assert_eq!(word_bytes(&storage, 7).to_vec(), bytes);
}

#[test]
fn uint_is_stored_big_endian_at_its_offset() {
    let mut storage = StorageCache::new();
    let value = Uint::<32, 1>::from_be_slice(&[0x12, 0x34, 0x56, 0x78]).unwrap();
    let mut a = StorageU32::new(slot(1), 28);
    a.set(&mut storage, value);
    let w = word_bytes(&storage, 1);
    assert_eq!(&w[28..32], &[0x12, 0x34, 0x56, 0x78]);
    assert_eq!(&w[0..28], &[0u8; 28]);
    assert_eq!(value.as_limbs(), &[0x1234_5678u64]);
}

#[test]
fn packed_values_do_not_interfere() {
    let mut storage = StorageCache::new();
    let mut small = StorageU8::new(slot(3), 31);
    let mut mid = StorageU16::new(slot(3), 29);
    let mut flag = StorageBool::new(slot(3), 28);
    small.set(&mut storage, Uint::from_be_slice(&[0xab]).unwrap());
    mid.set(&mut storage, Uint::from_be_slice(&[0xcd, 0xef]).unwrap());
    flag.set(&mut storage, true);
    let w = word_bytes(&storage, 3);
    assert_eq!(&w[28..32], &[1, 0xcd, 0xef, 0xab]);
    let mut small2 = StorageU8::new(slot(3), 31);
    let mut mid2 = StorageU16::new(slot(3), 29);
    let mut flag2 = StorageBool::new(slot(3), 28);
    assert_eq!(small2.get(&storage).as_limbs(), &[0xab]);
    assert_eq!(mid2.get(&storage).as_limbs(), &[0xcdef]);
    assert!(flag2.get(&storage));
}

#[test]
fn writes_to_other_slots_leave_slot_unchanged() {
    let mut storage = StorageCache::new();
    let mut a = StorageU8::new(slot(1), 0);
    let mut b = StorageU8::new(slot(2), 0);
    a.set(&mut storage, Uint::from_be_slice(&[5]).unwrap());
    b.set(&mut storage, Uint::from_be_slice(&[9]).unwrap());
    let mut a2 = StorageU8::new(slot(1), 0);
    assert_eq!(a2.get(&storage).as_limbs(), &[5]);
}

#[test]
fn cached_value_is_returned_after_storage_changes() {
    let mut storage = StorageCache::new();
    let mut reader = StorageU8::new(slot(4), 0);
    assert_eq!(reader.get(&storage).as_limbs(), &[0]);
    let mut writer = StorageU8::new(slot(4), 0);
    writer.set(&mut storage, Uint::from_be_slice(&[42]).unwrap());
    assert_eq!(reader.get(&storage).as_limbs(), &[0]);
    let mut fresh = StorageU8::new(slot(4), 0);
    assert_eq!(fresh.get(&storage).as_limbs(), &[42]);
}

#[test]
fn erase_writes_zero() {
    let mut storage = StorageCache::new();
    let mut a = StorageU16::new(slot(6), 10);
    a.set(&mut storage, Uint::from_be_slice(&[0xff, 0xff]).unwrap());
    a.erase(&mut storage);
    assert_eq!(a.get(&storage).as_limbs(), &[0]);
    let mut fresh = StorageU16::new(slot(6), 10);
    assert_eq!(fresh.get(&storage).as_limbs(), &[0]);
    let mut b = StorageBool::new(slot(6), 0);
    b.set(&mut storage, true);
    b.erase(&mut storage);
    let mut b2 = StorageBool::new(slot(6), 0);
    assert!(!b2.get(&storage));
    let mut h = StorageBlockHash::new(slot(6), 0);
    h.erase(&mut storage);
    assert_eq!(word_bytes(&storage, 6), [0u8; 32]);
}

#[test]
fn signed_values_use_twos_complement() {
    let mut storage = StorageCache::new();
    let minus_one = Signed::from_raw(Uint::<8, 1>::from_be_slice(&[0xff]).unwrap());
    let mut a = StorageI8::new(slot(2), 5);
    a.set(&mut storage, minus_one);
    assert_eq!(word_bytes(&storage, 2)[5], 0xff);
    let mut fresh = StorageI8::new(slot(2), 5);
    assert_eq!(fresh.get(&storage), minus_one);
    let v = Signed::from_raw(Uint::<16, 1>::from_be_slice(&[0x80, 0x00]).unwrap());
    let mut b = StorageI16::new(slot(2), 6);
    b.set(&mut storage, v);
    assert_eq!(&word_bytes(&storage, 2)[5..8], &[0xff, 0x80, 0x00]);
    assert_eq!(b.get(&storage).into_raw().as_limbs(), &[0x8000]);
    b.erase(&mut storage);
    assert_eq!(b.get(&storage), Signed::zero());
}

#[test]
fn bool_reads_any_nonzero_byte_as_true() {
    let mut storage = StorageCache::new();
    storage.set_byte(&slot(1), 3, 7);
    let mut b = StorageBool::new(slot(1), 3);
    assert!(b.get(&storage));
    let mut w = StorageBool::new(slot(1), 4);
    w.set(&mut storage, true);
    assert_eq!(storage.get_byte(&slot(1), 4), 1);
    w.set(&mut storage, false);
    assert_eq!(storage.get_byte(&slot(1), 4), 0);
    assert!(!w.get(&storage));
}

#[test]
fn address_roundtrip() {
    let mut storage = StorageCache::new();
    let mut raw = [0u8; 20];
    for (i, b) in raw.iter_mut().enumerate() {
        *b = (i as u8) + 1;
    }
    let addr = Address(FixedBytes(raw));
    let mut a = StorageAddress::new(slot(8), 12);
    a.set(&mut storage, addr);
    assert_eq!(&word_bytes(&storage, 8)[12..32], &raw);
    let mut fresh = StorageAddress::new(slot(8), 12);
    assert_eq!(fresh.load(&storage), addr);
    a.erase(&mut storage);
    let mut fresh2 = StorageAddress::new(slot(8), 12);
    assert_eq!(fresh2.get(&storage), Address::zero());
}

#[test]
fn block_number_is_eight_big_endian_bytes() {
    let mut storage = StorageCache::new();
    let mut n = StorageBlockNumber::new(slot(9), 0);
    n.set(&mut storage, 0x0102_0304_0506_0708);
    assert_eq!(&word_bytes(&storage, 9)[0..8], &[1, 2, 3, 4, 5, 6, 7, 8]);
    let mut fresh = StorageBlockNumber::new(slot(9), 0);
    assert_eq!(fresh.get(&storage), 0x0102_0304_0506_0708);
    n.erase(&mut storage);
    assert_eq!(StorageBlockNumber::new(slot(9), 0).load(&storage), 0);
}

#[test]
fn block_hash_fills_the_slot() {
    let mut storage = StorageCache::new();
    let mut h = [0u8; 32];
    h[0] = 0xaa;
    h[31] = 0xbb;
    let mut a = StorageBlockHash::new(slot(10), 17);
    a.set(&mut storage, FixedBytes(h));
    assert_eq!(word_bytes(&storage, 10), h);
    assert_eq!(StorageBlockHash::new(slot(10), 0).load(&storage).0, h);
}

#[test]
fn fixed_bytes_roundtrip() {
    let mut storage = StorageCache::new();
    let mut a = StorageFixedBytes::<4>::new(slot(11), 2);
    a.set(&mut storage, FixedBytes([9, 8, 7, 6]));
    assert_eq!(&word_bytes(&storage, 11)[0..8], &[0, 0, 9, 8, 7, 6, 0, 0]);
    assert_eq!(StorageFixedBytes::<4>::new(slot(11), 2).load(&storage).0, [9, 8, 7, 6]);
    a.set_by_wrapped(&mut storage, FixedBytes([1, 1, 1, 1]));
    assert_eq!(a.get(&storage).0, [1, 1, 1, 1]);
    a.erase(&mut storage);
    assert_eq!(StorageFixedBytes::<4>::new(slot(11), 2).load(&storage).0, [0; 4]);
}

#[test]
fn slot_bytes_of_each_accessor() {
    assert_eq!(StorageU8::slot_bytes(), 1);
    assert_eq!(StorageU256::slot_bytes(), 32);
    assert_eq!(StorageI16::slot_bytes(), 2);
    assert_eq!(StorageFixedBytes::<12>::slot_bytes(), 12);
    assert_eq!(StorageBool::slot_bytes(), 1);
    assert_eq!(StorageAddress::slot_bytes(), 20);
    assert_eq!(StorageBlockNumber::slot_bytes(), 8);
}

#[test]
fn uint_from_be_slice_rejects_what_does_not_fit() {
    assert!(Uint::<8, 1>::from_be_slice(&[1, 2]).is_none());
    assert!(Uint::<4, 1>::from_be_slice(&[0x10]).is_none());
    assert_eq!(Uint::<4, 1>::from_be_slice(&[0x0f]).unwrap().as_limbs(), &[15]);
    assert_eq!(Uint::<16, 1>::from_be_slice(&[0x01]).unwrap().as_limbs(), &[1]);
    assert_eq!(
        Uint::<128, 2>::from_be_slice(&[1, 0, 0, 0, 0, 0, 0, 0, 2]).unwrap().as_limbs(),
        &[2, 1]
    );
}

#[test]
fn uint_to_be_bytes_vec_has_exact_width() {
    let v = Uint::<24, 1>::from_be_slice(&[0x05]).unwrap();
    assert_eq!(v.to_be_bytes_vec(), vec![0, 0, 5]);
    let w = Uint::<128, 2>::from_be_slice(&[1, 0, 0, 0, 0, 0, 0, 0, 2]).unwrap();
    let mut expected = vec![0u8; 16];
    expected[7] = 1;
    expected[15] = 2;
    assert_eq!(w.to_be_bytes_vec(), expected);
    assert!(Uint::<8, 1>::zero().to_be_bytes_vec() == vec![0]);
}

#[test]
fn uint_same_value() {
    let a = Uint::<64, 1>::from_be_slice(&[3]).unwrap();
    let b = Uint::<64, 1>::from_be_slice(&[0, 3]).unwrap();
    let c = Uint::<64, 1>::from_be_slice(&[4]).unwrap();
    assert!(a.same_value(&b));
    assert!(!a.same_value(&c));
}

#[test]
fn u64_big_endian_helpers() {
    assert_eq!(u64_to_be_bytes(0x0102_0304_0506_0708), [1, 2, 3, 4, 5, 6, 7, 8]);
    assert_eq!(u64_from_be_bytes([0, 0, 0, 0, 0, 0, 1, 0]), 256);
    assert_eq!(u64_from_be_bytes(u64_to_be_bytes(u64::MAX)), u64::MAX);
}

#[test]
fn storage_word_get_and_set() {
    let mut storage = StorageCache::new();
    let mut w = [0u8; 32];
    w[3] = 3;
    storage.set_word(&slot(1), FixedBytes(w));
    assert_eq!(storage.get_word(&slot(1)).0, w);
    storage.set::<2>(&slot(1), 2, FixedBytes([7, 8]));
    assert_eq!(storage.get::<4>(&slot(1), 1).0, [0, 7, 8, 0]);
    let u: Uint<16, 1> = storage.get_uint(&slot(1), 2);
    assert_eq!(u.as_limbs(), &[0x0708]);
    storage.set_uint::<16, 1>(&slot(1), 30, u);
    assert_eq!(&storage.get_word(&slot(1)).0[30..32], &[7, 8]);
    let s: Signed<8, 1> = storage.get_signed(&slot(1), 2);
    assert_eq!(s.into_raw().as_limbs(), &[7]);
    storage.set_signed::<8, 1>(&slot(2), 0, s);
    assert_eq!(storage.get_byte(&slot(2), 0), 7);
}

#[test]
fn overwrite_cell_replaces_value() {
    let mut cell = Some(3);
    overwrite_cell(&mut cell, 4);
    assert_eq!(cell, Some(4));
    let mut empty: Option<u8> = None;
    overwrite_cell(&mut empty, 1);
    assert_eq!(empty, Some(1));
}

#[test]
fn large_slot_numbers_are_distinct() {
    let mut storage = StorageCache::new();
    let mut hi = [0u8; 32];
    hi[0] = 1;
    let big = U256::from_be_slice(&hi).unwrap();
    storage.set_byte(&big, 0, 9);
    assert_eq!(storage.get_byte(&slot(0), 0), 0);
    assert_eq!(storage.get_byte(&big, 0), 9);
    assert_eq!(big.as_limbs(), &[0, 0, 0, 1u64 << 56]);
}

#[test]
fn writing_back_the_read_value_changes_nothing() {
    let mut storage = StorageCache::new();
    let mut w = [0u8; 32];
    for (i, b) in w.iter_mut().enumerate() {
        *b = (i as u8).wrapping_mul(7);
    }
    storage.set_word(&slot(5), FixedBytes(w));
    let mut a = StorageU32::new(slot(5), 12);
    let v = a.get(&storage);
    a.set(&mut storage, v);
    assert_eq!(word_bytes(&storage, 5), w);
}

#[test]
fn accessor_sees_its_own_write_through_the_cache() {
    let mut storage = StorageCache::new();
    let mut a = StorageU16::new(slot(12), 0);
    assert_eq!(a.get(&storage).as_limbs(), &[0]);
    a.set(&mut storage, Uint::from_be_slice(&[1, 2]).unwrap());
    assert_eq!(a.get(&storage).as_limbs(), &[0x0102]);
    let mut b = StorageBool::new(slot(12), 5);
    b.set_by_wrapped(&mut storage, true);
    assert!(b.load(&storage));
}
