use pdsl_core::allocator::KeyAllocator;
use pdsl_core::cell::{StorageMap, Value};
use pdsl_core::codec::Codec;
use pdsl_core::env::AccountId;
use pdsl_core::key::Key;
use pdsl_core::storage::Storage;

#[test]
fn store_load_clear() {
    let mut storage = Storage::new();
    let key = Key([0x42; 32]);
    assert_eq!(storage.load(&key), None);
    storage.store(&key, &[0x5]);
    assert_eq!(storage.load(&key), Some(vec![0x5]));
    storage.clear(&key);
    assert_eq!(storage.load(&key), None);
}

#[test]
fn key_with_offset() {
    let mut storage = Storage::new();
    let key00 = Key([0x0; 32]);
    let key05 = key00.add(5_u32); // -> 5
    let key10 = key00.add(10_u32); // -> 10         | same as key55
    let key55 = key05.add(5_u32); // -> 5 + 5 = 10 | same as key10
    storage.store(&key55, &[42]);
    assert_eq!(storage.load(&key10), Some(vec![42]));
    storage.store(&key10, &[13, 37]);
    assert_eq!(storage.load(&key55), Some(vec![13, 37]));
}

#[test]
fn as_bytes() {
    let mut key = Key([0x42; 32]);
    assert_eq!(key.as_bytes(), &[0x42; 32]);
    assert_eq!(key.as_bytes_mut(), &mut [0x42; 32]);
}

#[test]
fn as_bytes_mut_writes_through() {
    let mut key = Key([0; 32]);
    key.as_bytes_mut()[31] = 7;
    assert_eq!(key.as_bytes()[31], 7);
    assert_eq!(key, Key([0; 32]).add(7_u32));
}

#[test]
fn add_is_associative() {
    // (k + a) + b == k + (a + b)
    let k = Key([0x11; 32]);
    assert_eq!(k.add(13).add(37), k.add(50));
    let zero = Key([0; 32]);
    assert_eq!(zero.add(0).add(0), zero.add(0));
    assert_eq!(zero.add(u32::MAX).add(1), zero.add_u64(u32::MAX as u64 + 1));
}

#[test]
fn add_carries_toward_most_significant_byte() {
    let mut low_max = [0u8; 32];
    low_max[31] = 0xFF;
    let k = Key(low_max);
    let mut expected = [0u8; 32];
    expected[30] = 1;
    assert_eq!(k.add(1_u32), Key(expected));

    let mut eight_max = [0u8; 32];
    let mut i = 24;
    while i < 32 {
        eight_max[i] = 0xFF;
        i += 1;
    }
    let mut carried = [0u8; 32];
    carried[23] = 1;
    assert_eq!(Key(eight_max).add_u64(1), Key(carried));
}

#[test]
fn add_assign_matches_add() {
    let mut k = Key([0x42; 32]);
    k.add_assign(9);
    assert_eq!(k, Key([0x42; 32]).add(9));
    let mut k64 = Key([0x42; 32]);
    k64.add_assign_u64(1 << 40);
    assert_eq!(k64, Key([0x42; 32]).add_u64(1 << 40));
}

#[test]
fn allocation_is_deterministic() {
    // The same declared sequence of cells from the same base key yields
    // identical per-cell base keys, run after run.
    let strides = vec![1u64, 1, 4, 1 << 32];
    let mut first = KeyAllocator::new(Key([0; 32]));
    let mut second = KeyAllocator::new(Key([0; 32]));
    let keys1 = first.allocate_all(&strides);
    let keys2 = second.allocate_all(&strides);
    assert_eq!(keys1, keys2);

    let mut expected1 = [0u8; 32];
    expected1[31] = 1;
    let mut expected2 = [0u8; 32];
    expected2[31] = 2;
    let mut expected3 = [0u8; 32];
    expected3[31] = 6;
    assert_eq!(keys1, vec![Key([0; 32]), Key(expected1), Key(expected2), Key(expected3)]);
}

#[test]
fn value_cell_round_trip() {
    // set(v); get() == Some(v) — clear(); get() == None
    let mut storage = Storage::new();
    let cell: Value<u64> = Value::bind(Key([0x07; 32]));
    assert_eq!(cell.get(&storage), Ok(None));
    cell.set(&mut storage, &123456789u64);
    assert_eq!(cell.get(&storage), Ok(Some(123456789u64)));
    cell.clear(&mut storage);
    assert_eq!(cell.get(&storage), Ok(None));
}

#[test]
fn value_cell_decode_failure_is_fatal() {
    let mut storage = Storage::new();
    let key = Key([0x07; 32]);
    storage.store(&key, &[1, 2, 3]); // not a canonical u64 encoding
    let cell: Value<u64> = Value::bind(key);
    assert_eq!(cell.get(&storage), Err(pdsl_core::Error::Decode));
}

#[test]
fn map_cell_round_trip() {
    // insert(k, v); get(k) == Some(v) — remove(k); get(k) == None —
    // and an operation on k never disturbs the entry of k2 != k.
    let mut storage = Storage::new();
    let map: StorageMap<AccountId, u64> = StorageMap::bind(Key([0x09; 32]));
    let k = AccountId([1; 32]);
    let k2 = AccountId([2; 32]);
    map.insert(&mut storage, &k2, &777);
    assert_eq!(map.get(&storage, &k), Ok(None));
    map.insert(&mut storage, &k, &41);
    map.insert(&mut storage, &k, &42);
    assert_eq!(map.get(&storage, &k), Ok(Some(42)));
    assert_eq!(map.get(&storage, &k2), Ok(Some(777)));
    map.remove(&mut storage, &k);
    assert_eq!(map.get(&storage, &k), Ok(None));
    assert_eq!(map.get(&storage, &k2), Ok(Some(777)));
}

#[test]
fn map_same_key_recovers_same_entry() {
    let mut storage = Storage::new();
    let map: StorageMap<u64, bool> = StorageMap::bind(Key([0x0A; 32]));
    map.insert(&mut storage, &5u64, &true);
    // A fresh binding of the same base key sees the same entry.
    let rebound: StorageMap<u64, bool> = StorageMap::bind(Key([0x0A; 32]));
    assert_eq!(rebound.get(&storage, &5u64), Ok(Some(true)));
}

#[test]
fn codec_exact_encodings() {
    assert_eq!(true.encode(), vec![1u8]);
    assert_eq!(false.encode(), vec![0u8]);
    assert_eq!(1u64.encode(), vec![1, 0, 0, 0, 0, 0, 0, 0]);
    assert_eq!(0x0102_0304u32.encode(), vec![4, 3, 2, 1]);
    assert_eq!(AccountId([9; 32]).encode(), vec![9; 32]);
}

#[test]
fn codec_round_trips_and_rejects() {
    assert_eq!(u64::decode(&9876543210u64.encode()), Some(9876543210u64));
    assert_eq!(u32::decode(&[4, 3, 2, 1]), Some(0x0102_0304u32));
    assert_eq!(bool::decode(&[1]), Some(true));
    assert_eq!(bool::decode(&[0]), Some(false));
    assert_eq!(bool::decode(&[2]), None);
    assert_eq!(bool::decode(&[]), None);
    assert_eq!(u64::decode(&[1, 2, 3]), None);
    assert_eq!(u32::decode(&[1, 2, 3, 4, 5]), None);
    assert_eq!(AccountId::decode(&[7; 31]), None);
    assert_eq!(AccountId::decode(&[7; 32]), Some(AccountId([7; 32])));
}

#[test]
fn key_and_account_equality() {
    assert!(Key([3; 32]).eq_bytes(&Key([3; 32])));
    assert!(!Key([3; 32]).eq_bytes(&Key([4; 32])));
    assert!(AccountId([3; 32]).eq_bytes(&AccountId([3; 32])));
    assert!(!AccountId([3; 32]).eq_bytes(&AccountId([4; 32])));
}

#[test]
fn zero_key_is_all_zero_bytes() {
    assert_eq!(Key::zero(), Key([0; 32]));
    assert_eq!(Key::zero().add(3).as_bytes()[31], 3);
}
