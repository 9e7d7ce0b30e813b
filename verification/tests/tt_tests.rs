use funns_bot::bot::config::T_TABLE_SIZE;
use funns_bot::bot::trans_table::{TransTable, TransTableEntry};

#[test]
fn insert_then_get_returns_the_entry() {
    let mut tt = TransTable::new();
    let entry = TransTableEntry { depth: 7, eval: -1234, age: 3 };
    tt.insert(0xdead_beef_cafe_f00d, entry);
    let got = tt.get(0xdead_beef_cafe_f00d).expect("stored entry must come back");
    assert_eq!(got.depth, 7);
    assert_eq!(got.eval, -1234);
    assert_eq!(got.age, 3);
}

#[test]
fn get_rejects_a_different_hash_in_the_same_slot() {
    let mut tt = TransTable::new();
    let entry = TransTableEntry { depth: 2, eval: 55, age: 1 };
    let h1 = 42u64;
    let h2 = 42u64 + T_TABLE_SIZE as u64;
    assert_ne!(h1, h2);
    tt.insert(h1, entry);
    assert!(tt.get(h2).is_none());
}

#[test]
fn insert_always_replaces() {
    let mut tt = TransTable::new();
    let h = 987_654_321u64;
    tt.insert(h, TransTableEntry { depth: 1, eval: 10, age: 1 });
    tt.insert(h, TransTableEntry { depth: 9, eval: -20, age: 2 });
    let got = tt.get(h).unwrap();
    assert_eq!(got.depth, 9);
    assert_eq!(got.eval, -20);
    assert_eq!(got.age, 2);
}

#[test]
fn slot_words_carry_the_murmur_checksum() {
    // The slot packs hash ^ meta, (age << 32) | depth, and
    // (eval << 32) | murmur3(depth, eval, age): recompute each word.
    let mut tt = TransTable::new();
    let h = 77u64;
    let entry = TransTableEntry { depth: 5, eval: -9, age: 4 };
    tt.insert(h, entry);
    let slot = tt.raw_slot((h % T_TABLE_SIZE as u64) as usize);

    let meta = (4u64 << 32) | 5u64;
    assert_eq!(slot.age_depth, meta);
    assert_eq!(slot.hash, h ^ meta);

    let mut bytes = Vec::new();
    bytes.extend_from_slice(&5u32.to_le_bytes());
    bytes.extend_from_slice(&(-9i32).to_le_bytes());
    bytes.extend_from_slice(&4u32.to_le_bytes());
    let checksum = murmur3::murmur3_32(&mut &bytes[..], 0).unwrap();
    assert_eq!(slot.eval_checksum & 0xffff_ffff, checksum as u64);
    assert_eq!(slot.eval_checksum >> 32, (-9i32) as u32 as u64);
}

#[test]
fn fresh_table_has_no_entry() {
    let tt = TransTable::new();
    assert!(tt.get(123_456).is_none());
    assert!(tt.get(0).is_none());
}

#[test]
fn fresh_table_slots_are_all_zero() {
    let tt = TransTable::new();
    for idx in [0usize, 1, 77, T_TABLE_SIZE / 2, T_TABLE_SIZE - 1] {
        let slot = tt.raw_slot(idx);
        assert_eq!(slot.hash, 0);
        assert_eq!(slot.age_depth, 0);
        assert_eq!(slot.eval_checksum, 0);
    }
}
