use chessbot::table::{Bound, TranspositionEntry, TranspositionTable};

fn entry(depth: i32, score: i32, bound: Bound) -> TranspositionEntry {
    TranspositionEntry { depth, score, bound }
}

#[test]
fn fresh_table_is_empty() {
    let table = TranspositionTable::new(8);
    assert_eq!(table.capacity(), 8);
    for hash in 0..32u64 {
        assert_eq!(table.get(hash), None);
    }
    assert_eq!(table.get(u64::MAX), None);
}

#[test]
fn put_then_get_returns_the_entry() {
    let mut table = TranspositionTable::new(1024);
    let e = entry(3, -17, Bound::LowerBound);
    table.put(0xDEAD_BEEF_0000_0123, e);
    assert_eq!(table.get(0xDEAD_BEEF_0000_0123), Some(e));
    assert_eq!(table.get(0xDEAD_BEEF_0000_0124), None);
}

#[test]
fn slot_is_the_hash_masked_by_the_capacity() {
    let mut table = TranspositionTable::new(4);
    let e = entry(1, 9, Bound::Exact);
    table.put(5, e);
    // 5, 1, 9 and every other hash that ends in the bits 01 share slot 1.
    assert_eq!(table.get(1), Some(e));
    assert_eq!(table.get(9), Some(e));
    assert_eq!(table.get(0xFFFF_FFFF_FFFF_FFFD), Some(e));
    assert_eq!(table.get(0), None);
    assert_eq!(table.get(2), None);
    assert_eq!(table.get(3), None);
    assert_eq!(table.get(4), None);
}

#[test]
fn put_overwrites_whatever_the_slot_holds() {
    let mut table = TranspositionTable::new(4);
    let first = entry(5, 100, Bound::Exact);
    let second = entry(0, -3, Bound::UpperBound);
    table.put(6, first);
    table.put(2, second);
    assert_eq!(table.get(6), Some(second));
    assert_eq!(table.get(2), Some(second));
}

#[test]
fn slot_zero_of_a_fresh_table_is_empty() {
    let mut table = TranspositionTable::new(16);
    assert_eq!(table.get(0), None);
    assert_eq!(table.get(16), None);
    let e = entry(2, 0, Bound::Exact);
    table.put(32, e);
    assert_eq!(table.get(0), Some(e));
}

#[test]
fn table_of_one_slot_holds_the_last_entry() {
    let mut table = TranspositionTable::new(1);
    assert_eq!(table.capacity(), 1);
    let a = entry(1, 1, Bound::Exact);
    let b = entry(2, 2, Bound::LowerBound);
    table.put(12345, a);
    assert_eq!(table.get(999), Some(a));
    table.put(7, b);
    assert_eq!(table.get(12345), Some(b));
}

#[test]
fn other_slots_keep_their_entries() {
    let mut table = TranspositionTable::new(8);
    let entries: Vec<TranspositionEntry> =
        (0..8).map(|i| entry(i, 10 * i, Bound::Exact)).collect();
    for (i, e) in entries.iter().enumerate() {
        table.put(i as u64, *e);
    }
    table.put(8 + 3, entry(9, 9, Bound::UpperBound));
    for (i, e) in entries.iter().enumerate() {
        if i == 3 {
            assert_eq!(table.get(i as u64), Some(entry(9, 9, Bound::UpperBound)));
        } else {
            assert_eq!(table.get(i as u64), Some(*e));
        }
    }
}
