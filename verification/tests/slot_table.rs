use fuse_ring::slot_table::SlotTable;

#[test]
fn slots_are_created_in_order_up_to_the_limit() {
    let mut table: SlotTable<u8> = SlotTable::new(3);
    assert_eq!(table.acquire(), Some(0));
    assert_eq!(table.acquire(), Some(1));
    assert_eq!(table.acquire(), Some(2));
    assert_eq!(table.acquire(), None);
    assert_eq!(table.acquire(), None);
}

#[test]
fn a_table_without_room_hands_out_nothing() {
    let mut table: SlotTable<u8> = SlotTable::new(0);
    assert_eq!(table.acquire(), None);
}

#[test]
fn a_very_large_limit_is_accepted() {
    let mut table: SlotTable<u64> = SlotTable::new(usize::MAX);
    assert_eq!(table.acquire(), Some(0));
}

#[test]
fn what_was_stored_is_taken_once() {
    let mut table = SlotTable::new(2);
    let slot = table.acquire().unwrap();
    table.store(slot, "value");
    assert_eq!(table.take(slot), Some("value"));
    assert_eq!(table.take(slot), None);
}

#[test]
fn taking_from_a_slot_that_was_never_created_gives_nothing() {
    let mut table: SlotTable<u8> = SlotTable::new(4);
    assert_eq!(table.take(0), None);
    assert_eq!(table.take(usize::MAX), None);
}

#[test]
fn the_slot_given_back_last_is_handed_out_first() {
    let mut table: SlotTable<u8> = SlotTable::new(3);
    for _ in 0..3 {
        table.acquire();
    }
    table.release(0);
    table.release(2);
    assert_eq!(table.acquire(), Some(2));
    assert_eq!(table.acquire(), Some(0));
    assert_eq!(table.acquire(), None);
}

#[test]
fn recycled_slots_come_before_new_ones() {
    let mut table: SlotTable<u8> = SlotTable::new(8);
    let slot = table.acquire().unwrap();
    for round in 0..100 {
        table.store(slot, round);
        assert_eq!(table.take(slot), Some(round));
        table.release(slot);
        assert_eq!(table.acquire(), Some(slot));
    }
}

#[test]
fn an_occupied_slot_is_not_given_back() {
    let mut table = SlotTable::new(1);
    let slot = table.acquire().unwrap();
    table.store(slot, 7);
    table.release(slot);
    assert_eq!(table.acquire(), None);
    assert_eq!(table.take(slot), Some(7));
}

#[test]
fn a_slot_that_was_never_created_is_not_given_back() {
    let mut table: SlotTable<u8> = SlotTable::new(1);
    table.release(0);
    assert_eq!(table.acquire(), Some(0));
    assert_eq!(table.acquire(), None);
}

#[test]
fn an_empty_slot_given_back_twice_is_handed_out_twice() {
    let mut table: SlotTable<u8> = SlotTable::new(1);
    table.acquire();
    table.release(0);
    table.release(0);
    assert_eq!(table.acquire(), Some(0));
    assert_eq!(table.acquire(), Some(0));
    assert_eq!(table.acquire(), None);
}

#[test]
fn taking_all_keeps_the_order_and_drops_the_free_list() {
    let mut table = SlotTable::new(4);
    for _ in 0..4 {
        table.acquire();
    }
    table.store(3, 'd');
    table.store(0, 'a');
    table.store(2, 'c');
    table.release(1);
    assert_eq!(table.take_all(), vec!['a', 'c', 'd']);
    assert_eq!(table.take(0), None);
    assert_eq!(table.acquire(), None);
    assert_eq!(table.take_all(), vec![]);
}
