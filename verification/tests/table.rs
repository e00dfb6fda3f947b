use mailbox::table::{ResponseTable, CAPACITY};

#[test]
fn new_table_is_empty() {
    let table = ResponseTable::new();
    assert_eq!(table.len(), 0);
    assert!(!table.is_full());
    assert!(!table.contains(0));
}

#[test]
fn capacity_is_thirty_two() {
    assert_eq!(CAPACITY, 32);
}

#[test]
fn take_returns_what_was_inserted_and_removes_it() {
    let mut table = ResponseTable::new();
    assert!(table.try_insert(7, Ok(vec![1, 2, 3])));
    assert!(table.try_insert(9, Err(())));
    assert_eq!(table.len(), 2);
    assert!(table.contains(7));
    assert_eq!(table.take(7), Some(Ok(vec![1, 2, 3])));
    assert!(!table.contains(7));
    assert_eq!(table.take(7), None);
    assert_eq!(table.take(9), Some(Err(())));
    assert_eq!(table.len(), 0);
}

#[test]
fn take_of_an_absent_id_changes_nothing() {
    let mut table = ResponseTable::new();
    assert!(table.try_insert(1, Ok(vec![5])));
    assert_eq!(table.take(2), None);
    assert_eq!(table.len(), 1);
    assert_eq!(table.take(1), Some(Ok(vec![5])));
}

#[test]
fn second_reply_for_an_id_is_dropped() {
    let mut table = ResponseTable::new();
    assert!(table.try_insert(4, Ok(vec![1])));
    assert!(!table.try_insert(4, Ok(vec![2])));
    assert_eq!(table.len(), 1);
    assert_eq!(table.take(4), Some(Ok(vec![1])));
}

#[test]
fn thirty_third_reply_is_refused() {
    let mut table = ResponseTable::new();
    for id in 0..32u32 {
        assert!(table.try_insert(id, Ok(vec![id as u8])));
    }
    assert!(table.is_full());
    assert_eq!(table.len(), 32);
    assert!(!table.try_insert(32, Ok(vec![32])));
    assert!(!table.contains(32));
    assert_eq!(table.len(), 32);
    for id in 0..32u32 {
        assert_eq!(table.take(id), Some(Ok(vec![id as u8])));
    }
    assert_eq!(table.len(), 0);
}

#[test]
fn a_take_makes_room_in_a_full_table() {
    let mut table = ResponseTable::new();
    for id in 0..32u32 {
        assert!(table.try_insert(id, Err(())));
    }
    assert!(!table.try_insert(100, Ok(vec![])));
    assert_eq!(table.take(5), Some(Err(())));
    assert!(!table.is_full());
    assert!(table.try_insert(100, Ok(vec![])));
    assert_eq!(table.take(100), Some(Ok(vec![])));
}
