use mailbox::ids::IdSource;

#[test]
fn ids_start_at_zero_and_rise_by_one() {
    let mut ids = IdSource::new();
    assert_eq!(ids.issue(), 0);
    assert_eq!(ids.issue(), 1);
    assert_eq!(ids.issue(), 2);
}

#[test]
fn ids_wrap_to_zero_after_the_largest() {
    let mut ids = IdSource::starting_at(u32::MAX - 1);
    assert_eq!(ids.issue(), u32::MAX - 1);
    assert_eq!(ids.issue(), u32::MAX);
    assert_eq!(ids.issue(), 0);
    assert_eq!(ids.issue(), 1);
}

#[test]
fn ids_do_not_repeat_across_the_wrap() {
    let mut ids = IdSource::starting_at(u32::MAX - 500);
    let mut seen: Vec<u32> = Vec::new();
    for _ in 0..1000 {
        let id = ids.issue();
        assert!(!seen.contains(&id));
        if let Some(last) = seen.last() {
            assert_eq!(id, last.wrapping_add(1));
        }
        seen.push(id);
    }
}
