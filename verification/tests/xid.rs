use xkbcompose::xid::{next, setup, Xid, XidError};

#[test]
fn fresh_allocator_has_no_ids() {
    let mut xid = Xid::new();
    assert_eq!(next(&mut xid), Err(XidError::RanOutOfXid));
    assert_eq!(xid.next(), Err(XidError::RanOutOfXid));
}

#[test]
fn ids_step_through_contiguous_mask() {
    let mut xid = Xid::new();
    assert_eq!(setup(&mut xid, 0x0040_0000, 0x001f_ffff), Ok(()));
    assert_eq!(next(&mut xid), Ok(0x0040_0000));
    assert_eq!(next(&mut xid), Ok(0x0040_0001));
    assert_eq!(next(&mut xid), Ok(0x0040_0002));
}

#[test]
fn ids_step_by_lowest_mask_bit_until_exhausted() {
    let mut xid = Xid::new();
    setup(&mut xid, 0x0500_0000, 0xf0).unwrap();
    let mut ids = Vec::new();
    while let Ok(id) = next(&mut xid) {
        ids.push(id);
    }
    let expected: Vec<u32> = (0..16u32).map(|i| 0x0500_0000 | (i << 4)).collect();
    assert_eq!(ids, expected);
    // exhaustion is permanent
    assert_eq!(next(&mut xid), Err(XidError::RanOutOfXid));
    assert_eq!(next(&mut xid), Err(XidError::RanOutOfXid));
}

#[test]
fn ids_are_distinct_and_in_range() {
    let mut xid = Xid::new();
    let base = 0x0a00_0000;
    let mask = 0x0000_0ff0;
    setup(&mut xid, base, mask).unwrap();
    let mut seen = std::collections::BTreeSet::new();
    while let Ok(id) = xid.next() {
        assert_eq!(id & !mask, base & !mask);
        assert!(seen.insert(id), "id {id:#x} handed out twice");
    }
    assert_eq!(seen.len(), 256);
}

#[test]
fn noncontiguous_mask_stops_at_a_gap() {
    let mut xid = Xid::new();
    setup(&mut xid, 0, 0b101).unwrap();
    assert_eq!(next(&mut xid), Ok(0));
    assert_eq!(next(&mut xid), Ok(1));
    assert_eq!(next(&mut xid), Err(XidError::RanOutOfXid));
}

#[test]
fn counter_overflow_exhausts() {
    let mut xid = Xid::new();
    setup(&mut xid, 0, 0x8000_0000).unwrap();
    assert_eq!(next(&mut xid), Ok(0));
    assert_eq!(next(&mut xid), Ok(0x8000_0000));
    assert_eq!(next(&mut xid), Err(XidError::RanOutOfXid));
}

#[test]
fn setup_restarts_the_range() {
    let mut xid = Xid::new();
    setup(&mut xid, 0x100, 0x3).unwrap();
    while next(&mut xid).is_ok() {}
    setup(&mut xid, 0x200, 0x3).unwrap();
    assert_eq!(next(&mut xid), Ok(0x200));
}

#[test]
fn zero_mask_gives_no_ids() {
    let mut xid = Xid::new();
    setup(&mut xid, 0x100, 0).unwrap();
    assert_eq!(next(&mut xid), Err(XidError::RanOutOfXid));
}
