use quinn_proto::range_set::RangeSet;

#[test]
fn range_set_merges_adjacent() {
    let mut set = RangeSet::new();
    assert!(set.insert(0..2));
    assert!(set.insert(2..4));
    assert!(!set.insert(1..3));
    assert_eq!(set.iter(), vec![0..4]);
    assert_eq!(set.min(), Some(0));
}

#[test]
fn range_set_disjoint_and_pop() {
    let mut set = RangeSet::new();
    assert!(set.is_empty());
    set.insert(10..12);
    set.insert(0..2);
    assert_eq!(set.iter(), vec![0..2, 10..12]);
    assert_eq!(set.peek_min(), Some(0..2));
    assert_eq!(set.pop_min(), Some(0..2));
    assert_eq!(set.iter(), vec![10..12]);
    assert_eq!(set.pred(11), Some((10, 12)));
    assert_eq!(set.pred(9), None);
    assert_eq!(set.succ(5), Some((10, 12)));
    assert_eq!(set.succ(11), None);
}

#[test]
fn range_set_replace_reports_overlap() {
    let mut set = RangeSet::new();
    set.insert(0..2);
    set.insert(4..6);
    let mut r = set.replace(1..5);
    assert_eq!(r.next(), Some(1..2));
    assert_eq!(r.next(), Some(4..5));
    assert_eq!(r.next(), None);
    assert_eq!(set.iter(), vec![0..6]);
}
