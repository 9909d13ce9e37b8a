use nearest_neighbor::nearest::nearest;

#[test]
fn nearest_of_nothing_is_none() {
    assert_eq!(nearest(&Vec::new()), None);
}

#[test]
fn nearest_is_place_of_smallest_key() {
    assert_eq!(nearest(&vec![7]), Some(0));
    assert_eq!(nearest(&vec![7, 3, 9]), Some(1));
    assert_eq!(nearest(&vec![7, 3, 9, 0]), Some(3));
    assert_eq!(nearest(&vec![1, 2, 3]), Some(0));
}

#[test]
fn nearest_keeps_first_of_equal_keys() {
    assert_eq!(nearest(&vec![4, 4]), Some(0));
    assert_eq!(nearest(&vec![5, 3, 3, 9, 3]), Some(1));
    assert_eq!(nearest(&vec![u64::MAX, u64::MAX]), Some(0));
}
