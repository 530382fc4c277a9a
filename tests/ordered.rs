use graph_tables::ordered::{
    contains_id, contains_sorted, insert_sorted, insert_unique, position_sorted, sorted_unique,
};

#[test]
fn sorted_unique_sorts_and_drops_repeats() {
    assert_eq!(sorted_unique(&vec![3, 1, 2, 3, -4, 1]), vec![-4, 1, 2, 3]);
    assert_eq!(sorted_unique(&vec![]), Vec::<i32>::new());
}

#[test]
fn insert_sorted_keeps_repeats() {
    let mut v = vec![1, 3, 3, 7];
    insert_sorted(&mut v, 3);
    insert_sorted(&mut v, 0);
    insert_sorted(&mut v, 9);
    assert_eq!(v, vec![0, 1, 3, 3, 3, 7, 9]);
}

#[test]
fn insert_unique_skips_present() {
    let mut v = vec![2, 4];
    insert_unique(&mut v, 4);
    insert_unique(&mut v, 3);
    assert_eq!(v, vec![2, 3, 4]);
}

#[test]
fn searches_find_members() {
    let v = vec![i32::MIN, -1, 5, i32::MAX];
    assert_eq!(position_sorted(&v, 5), Some(2));
    assert_eq!(position_sorted(&v, 6), None);
    assert!(contains_sorted(&v, i32::MAX));
    assert!(!contains_sorted(&v, 0));
    assert!(contains_id(&vec![9, 1, 4], 1));
    assert!(!contains_id(&vec![], 1));
}
