use light_client::lists::find;

#[test]
fn find_gives_the_first_place() {
    assert_eq!(find(&vec![], 1), None);
    assert_eq!(find(&vec![4, 5, 6], 4), Some(0));
    assert_eq!(find(&vec![4, 5, 6], 6), Some(2));
    assert_eq!(find(&vec![4, 5, 4, 5], 5), Some(1));
    assert_eq!(find(&vec![4, 5, 6], 7), None);
}
