use sharing::sync::ThreadSafeSharedCell;

#[test]
fn thread_safe_cell_counts_and_hands_back_once() {
    let a = ThreadSafeSharedCell::new(String::from("shared"));
    assert_eq!(a.strong_count(), 1);
    let b = a.clone_cell();
    assert_eq!(a.strong_count(), 2);
    assert_eq!(b.get(), "shared");
    assert_eq!(a.into_inner(), None);
    assert_eq!(b.strong_count(), 1);
    assert_eq!(b.into_inner(), Some(String::from("shared")));
}
