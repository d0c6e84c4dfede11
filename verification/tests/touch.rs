use conrod::input::touch::Id;

#[test]
fn touch_ids_are_ordered_by_their_values() {
    assert!(Id::new(1) < Id::new(2));
    assert!(!(Id::new(3) < Id::new(2)));
    assert!(Id::new(2) <= Id::new(2));
    assert_eq!(Id::new(4), Id::new(4));
    assert!(Id::new(4) != Id::new(5));
}
