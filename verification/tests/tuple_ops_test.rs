use picow::editor::tuple_ops::t;

#[test]
fn test_add() {
    assert_eq!(t(1, 2).add(t(3, 4)), t(4, 6));
}

#[test]
fn test_sub() {
    assert_eq!(t(1, 2).sub(t(3, 4)), t(0, 0));
    assert_eq!(t(3, 4).sub(t(1, 2)), t(2, 2));
}
