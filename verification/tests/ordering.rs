use icp_backend::order::{compare_keys, compare_lex, KeyOrder, KeyRelation};

#[test]
fn lexicographic_order_goes_byte_by_byte() {
    assert_eq!(compare_lex(b"abc", b"abd"), KeyRelation::Less);
    assert_eq!(compare_lex(b"abd", b"abc"), KeyRelation::Greater);
    assert_eq!(compare_lex(b"abc", b"abc"), KeyRelation::Equal);
    assert_eq!(compare_lex(b"", b""), KeyRelation::Equal);
}

#[test]
fn a_proper_prefix_comes_first() {
    assert_eq!(compare_lex(b"ab", b"abc"), KeyRelation::Less);
    assert_eq!(compare_lex(b"abc", b"ab"), KeyRelation::Greater);
    assert_eq!(compare_lex(b"", b"a"), KeyRelation::Less);
}

#[test]
fn lexicographic_order_ignores_length() {
    assert_eq!(
        compare_keys(KeyOrder::Lexicographic, b"b", b"aa"),
        KeyRelation::Greater
    );
    assert_eq!(
        compare_keys(KeyOrder::Lexicographic, &[1, 255], &[2]),
        KeyRelation::Less
    );
}

#[test]
fn length_first_order_puts_shorter_keys_first() {
    assert_eq!(
        compare_keys(KeyOrder::LengthFirst, b"b", b"aa"),
        KeyRelation::Less
    );
    assert_eq!(
        compare_keys(KeyOrder::LengthFirst, b"aa", b"b"),
        KeyRelation::Greater
    );
    assert_eq!(
        compare_keys(KeyOrder::LengthFirst, &[9, 9], &[9, 10]),
        KeyRelation::Less
    );
    assert_eq!(
        compare_keys(KeyOrder::LengthFirst, &[4], &[4]),
        KeyRelation::Equal
    );
}
