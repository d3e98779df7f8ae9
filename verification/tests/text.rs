use srg_core::text::{chars_of, comes_before, decimal_text, signed_decimal_text};
use srg_core::textmap::TextMap;

#[test]
fn numbers_are_written_in_decimal() {
    assert_eq!(decimal_text(0), "0");
    assert_eq!(decimal_text(10), "10");
    assert_eq!(decimal_text(9876543210), "9876543210");
    assert_eq!(decimal_text(u128::MAX), u128::MAX.to_string());
    assert_eq!(signed_decimal_text(-7), "-7");
    assert_eq!(signed_decimal_text(42), "42");
    assert_eq!(signed_decimal_text(i128::MIN), i128::MIN.to_string());
}

#[test]
fn texts_come_in_the_order_of_their_characters() {
    let texts = ["", "A", "B", "a", "ab", "b", "ä", "€", "𝄞"];
    for (i, a) in texts.iter().enumerate() {
        for (j, b) in texts.iter().enumerate() {
            assert_eq!(comes_before(a, b), i < j, "{a:?} {b:?}");
            assert_eq!(comes_before(a, b), a < b);
        }
    }
    assert_eq!(chars_of("aß"), vec!['a', 'ß']);
}

#[test]
fn a_map_keeps_its_keys_in_order() {
    let mut m: TextMap<i64> = TextMap::new();
    assert!(m.entries.is_empty());
    m.insert("b".to_owned(), 1);
    m.insert("a".to_owned(), 2);
    m.insert("c".to_owned(), 3);
    m.insert("b".to_owned(), 4);
    let entries: Vec<(&str, i64)> = m.entries.iter().map(|(k, v)| (k.as_str(), *v)).collect();
    assert_eq!(entries, [("a", 2), ("b", 4), ("c", 3)]);
}
