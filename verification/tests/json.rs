use srg_core::json::Json;
use srg_core::textmap::TextMap;

fn text(s: &str) -> Json {
    Json::Text(s.to_owned())
}

fn fraction(s: &str) -> Json {
    Json::Fraction(s.to_owned())
}

fn sample() -> Json {
    Json::Object(vec![
        ("a".to_owned(), Json::Array(vec![Json::Null, Json::Bool(true), Json::Bool(false)])),
        ("b".to_owned(), Json::Number(-12)),
        ("c".to_owned(), fraction("1.5")),
        ("d".to_owned(), text("x\"y")),
        ("e".to_owned(), Json::Array(vec![])),
        ("f".to_owned(), Json::Object(vec![])),
    ])
}

#[test]
fn the_text_is_compact() {
    assert_eq!(
        sample().to_text(),
        r#"{"a":[null,true,false],"b":-12,"c":1.5,"d":"x\"y","e":[],"f":{}}"#
    );
}

#[test]
fn the_text_is_what_serde_json_writes() {
    let line = sample().to_text();
    let value: serde_json::Value = serde_json::from_str(&line).unwrap();
    assert_eq!(serde_json::to_string(&value).unwrap(), line);
}

#[test]
fn strings_are_escaped() {
    assert_eq!(text("").to_text(), "\"\"");
    assert_eq!(
        text("\"\\/\u{8}\t\n\u{c}\r").to_text(),
        r#""\"\\/\b\t\n\f\r""#
    );
    assert_eq!(text("\0\u{1}\u{1f}").to_text(), r#""\u0000\u0001\u001f""#);
    assert_eq!(text("ü€𝄞\u{7f}\u{2028}").to_text(), "\"ü€𝄞\u{7f}\u{2028}\"");
}

#[test]
fn numbers_keep_their_digits() {
    assert_eq!(Json::Number(u64::MAX as i128).to_text(), "18446744073709551615");
    assert_eq!(Json::Number(i64::MIN as i128).to_text(), "-9223372036854775808");
    assert_eq!(fraction("2.5e-7").to_text(), "2.5e-7");
}

#[test]
fn equality_goes_by_the_value() {
    let values = [
        Json::Null,
        Json::Bool(true),
        Json::Bool(false),
        Json::Number(1),
        Json::Number(2),
        fraction("1.0"),
        text("1"),
        Json::Array(vec![Json::Number(1)]),
        Json::Array(vec![Json::Number(1), Json::Number(2)]),
        Json::Array(vec![]),
        Json::Object(vec![]),
        Json::Object(vec![("a".to_owned(), Json::Number(1))]),
        Json::Object(vec![("a".to_owned(), Json::Number(2))]),
        Json::Object(vec![("b".to_owned(), Json::Number(1))]),
        sample(),
    ];
    for (i, a) in values.iter().enumerate() {
        for (j, b) in values.iter().enumerate() {
            assert_eq!(a.same(b), i == j, "{a:?} {b:?}");
            assert_eq!(a == b, i == j);
            assert_eq!(a.to_text() == b.to_text(), i == j);
        }
    }
}

#[test]
fn a_zero_with_a_fraction_has_no_sign() {
    assert!(fraction("0.0").same(&fraction("-0.0")));
    assert!(fraction("-0.0").same(&fraction("0.0")));
    assert!(!fraction("0.0").same(&fraction("-0.5")));
    assert_ne!(fraction("0.0").to_text(), fraction("-0.0").to_text());
}

#[test]
fn a_clone_is_the_same_value() {
    let value = sample();
    assert_eq!(value.clone(), value);
    assert_eq!(value.clone().to_text(), value.to_text());
}

#[test]
fn an_object_of_a_map_has_its_names_in_order() {
    let mut inner = TextMap::new();
    inner.insert("y".to_owned(), Json::Null);
    inner.insert("x".to_owned(), Json::Bool(true));
    let mut map = TextMap::new();
    map.insert("b".to_owned(), Json::array(vec![Json::object(inner), Json::Number(1)]));
    map.insert("a".to_owned(), text("first"));
    map.insert("c".to_owned(), Json::array(vec![]));
    assert_eq!(
        Json::object(map).to_text(),
        r#"{"a":"first","b":[{"x":true,"y":null},1],"c":[]}"#
    );
    assert_eq!(Json::object(TextMap::new()).to_text(), "{}");
}
