use srg_core::SrgError;

#[test]
fn every_error_says_what_it_is() {
    assert_eq!(
        SrgError::Deck("29 cards".to_owned()).message(),
        "deck error: 29 cards"
    );
    assert_eq!(
        SrgError::Conformance("event 3 differs".to_owned()).message(),
        "conformance mismatch: event 3 differs"
    );
    assert_eq!(
        SrgError::Io { path: "a/b.jsonl".to_owned(), source: "not found".to_owned() }.message(),
        "I/O error for 'a/b.jsonl': not found"
    );
    assert_eq!(
        SrgError::Json("expected value".to_owned()).message(),
        "JSON error: expected value"
    );
}
