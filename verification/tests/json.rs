//! JSON documents and identifiers.
use vibe_kanban::ids::Uuid;
use vibe_kanban::json::Json;

#[test]
fn documents_are_read_from_text() {
    let value = Json::parse(r#"{"b": [1, -2, true, null, "x\ny"], "a": {"c": 1.5}}"#).unwrap();
    let items = value.get("b").unwrap().as_array().unwrap();
    assert_eq!(items.len(), 5);
    assert_eq!(items[0], Json::Integer(1));
    assert_eq!(items[1].as_i64(), Some(-2));
    assert_eq!(items[2].as_bool(), Some(true));
    assert_eq!(items[3], Json::Null);
    assert_eq!(items[4].as_str(), Some("x\ny"));
    assert_eq!(value.get("a").unwrap().get("c"), Some(&Json::Decimal("1.5".to_string())));
    assert_eq!(value.get("missing"), None);
    assert_eq!(Json::Null.get("b"), None);
    assert_eq!(value.clone(), value);
}

#[test]
fn text_that_is_no_document_is_refused() {
    assert_eq!(Json::parse(""), None);
    assert_eq!(Json::parse("{"), None);
    assert_eq!(Json::parse("1 2"), None);
    assert_eq!(Json::parse_bytes(b"not json"), None);
    assert_eq!(Json::parse_bytes(&[0xff, 0xfe]), None);
}

#[test]
fn documents_are_read_from_bytes() {
    assert_eq!(Json::parse_bytes(b" [\"a\"] "), Some(Json::Array(vec![Json::string("a")])));
    assert_eq!(Json::parse_bytes(b"null"), Some(Json::Null));
}

#[test]
fn numbers_keep_their_range() {
    assert_eq!(Json::parse("9223372036854775807").unwrap().as_i64(), Some(i64::MAX));
    assert_eq!(Json::parse("9223372036854775808").unwrap().as_i64(), None);
    assert_eq!(Json::parse("18446744073709551615"), Some(Json::Integer(u64::MAX as i128)));
    assert_eq!(Json::parse("-9223372036854775808").unwrap().as_i64(), Some(i64::MIN));
    assert_eq!(Json::parse("1.0").unwrap().as_i64(), None);
    assert_eq!(Json::string("5").as_i64(), None);
}

#[test]
fn the_last_of_two_members_with_one_key_is_kept() {
    let value = Json::parse(r#"{"a": 1, "a": 2}"#).unwrap();
    assert_eq!(value.get("a"), Some(&Json::Integer(2)));
}

#[test]
fn identifiers_are_written_with_hyphens() {
    assert_eq!(Uuid::from_u128(0).to_text(), "00000000-0000-0000-0000-000000000000");
    assert_eq!(
        Uuid::from_u128(0x0123_4567_89ab_cdef_0011_2233_4455_6677).to_text(),
        "01234567-89ab-cdef-0011-223344556677"
    );
    assert_eq!(Uuid::from_u128(u128::MAX).to_text(), "ffffffff-ffff-ffff-ffff-ffffffffffff");
}

#[test]
fn random_identifiers_have_version_and_variant() {
    let id = Uuid::new_v4();
    let text = id.to_text();
    assert_eq!(text.as_bytes()[14], b'4');
    assert!(matches!(text.as_bytes()[19], b'8' | b'9' | b'a' | b'b'));
    assert_ne!(id, Uuid::new_v4());
    assert_eq!(uuid::Uuid::parse_str(&text).unwrap().as_u128(), id.bits);
}
