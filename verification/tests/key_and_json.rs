use relaybox::idempotency_key::{idempotency_key, KeyRejection, MAX_KEY_BYTES};
use relaybox::json::{json_equal, number_equal, Json, JsonNumber};

#[test]
fn keys_are_trimmed_of_ascii_whitespace() {
    assert_eq!(idempotency_key(Some(b"  key-1\t")), Ok("key-1".to_owned()));
    assert_eq!(idempotency_key(Some(b"key-1")), Ok("key-1".to_owned()));
    assert_eq!(idempotency_key(Some(b" \t\n\x0c\rin ner\r\n")), Ok("in ner".to_owned()));
    // Vertical tab is not ASCII whitespace for `char::is_ascii_whitespace`.
    assert_eq!(idempotency_key(Some(b"\x0bk")), Ok("\u{b}k".to_owned()));
    // A non-ASCII space is kept.
    assert_eq!(idempotency_key(Some("\u{a0}k".as_bytes())), Ok("\u{a0}k".to_owned()));
    assert_eq!(idempotency_key(Some("clé".as_bytes())), Ok("clé".to_owned()));
}

#[test]
fn key_length_is_counted_in_bytes_after_trimming() {
    let longest = vec![b'a'; MAX_KEY_BYTES];
    assert_eq!(idempotency_key(Some(&longest)).unwrap().len(), 128);
    let too_long = vec![b'a'; MAX_KEY_BYTES + 1];
    assert_eq!(idempotency_key(Some(&too_long)), Err(KeyRejection::BadLength));
    let mut padded = vec![b' '; 10];
    padded.extend(vec![b'a'; MAX_KEY_BYTES]);
    padded.extend(vec![b'\t'; 10]);
    assert!(idempotency_key(Some(&padded)).is_ok());
    // 43 three-byte characters: 129 bytes.
    let wide = "€".repeat(43);
    assert_eq!(idempotency_key(Some(wide.as_bytes())), Err(KeyRejection::BadLength));
    assert_eq!(idempotency_key(Some(b"")), Err(KeyRejection::BadLength));
    assert_eq!(idempotency_key(Some(b" \t ")), Err(KeyRejection::BadLength));
}

#[test]
fn keys_must_be_present_and_utf8() {
    assert_eq!(idempotency_key(None), Err(KeyRejection::Missing));
    assert_eq!(idempotency_key(Some(&[0xff, 0x61])), Err(KeyRejection::Missing));
    assert_eq!(idempotency_key(Some(&[0x20, 0xc3, 0x20])), Err(KeyRejection::Missing));
    // Not UTF-8 wins over an empty key.
    assert_eq!(idempotency_key(Some(&[0x20, 0x80])), Err(KeyRejection::Missing));
}

#[test]
fn accepted_key_is_accepted_again_unchanged() {
    let key = idempotency_key(Some(b"\t k e y \n")).unwrap();
    assert_eq!(idempotency_key(Some(key.as_bytes())), Ok(key.clone()));
}


fn copy_json(v: &Json) -> Json {
    match v {
        Json::Null => Json::Null,
        Json::Bool(b) => Json::Bool(*b),
        Json::Number(n) => Json::Number(*n),
        Json::String(s) => Json::String(s.clone()),
        Json::Array(items) => Json::Array(items.iter().map(copy_json).collect()),
        Json::Object(members) => Json::Object(members.iter().map(|(k, v)| (k.clone(), copy_json(v))).collect()),
    }
}

fn pos(n: u64) -> Json {
    Json::Number(JsonNumber::PosInt(n))
}

#[test]
fn json_numbers_compare_by_form_and_value() {
    assert!(number_equal(&JsonNumber::PosInt(3), &JsonNumber::PosInt(3)));
    assert!(!number_equal(&JsonNumber::PosInt(3), &JsonNumber::Float(3.0f64.to_bits())));
    assert!(number_equal(&JsonNumber::NegInt(-3), &JsonNumber::NegInt(-3)));
    assert!(!number_equal(&JsonNumber::NegInt(-3), &JsonNumber::NegInt(-4)));
    assert!(number_equal(&JsonNumber::Float(0.0f64.to_bits()), &JsonNumber::Float((-0.0f64).to_bits())));
    assert!(number_equal(&JsonNumber::Float(2.5f64.to_bits()), &JsonNumber::Float(2.5f64.to_bits())));
    assert!(!number_equal(&JsonNumber::Float(2.5f64.to_bits()), &JsonNumber::Float(2.25f64.to_bits())));
}

#[test]
fn json_values_compare_deeply() {
    let a = Json::Object(vec![
        ("a".to_owned(), Json::Array(vec![pos(1), Json::Null, Json::String("x".to_owned())])),
        ("b".to_owned(), Json::Bool(false)),
    ]);
    assert!(json_equal(&a, &copy_json(&a)));
    let b = Json::Object(vec![
        ("a".to_owned(), Json::Array(vec![pos(1), Json::Null, Json::String("y".to_owned())])),
        ("b".to_owned(), Json::Bool(false)),
    ]);
    assert!(!json_equal(&a, &b));
    let renamed = Json::Object(vec![
        ("a".to_owned(), Json::Array(vec![pos(1), Json::Null, Json::String("x".to_owned())])),
        ("c".to_owned(), Json::Bool(false)),
    ]);
    assert!(!json_equal(&a, &renamed));
    assert!(!json_equal(&Json::Array(vec![pos(1)]), &Json::Array(vec![pos(1), pos(1)])));
    assert!(!json_equal(&Json::Null, &Json::Bool(false)));
    assert!(!json_equal(&Json::String("1".to_owned()), &pos(1)));
}

#[test]
fn object_members_are_found_by_name() {
    let v = Json::Object(vec![("a".to_owned(), pos(1)), ("b".to_owned(), pos(2))]);
    assert!(json_equal(v.get(&"b".to_owned()).unwrap(), &pos(2)));
    assert!(v.get(&"c".to_owned()).is_none());
    assert!(Json::Array(vec![pos(1)]).get(&"a".to_owned()).is_none());
    assert!(json_equal(&copy_json(&v).take(&"a".to_owned()).unwrap(), &pos(1)));
    assert!(v.take(&"z".to_owned()).is_none());
}

#[test]
fn object_equality_ignores_member_order() {
    let ab = Json::Object(vec![("a".to_owned(), pos(1)), ("b".to_owned(), pos(2))]);
    let ba = Json::Object(vec![("b".to_owned(), pos(2)), ("a".to_owned(), pos(1))]);
    assert!(json_equal(&ab, &ba));
    assert!(json_equal(&ba, &ab));
    let nested_ab = Json::Array(vec![copy_json(&ab), Json::Object(vec![("x".to_owned(), copy_json(&ba))])]);
    let nested_ba = Json::Array(vec![copy_json(&ba), Json::Object(vec![("x".to_owned(), copy_json(&ab))])]);
    assert!(json_equal(&nested_ab, &nested_ba));
    let ab_other = Json::Object(vec![("b".to_owned(), pos(3)), ("a".to_owned(), pos(1))]);
    assert!(!json_equal(&ab, &ab_other));
    let a_only = Json::Object(vec![("a".to_owned(), pos(1))]);
    assert!(!json_equal(&ab, &a_only));
    assert!(!json_equal(&a_only, &ab));
    assert!(json_equal(&Json::Object(vec![]), &Json::Object(vec![])));
}

#[test]
fn repeated_names_stand_for_their_first_member() {
    let repeated = Json::Object(vec![("a".to_owned(), pos(1)), ("a".to_owned(), pos(9))]);
    let single = Json::Object(vec![("a".to_owned(), pos(1))]);
    assert!(json_equal(&repeated, &single));
    assert!(json_equal(&single, &repeated));
    let other = Json::Object(vec![("a".to_owned(), pos(9))]);
    assert!(!json_equal(&repeated, &other));
}
