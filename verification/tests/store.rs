use relaybox::domain::{Delivery, NewDelivery, RepositoryError, Timestamp};
use relaybox::json::{json_equal, Json, JsonNumber};
use relaybox::store::{
    after_insert, after_lookup, assemble_delivery, decode_delivery, fresh_record, stored_columns,
    EnqueueStep, InsertOutcome,
};


fn copy_json(v: &Json) -> Json {
    match v {
        Json::Null => Json::Null,
        Json::Bool(b) => Json::Bool(*b),
        Json::Number(n) => Json::Number(*n),
        Json::String(s) => Json::String(s.clone()),
        Json::Array(items) => Json::Array(items.iter().map(copy_json).collect()),
        Json::Object(members) => Json::Object(members.iter().map(|(k, v)| (k.clone(), copy_json(v))).collect()),
    }
}

fn copy_delivery(d: &Delivery) -> Delivery {
    Delivery {
        id: d.id,
        status: d.status.clone(),
        attempts: d.attempts,
        target_url: d.target_url.clone(),
        payload: copy_json(&d.payload),
        created_at: d.created_at,
    }
}

fn sample(target_url: &str, payload: Json) -> Delivery {
    Delivery {
        id: 7,
        status: "pending".to_owned(),
        attempts: 0,
        target_url: target_url.to_owned(),
        payload,
        created_at: Timestamp { seconds: 10, nanos: 20 },
    }
}

#[test]
fn fresh_record_is_pending_with_no_attempts() {
    let new = NewDelivery::new("key".to_owned(), "https://a.test".to_owned(), Json::Bool(true));
    let at = Timestamp { seconds: -5, nanos: 999_999_999 };
    let (key, record) = fresh_record(new, 42, at);
    assert_eq!(key, "key");
    assert_eq!(record.id, 42);
    assert_eq!(record.status, "pending");
    assert_eq!(record.attempts, 0);
    assert_eq!(record.target_url, "https://a.test");
    assert!(json_equal(&record.payload, &Json::Bool(true)));
    assert_eq!(record.created_at, at);
}

#[test]
fn insert_outcomes_decide_the_next_step() {
    match after_insert(sample("https://a.test", Json::Null), InsertOutcome::Inserted) {
        EnqueueStep::Done(Ok((d, created))) => {
            assert!(created);
            assert_eq!(d.id, 7);
        }
        other => panic!("unexpected step {:?}", other),
    }
    match after_insert(sample("https://a.test", Json::Null), InsertOutcome::DuplicateKey) {
        EnqueueStep::LoadExisting(d) => assert_eq!(d.id, 7),
        other => panic!("unexpected step {:?}", other),
    }
    match after_insert(sample("https://a.test", Json::Null), InsertOutcome::Failed("locked".to_owned())) {
        EnqueueStep::Done(Err(RepositoryError::Persistence(detail))) => assert_eq!(detail, "locked"),
        other => panic!("unexpected step {:?}", other),
    }
}

#[test]
fn taken_key_replays_same_content_and_refuses_other_content() {
    let stored = Delivery { id: 99, ..sample("https://a.test", Json::Number(JsonNumber::PosInt(1))) };
    let same = after_lookup(sample("https://a.test", Json::Number(JsonNumber::PosInt(1))), Ok(copy_delivery(&stored)));
    match same {
        Ok((d, created)) => {
            assert!(!created);
            assert_eq!(d.id, 99);
        }
        other => panic!("unexpected result {:?}", other),
    }
    let other_url = after_lookup(sample("https://b.test", Json::Number(JsonNumber::PosInt(1))), Ok(copy_delivery(&stored)));
    assert!(matches!(other_url, Err(RepositoryError::Conflict)));
    let other_payload = after_lookup(sample("https://a.test", Json::Number(JsonNumber::PosInt(2))), Ok(copy_delivery(&stored)));
    assert!(matches!(other_payload, Err(RepositoryError::Conflict)));
    // 1 and 1.0 are different JSON numbers.
    let float_one = Json::Number(JsonNumber::Float(1.0f64.to_bits()));
    let as_float = after_lookup(sample("https://a.test", float_one), Ok(stored));
    assert!(matches!(as_float, Err(RepositoryError::Conflict)));
    // The same object with its members in another order is the same payload.
    let stored_object = Delivery {
        id: 5,
        ..sample("https://a.test", Json::Object(vec![
            ("a".to_owned(), Json::Number(JsonNumber::PosInt(1))),
            ("b".to_owned(), Json::Number(JsonNumber::PosInt(2))),
        ]))
    };
    let reordered = sample("https://a.test", Json::Object(vec![
        ("b".to_owned(), Json::Number(JsonNumber::PosInt(2))),
        ("a".to_owned(), Json::Number(JsonNumber::PosInt(1))),
    ]));
    match after_lookup(reordered, Ok(stored_object)) {
        Ok((d, created)) => {
            assert!(!created);
            assert_eq!(d.id, 5);
        }
        other => panic!("unexpected result {:?}", other),
    }
    let failed = after_lookup(sample("https://a.test", Json::Null), Err("no row".to_owned()));
    assert!(matches!(failed, Err(RepositoryError::Persistence(d)) if d == "no row"));
}

#[test]
fn stored_rows_decode_or_name_the_bad_column() {
    let d = decode_delivery(
        "a1a2a3a4-b1b2-c1c2-d1d2-d3d4d5d6d7d8",
        "pending".to_owned(),
        3,
        "https://a.test".to_owned(),
        "null",
        "2024-01-02T03:04:05.5+01:00",
    )
    .unwrap();
    assert_eq!(d.id, 0xa1a2a3a4b1b2c1c2d1d2d3d4d5d6d7d8);
    assert_eq!(d.attempts, 3);
    assert_eq!(d.created_at, Timestamp { seconds: 1_704_161_045, nanos: 500_000_000 });

    let bad_id = decode_delivery("x", "pending".to_owned(), 0, "u".to_owned(), "{", "nope");
    assert!(matches!(bad_id, Err(RepositoryError::Persistence(t)) if t == "stored id is not a UUID"));
    let bad_payload = decode_delivery(
        "a1a2a3a4-b1b2-c1c2-d1d2-d3d4d5d6d7d8", "pending".to_owned(), 0, "u".to_owned(), "{", "nope");
    assert!(matches!(bad_payload, Err(RepositoryError::Persistence(t)) if t == "stored payload is not JSON"));
    let bad_time = decode_delivery(
        "a1a2a3a4-b1b2-c1c2-d1d2-d3d4d5d6d7d8", "pending".to_owned(), 0, "u".to_owned(), "null",
        "2024-01-02 03:04:05");
    assert!(matches!(bad_time, Err(RepositoryError::Persistence(t)) if t == "stored creation time is not RFC 3339"));
}

#[test]
fn assembled_rows_keep_their_columns() {
    let at = Timestamp { seconds: 1, nanos: 2 };
    let d = assemble_delivery(Some(5), "sent".to_owned(), 4, "https://a.test".to_owned(), Some(Json::Bool(false)), Some(at)).unwrap();
    assert_eq!(d.id, 5);
    assert_eq!(d.status, "sent");
    assert_eq!(d.attempts, 4);
    assert_eq!(d.created_at, at);
    let missing = assemble_delivery(Some(5), "sent".to_owned(), 4, "u".to_owned(), Some(Json::Null), None);
    assert!(matches!(missing, Err(RepositoryError::Persistence(t)) if t == "stored creation time is not RFC 3339"));
}

#[test]
fn stored_columns_read_back_as_the_record() {
    let record = Delivery {
        id: 0xa1a2a3a4b1b2c1c2d1d2d3d4d5d6d7d8,
        created_at: Timestamp { seconds: 1_704_161_045, nanos: 500_000_000 },
        ..sample("https://a.test", Json::Null)
    };
    let (id_text, at_text) = stored_columns(&record).unwrap();
    assert_eq!(id_text, "a1a2a3a4-b1b2-c1c2-d1d2-d3d4d5d6d7d8");
    assert_eq!(at_text, "2024-01-02T02:04:05.500+00:00");
    let back = decode_delivery(&id_text, record.status.clone(), record.attempts, record.target_url.clone(), "null", &at_text).unwrap();
    assert_eq!(back.id, record.id);
    assert_eq!(back.created_at, record.created_at);
    for at in [
        Timestamp { seconds: 0, nanos: 0 },
        Timestamp { seconds: -62_167_219_200, nanos: 1 },
        Timestamp { seconds: 253_402_300_799, nanos: 999_999_999 },
        Timestamp { seconds: 1, nanos: 120_000 },
    ] {
        let record = Delivery { created_at: at, ..sample("https://a.test", Json::Null) };
        let (id_text, at_text) = stored_columns(&record).unwrap();
        let back = decode_delivery(&id_text, "pending".to_owned(), 0, "u".to_owned(), "null", &at_text).unwrap();
        assert_eq!(back.created_at, at, "{}", at_text);
        assert_eq!(back.id, 7);
    }
    // Nanoseconds past a second that is not a leap second have no instant.
    let leap = Delivery { created_at: Timestamp { seconds: 10, nanos: 1_500_000_000 }, ..sample("u", Json::Null) };
    assert!(stored_columns(&leap).is_none());
}
