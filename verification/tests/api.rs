use relaybox::api::{
    check_enqueue, delivery_id, enqueue_reply, health_body, lookup_reply, validate_enqueue,
    Rejection, Reply, RequestBody,
};
use relaybox::domain::{Delivery, NewDelivery, RepositoryError, Timestamp};
use relaybox::json::{json_equal, Json, JsonNumber};
use relaybox::store::{
    after_insert, after_lookup, decode_delivery, fresh_record, stored_columns, EnqueueStep,
    InsertOutcome,
};

fn text(s: &str) -> Json {
    Json::String(s.to_owned())
}

fn num(n: u64) -> Json {
    Json::Number(JsonNumber::PosInt(n))
}

fn object(members: Vec<(&str, Json)>) -> Json {
    Json::Object(members.into_iter().map(|(k, v)| (k.to_owned(), v)).collect())
}

fn body(target_url: &str, payload: Json) -> RequestBody {
    RequestBody::Parsed(object(vec![("payload", payload), ("target_url", text(target_url))]))
}


fn copy_json(v: &Json) -> Json {
    match v {
        Json::Null => Json::Null,
        Json::Bool(b) => Json::Bool(*b),
        Json::Number(n) => Json::Number(*n),
        Json::String(s) => Json::String(s.clone()),
        Json::Array(items) => Json::Array(items.iter().map(copy_json).collect()),
        Json::Object(members) => Json::Object(members.iter().map(|(k, v)| (k.clone(), copy_json(v))).collect()),
    }
}

fn copy_delivery(d: &Delivery) -> Delivery {
    Delivery {
        id: d.id,
        status: d.status.clone(),
        attempts: d.attempts,
        target_url: d.target_url.clone(),
        payload: copy_json(&d.payload),
        created_at: d.created_at,
    }
}

const CREATED_AT: Timestamp = Timestamp { seconds: 1_700_000_000, nanos: 123_456_789 };

/// Runs an enqueue through the store's decisions, with `stored` standing
/// for the row that already holds the key, if any.
fn enqueue(new: NewDelivery, id: u128, stored: Option<&Delivery>) -> Result<(Delivery, bool), RepositoryError> {
    let (_key, record) = fresh_record(new, id, CREATED_AT);
    let outcome = if stored.is_some() { InsertOutcome::DuplicateKey } else { InsertOutcome::Inserted };
    match after_insert(record, outcome) {
        EnqueueStep::Done(result) => result,
        EnqueueStep::LoadExisting(attempted) => after_lookup(attempted, Ok(copy_delivery(stored.unwrap()))),
    }
}

#[test]
fn enqueue_replay_conflict_and_query_are_durable() {
    let input = br#"{"target_url":"https://example.test/webhooks","payload":{"a":1,"b":2}}"#;
    let new = validate_enqueue(Some(b"  key-1\t"), Ok(input)).unwrap();
    assert_eq!(new.idempotency_key, "key-1");
    let id = 0x0123_4567_89ab_cdef_0123_4567_89ab_cdefu128;
    let reply = enqueue_reply(enqueue(new, id, None));
    assert_eq!(reply.status(), 201);
    let created = match reply {
        Reply::Created(d) => d,
        other => panic!("unexpected reply {:?}", other),
    };
    assert_eq!(created.status, "pending");
    assert_eq!(created.attempts, 0);

    let reordered = br#"{"target_url":"https://example.test/webhooks","payload":{"b":2,"a":1}}"#;
    let replay = validate_enqueue(Some(b"key-1"), Ok(reordered)).unwrap();
    let reply = enqueue_reply(enqueue(replay, id + 1, Some(&created)));
    assert_eq!(reply.status(), 200);
    match &reply {
        Reply::Replayed(d) => assert_eq!(d.id, created.id),
        other => panic!("unexpected reply {:?}", other),
    }

    let other = br#"{"target_url":"https://other.test/","payload":{"a":1}}"#;
    let other = validate_enqueue(Some(b"key-1"), Ok(other)).unwrap();
    let reply = enqueue_reply(enqueue(other, id + 2, Some(&created)));
    assert_eq!(reply.status(), 409);
    match reply {
        Reply::Refused(r) => assert_eq!(r.code(), "idempotency_conflict"),
        other => panic!("unexpected reply {:?}", other),
    }

    // Reading the stored row back gives the delivery that was created.
    let (id_text, at_text) = stored_columns(&created).unwrap();
    let queried = decode_delivery(
        &id_text,
        created.status.clone(),
        created.attempts,
        created.target_url.clone(),
        r#"{"a":1,"b":2}"#,
        &at_text,
    )
    .unwrap();
    let reply = lookup_reply(Ok(Some(queried)));
    assert_eq!(reply.status(), 200);
    match reply {
        Reply::Found(d) => {
            assert_eq!(d.id, created.id);
            assert_eq!(d.status, created.status);
            assert_eq!(d.attempts, created.attempts);
            assert_eq!(d.target_url, created.target_url);
            assert!(json_equal(&d.payload, &created.payload));
            assert_eq!(d.created_at, created.created_at);
        }
        other => panic!("unexpected reply {:?}", other),
    }
    assert_eq!(delivery_id(Some(id_text.as_str())), Ok(id));
    assert_eq!(id_text, "01234567-89ab-cdef-0123-456789abcdef");
}

#[test]
fn validates_requests_and_handles_concurrent_same_key() {
    let no_key = br#"{"target_url":"https://example.test","payload":null}"#;
    let missing_key = validate_enqueue(None, Ok(no_key)).unwrap_err();
    assert_eq!(missing_key.status(), 400);
    let ftp = br#"{"target_url":"ftp://example.test","payload":null}"#;
    let invalid_url = validate_enqueue(Some(b"k"), Ok(ftp)).unwrap_err();
    assert_eq!(invalid_url.status(), 422);
    assert_eq!(invalid_url.code(), "invalid_target_url");
    let not_found = delivery_id(Some("not-a-uuid")).unwrap_err();
    assert_eq!(not_found.status(), 404);
    match health_body() {
        Json::Object(members) => {
            assert_eq!(members.len(), 1);
            assert_eq!(members[0].0, "status");
            assert!(json_equal(&members[0].1, &text("ok")));
        }
        other => panic!("unexpected body {:?}", other),
    }

    // Eight requests race on one key: the database lets exactly one insert through.
    let racing = br#"{"target_url":"https://example.test","payload":[1,true]}"#;
    let mut stored: Option<Delivery> = None;
    let mut created = 0;
    let mut ids = Vec::new();
    for n in 0..8u128 {
        let new = validate_enqueue(Some(b"racing-key"), Ok(racing)).unwrap();
        let reply = enqueue_reply(enqueue(new, 100 + n, stored.as_ref()));
        assert!(reply.status() == 201 || reply.status() == 200);
        match reply {
            Reply::Created(d) => {
                created += 1;
                ids.push(d.id);
                stored = Some(d);
            }
            Reply::Replayed(d) => ids.push(d.id),
            other => panic!("unexpected reply {:?}", other),
        }
    }
    assert_eq!(created, 1);
    assert!(ids.iter().all(|id| *id == ids[0]));
}

#[test]
fn raw_bodies_are_read_as_json() {
    assert_eq!(validate_enqueue(Some(b"k"), Err(413)).unwrap_err(), Rejection::BodyUnreadable(413));
    assert_eq!(validate_enqueue(Some(b"k"), Ok(b"{not json")).unwrap_err(), Rejection::BodyNotJson);
    assert_eq!(validate_enqueue(Some(b"k"), Ok(b"")).unwrap_err(), Rejection::BodyNotJson);
    // The key is checked before the body.
    assert_eq!(validate_enqueue(None, Ok(b"{not json")).unwrap_err(), Rejection::KeyMissing);
    assert_eq!(validate_enqueue(Some(b"k"), Ok(b"[1,2]")).unwrap_err(), Rejection::TargetUrlInvalid);
    assert_eq!(
        validate_enqueue(Some(b"k"), Ok(br#"{"target_url":"https://a.test"}"#)).unwrap_err(),
        Rejection::PayloadMissing
    );
    let new = validate_enqueue(
        Some(b"k"),
        Ok(br#" {"payload": {"n": -3, "f": 2.5, "s": "\u00e9", "l": [null, false]}, "target_url": "https://a.test/x"} "#),
    )
    .unwrap();
    assert_eq!(new.target_url, "https://a.test/x");
    let expected = object(vec![
        ("f", Json::Number(JsonNumber::Float(2.5f64.to_bits()))),
        ("l", Json::Array(vec![Json::Null, Json::Bool(false)])),
        ("n", Json::Number(JsonNumber::NegInt(-3))),
        ("s", text("é")),
    ]);
    assert!(json_equal(&new.payload, &expected));
}

#[test]
fn refusals_follow_the_order_of_the_checks() {
    // The key is checked before anything in the body.
    assert_eq!(check_enqueue(None, RequestBody::NotJson).unwrap_err(), Rejection::KeyMissing);
    assert_eq!(check_enqueue(Some(b"   "), RequestBody::NotJson).unwrap_err(), Rejection::KeyLength);
    let unreadable = check_enqueue(Some(b"k"), RequestBody::Unreadable(413)).unwrap_err();
    assert_eq!(unreadable, Rejection::BodyUnreadable(413));
    assert_eq!(unreadable.status(), 413);
    assert_eq!(unreadable.code(), "invalid_request");
    assert_eq!(check_enqueue(Some(b"k"), RequestBody::NotJson).unwrap_err(), Rejection::BodyNotJson);
    // A missing or non-string target_url comes before a missing payload.
    let no_target = RequestBody::Parsed(object(vec![("target_url", num(3))]));
    assert_eq!(check_enqueue(Some(b"k"), no_target).unwrap_err(), Rejection::TargetUrlInvalid);
    let not_object = RequestBody::Parsed(Json::Array(vec![]));
    assert_eq!(check_enqueue(Some(b"k"), not_object).unwrap_err(), Rejection::TargetUrlInvalid);
    // A missing payload comes before a bad URL.
    let no_payload = RequestBody::Parsed(object(vec![("target_url", text("ftp://x"))]));
    let refusal = check_enqueue(Some(b"k"), no_payload).unwrap_err();
    assert_eq!(refusal, Rejection::PayloadMissing);
    assert_eq!(refusal.status(), 400);
    assert_eq!(refusal.message(), "payload is required");
}

#[test]
fn accepted_request_keeps_its_parts() {
    let new = check_enqueue(
        Some(b"\r\n order-7 \x0c"),
        body("http://hooks.example.test:8080/in?x=1", Json::Null),
    )
    .unwrap();
    assert_eq!(new.idempotency_key, "order-7");
    assert_eq!(new.target_url, "http://hooks.example.test:8080/in?x=1");
    assert!(json_equal(&new.payload, &Json::Null));
    // Upper-case schemes are read as the lower-case ones.
    assert!(check_enqueue(Some(b"k"), body("HTTPS://EXAMPLE.TEST/", Json::Null)).is_ok());
}

#[test]
fn target_urls_without_http_scheme_or_host_are_refused() {
    for url in ["mailto:someone@example.test", "file:///tmp/x", "not a url", "", "/relative/path", "unix:/run/x"] {
        let refusal = check_enqueue(Some(b"k"), body(url, Json::Null)).unwrap_err();
        assert_eq!(refusal, Rejection::TargetUrlInvalid, "{}", url);
    }
}

#[test]
fn replies_map_store_answers() {
    let conflict = enqueue_reply(Err(RepositoryError::Conflict));
    assert_eq!(conflict.status(), 409);
    let failure = enqueue_reply(Err(RepositoryError::Persistence("disk full".to_owned())));
    assert_eq!(failure.status(), 500);
    match failure {
        Reply::Refused(r) => {
            assert_eq!(r.code(), "internal_error");
            assert_eq!(r.message(), "An internal error occurred");
        }
        other => panic!("unexpected reply {:?}", other),
    }
    let missing = lookup_reply(Ok(None));
    assert_eq!(missing.status(), 404);
    let lookup_conflict = lookup_reply(Err(RepositoryError::Conflict));
    assert_eq!(lookup_conflict.status(), 500);
    let lookup_failure = lookup_reply(Err(RepositoryError::Persistence("gone".to_owned())));
    assert_eq!(lookup_failure.status(), 500);
}

#[test]
fn every_refusal_has_its_status_code_and_message() {
    let cases = [
        (Rejection::KeyMissing, 400, "invalid_idempotency_key", "Idempotency-Key is required"),
        (Rejection::KeyLength, 400, "invalid_idempotency_key", "Idempotency-Key must be 1 to 128 bytes after trimming"),
        (Rejection::BodyUnreadable(415), 415, "invalid_request", "Request body could not be read"),
        (Rejection::BodyNotJson, 400, "invalid_request", "Request body must be valid JSON"),
        (Rejection::TargetUrlInvalid, 422, "invalid_target_url", "target_url must be an absolute HTTP or HTTPS URL with a host"),
        (Rejection::PayloadMissing, 400, "invalid_request", "payload is required"),
        (Rejection::IdempotencyConflict, 409, "idempotency_conflict", "Idempotency-Key was already used with different content"),
        (Rejection::Internal, 500, "internal_error", "An internal error occurred"),
        (Rejection::DeliveryNotFound, 404, "delivery_not_found", "Delivery not found"),
    ];
    for (rejection, status, code, message) in cases {
        assert_eq!(rejection.status(), status);
        assert_eq!(rejection.code(), code);
        assert_eq!(rejection.message(), message);
        let expected = object(vec![("error", object(vec![("code", text(code)), ("message", text(message))]))]);
        assert!(json_equal(&rejection.body(), &expected));
        assert_eq!(Reply::Refused(rejection).status(), status);
    }
}

#[test]
fn delivery_ids_are_read_as_uuids() {
    assert_eq!(
        delivery_id(Some("a1a2a3a4-b1b2-c1c2-d1d2-d3d4d5d6d7d8")),
        Ok(0xa1a2a3a4b1b2c1c2d1d2d3d4d5d6d7d8)
    );
    assert_eq!(delivery_id(Some("A1A2A3A4B1B2C1C2D1D2D3D4D5D6D7D8")), Ok(0xa1a2a3a4b1b2c1c2d1d2d3d4d5d6d7d8));
    assert_eq!(delivery_id(Some("a1a2a3a4-b1b2-c1c2-d1d2-d3d4d5d6d7d")), Err(Rejection::DeliveryNotFound));
    assert_eq!(delivery_id(Some("")), Err(Rejection::DeliveryNotFound));
    assert_eq!(delivery_id(None), Err(Rejection::DeliveryNotFound));
}
