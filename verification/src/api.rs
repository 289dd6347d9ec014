//! The HTTP surface's decisions: which requests are refused and how, and
//! which status and body each outcome is answered with.

use vstd::prelude::*;
use vstd::utf8::encode_utf8;

use crate::domain::{Delivery, NewDelivery, RepositoryError};
use crate::store::{enqueue_outcome, same_content, InsertOutcome};
use crate::formats::{acceptable_url_parts, is_acceptable_target_url, parse_uuid, url_parse, uuid_parse};
use crate::idempotency_key::{idempotency_key, key_outcome, KeyRejection};
use crate::json::{field, json_parse, parse_json, Json};

verus! {

/// Why a request is refused. Each reason has a status, an error code and
/// a message.
#[derive(Clone, Copy, Debug, PartialEq, Eq, Structural)]
pub enum Rejection {
    /// No usable `Idempotency-Key` header (absent or not UTF-8).
    KeyMissing,
    /// The trimmed key is empty or longer than 128 bytes.
    KeyLength,
    /// The body could not be read; the status is the one the reader gave.
    BodyUnreadable(u16),
    /// The body is not JSON.
    BodyNotJson,
    /// `target_url` is absent, not a string, or not an HTTP(S) URL with a host.
    TargetUrlInvalid,
    /// The body has no `payload` member.
    PayloadMissing,
    /// The key was already used with other content.
    IdempotencyConflict,
    /// The store failed.
    Internal,
    /// No delivery has that id (or the id is not a UUID).
    DeliveryNotFound,
}

/// The HTTP status of a refusal.
pub open spec fn rejection_status(r: Rejection) -> u16 {
    match r {
        Rejection::KeyMissing => 400,
        Rejection::KeyLength => 400,
        Rejection::BodyUnreadable(status) => status,
        Rejection::BodyNotJson => 400,
        Rejection::TargetUrlInvalid => 422,
        Rejection::PayloadMissing => 400,
        Rejection::IdempotencyConflict => 409,
        Rejection::Internal => 500,
        Rejection::DeliveryNotFound => 404,
    }
}

/// The machine-readable code of a refusal.
pub open spec fn rejection_code(r: Rejection) -> Seq<char> {
    match r {
        Rejection::KeyMissing => "invalid_idempotency_key"@,
        Rejection::KeyLength => "invalid_idempotency_key"@,
        Rejection::BodyUnreadable(_) => "invalid_request"@,
        Rejection::BodyNotJson => "invalid_request"@,
        Rejection::TargetUrlInvalid => "invalid_target_url"@,
        Rejection::PayloadMissing => "invalid_request"@,
        Rejection::IdempotencyConflict => "idempotency_conflict"@,
        Rejection::Internal => "internal_error"@,
        Rejection::DeliveryNotFound => "delivery_not_found"@,
    }
}

/// The human-readable message of a refusal.
pub open spec fn rejection_message(r: Rejection) -> Seq<char> {
    match r {
        Rejection::KeyMissing => "Idempotency-Key is required"@,
        Rejection::KeyLength => "Idempotency-Key must be 1 to 128 bytes after trimming"@,
        Rejection::BodyUnreadable(_) => "Request body could not be read"@,
        Rejection::BodyNotJson => "Request body must be valid JSON"@,
        Rejection::TargetUrlInvalid => "target_url must be an absolute HTTP or HTTPS URL with a host"@,
        Rejection::PayloadMissing => "payload is required"@,
        Rejection::IdempotencyConflict => "Idempotency-Key was already used with different content"@,
        Rejection::Internal => "An internal error occurred"@,
        Rejection::DeliveryNotFound => "Delivery not found"@,
    }
}

/// Whether `body` is `{"error": {"code": code, "message": message}}`.
pub open spec fn is_error_body(body: Json, code: Seq<char>, message: Seq<char>) -> bool {
    &&& body matches Json::Object(outer)
    &&& outer@.len() == 1
    &&& outer@[0].0@ == "error"@
    &&& outer@[0].1 matches Json::Object(inner)
    &&& inner@.len() == 2
    &&& inner@[0].0@ == "code"@
    &&& inner@[0].1 matches Json::String(c) && c@ == code
    &&& inner@[1].0@ == "message"@
    &&& inner@[1].1 matches Json::String(m) && m@ == message
}

impl Rejection {
    /// The HTTP status of this refusal.
    pub fn status(&self) -> (s: u16)
        ensures
            s == rejection_status(*self),
    {
        match self {
            Rejection::KeyMissing => 400,
            Rejection::KeyLength => 400,
            Rejection::BodyUnreadable(status) => *status,
            Rejection::BodyNotJson => 400,
            Rejection::TargetUrlInvalid => 422,
            Rejection::PayloadMissing => 400,
            Rejection::IdempotencyConflict => 409,
            Rejection::Internal => 500,
            Rejection::DeliveryNotFound => 404,
        }
    }

    /// The machine-readable code of this refusal.
    pub fn code(&self) -> (c: &'static str)
        ensures
            c@ == rejection_code(*self),
    {
        match self {
            Rejection::KeyMissing => "invalid_idempotency_key",
            Rejection::KeyLength => "invalid_idempotency_key",
            Rejection::BodyUnreadable(_) => "invalid_request",
            Rejection::BodyNotJson => "invalid_request",
            Rejection::TargetUrlInvalid => "invalid_target_url",
            Rejection::PayloadMissing => "invalid_request",
            Rejection::IdempotencyConflict => "idempotency_conflict",
            Rejection::Internal => "internal_error",
            Rejection::DeliveryNotFound => "delivery_not_found",
        }
    }

    /// The human-readable message of this refusal.
    pub fn message(&self) -> (m: &'static str)
        ensures
            m@ == rejection_message(*self),
    {
        match self {
            Rejection::KeyMissing => "Idempotency-Key is required",
            Rejection::KeyLength => "Idempotency-Key must be 1 to 128 bytes after trimming",
            Rejection::BodyUnreadable(_) => "Request body could not be read",
            Rejection::BodyNotJson => "Request body must be valid JSON",
            Rejection::TargetUrlInvalid => "target_url must be an absolute HTTP or HTTPS URL with a host",
            Rejection::PayloadMissing => "payload is required",
            Rejection::IdempotencyConflict => "Idempotency-Key was already used with different content",
            Rejection::Internal => "An internal error occurred",
            Rejection::DeliveryNotFound => "Delivery not found",
        }
    }

    /// The JSON body of this refusal: `{"error": {"code": .., "message": ..}}`.
    pub fn body(&self) -> (b: Json)
        ensures
            is_error_body(b, rejection_code(*self), rejection_message(*self)),
    {
        let code = Json::String(self.code().to_owned());
        let message = Json::String(self.message().to_owned());
        let inner = Json::Object(vec![("code".to_owned(), code), ("message".to_owned(), message)]);
        Json::Object(vec![("error".to_owned(), inner)])
    }
}


/// The refusal for an unusable idempotency key.
pub open spec fn key_rejection(k: KeyRejection) -> Rejection {
    match k {
        KeyRejection::Missing => Rejection::KeyMissing,
        KeyRejection::BadLength => Rejection::KeyLength,
    }
}

/// The request body as the transport hands it over.
#[derive(Debug)]
pub enum RequestBody {
    /// The body could not be read; the reader's status.
    Unreadable(u16),
    /// The body was read but is not JSON.
    NotJson,
    /// The body, parsed as JSON.
    Parsed(Json),
}

/// The `Some` case of an optional header value, as bytes.
pub open spec fn header_bytes(raw: Option<&[u8]>) -> Option<Seq<u8>> {
    match raw {
        Some(b) => Some(b@),
        None => None,
    }
}

/// What an enqueue check decides, in this order: the `Idempotency-Key`
/// header, the body, a string `target_url`, a `payload` member (any JSON,
/// `null` included), and last that `target_url` is an HTTP(S) URL with a
/// host. The first check that fails decides the refusal.
pub open spec fn enqueue_decision(
    key_header: Option<Seq<u8>>,
    body: RequestBody,
    r: Result<NewDelivery, Rejection>,
) -> bool {
    match key_outcome(key_header) {
        Err(k) => r == Err::<NewDelivery, Rejection>(key_rejection(k)),
        Ok(key) => match body {
            RequestBody::Unreadable(status) => r == Err::<NewDelivery, Rejection>(
                Rejection::BodyUnreadable(status),
            ),
            RequestBody::NotJson => r == Err::<NewDelivery, Rejection>(Rejection::BodyNotJson),
            RequestBody::Parsed(json) => match field(json, "target_url"@) {
                Some(Json::String(url)) => match field(json, "payload"@) {
                    None => r == Err::<NewDelivery, Rejection>(Rejection::PayloadMissing),
                    Some(payload) => if acceptable_url_parts(url_parse(url@)) {
                        r matches Ok(new) && encode_utf8(new.idempotency_key@) == key
                            && new.target_url@ == url@ && new.payload == payload
                    } else {
                        r == Err::<NewDelivery, Rejection>(Rejection::TargetUrlInvalid)
                    },
                },
                _ => r == Err::<NewDelivery, Rejection>(Rejection::TargetUrlInvalid),
            },
        },
    }
}

/// The body as the checks see it: the reader's failure status, or the
/// bytes as `serde_json` parses them.
pub open spec fn request_body(body: Result<&[u8], u16>) -> RequestBody {
    match body {
        Err(status) => RequestBody::Unreadable(status),
        Ok(bytes) => match json_parse(bytes@) {
            Some(json) => RequestBody::Parsed(json),
            None => RequestBody::NotJson,
        },
    }
}

/// Any present payload is kept, whatever its kind (`{}`, `[]`, `null`,
/// ...): with a usable key, a string `target_url` that the URL rule
/// accepts, and a `payload` member, the check accepts the request with
/// that payload and target.
pub proof fn lemma_present_payload_is_kept(
    key_header: Option<Seq<u8>>,
    json: Json,
    url: String,
    r: Result<NewDelivery, Rejection>,
)
    requires
        enqueue_decision(key_header, RequestBody::Parsed(json), r),
        key_outcome(key_header) is Ok,
        field(json, "target_url"@) == Some(Json::String(url)),
        acceptable_url_parts(url_parse(url@)),
        field(json, "payload"@) is Some,
    ensures
        r matches Ok(new) && new.payload == field(json, "payload"@)->Some_0 && new.target_url@
            == url@,
{
}

/// A missing payload is the only reason for `PayloadMissing`: the body was
/// JSON and had no `payload` member.
pub proof fn lemma_payload_missing_only_when_absent(
    key_header: Option<Seq<u8>>,
    body: RequestBody,
    r: Result<NewDelivery, Rejection>,
)
    requires
        enqueue_decision(key_header, body, r),
        r == Err::<NewDelivery, Rejection>(Rejection::PayloadMissing),
    ensures
        (body matches RequestBody::Parsed(json) && field(json, "payload"@) is None),
{
}

/// What an accepted request satisfies: its key is the header's key, its
/// body was JSON with a string `target_url` that the URL rule accepts, and
/// its payload is the body's `payload` member.
pub proof fn lemma_accepted_request(
    key_header: Option<Seq<u8>>,
    body: RequestBody,
    r: Result<NewDelivery, Rejection>,
)
    requires
        enqueue_decision(key_header, body, r),
        r is Ok,
    ensures
        key_outcome(key_header) == Ok::<Seq<u8>, KeyRejection>(
            encode_utf8(r->Ok_0.idempotency_key@),
        ),
        (body matches RequestBody::Parsed(json) && field(json, "payload"@) == Some(r->Ok_0.payload)
            && (field(json, "target_url"@) matches Some(Json::String(url)) && url@
            == r->Ok_0.target_url@)),
        acceptable_url_parts(url_parse(r->Ok_0.target_url@)),
{
}

/// An unusable key decides the refusal, whatever the body: the answer is
/// a key refusal.
pub proof fn lemma_key_checked_first(
    key_header: Option<Seq<u8>>,
    body: RequestBody,
    r: Result<NewDelivery, Rejection>,
)
    requires
        enqueue_decision(key_header, body, r),
        key_outcome(key_header) is Err,
    ensures
        r == Err::<NewDelivery, Rejection>(Rejection::KeyMissing) || r == Err::<
            NewDelivery,
            Rejection,
        >(Rejection::KeyLength),
{
}

/// Checks an enqueue request whose body has been read: `Err` holds the
/// status the reader failed with, `Ok` the raw bytes, which are parsed as
/// JSON here. The checks are those of `check_enqueue`.
pub fn validate_enqueue(key_header: Option<&[u8]>, body: Result<&[u8], u16>) -> (r: Result<
    NewDelivery,
    Rejection,
>)
    ensures
        enqueue_decision(header_bytes(key_header), request_body(body), r),
{
    let body = match body {
        Err(status) => RequestBody::Unreadable(status),
        Ok(bytes) => match parse_json(bytes) {
            Some(json) => RequestBody::Parsed(json),
            None => RequestBody::NotJson,
        },
    };
    check_enqueue(key_header, body)
}

/// Checks an enqueue request once its body has been parsed (see
/// `enqueue_decision` for the order of the checks).
pub fn check_enqueue(key_header: Option<&[u8]>, body: RequestBody) -> (r: Result<
    NewDelivery,
    Rejection,
>)
    ensures
        enqueue_decision(header_bytes(key_header), body, r),
{
    let key = match idempotency_key(key_header) {
        Ok(key) => key,
        Err(KeyRejection::Missing) => return Err(Rejection::KeyMissing),
        Err(KeyRejection::BadLength) => return Err(Rejection::KeyLength),
    };
    let json = match body {
        RequestBody::Unreadable(status) => return Err(Rejection::BodyUnreadable(status)),
        RequestBody::NotJson => return Err(Rejection::BodyNotJson),
        RequestBody::Parsed(json) => json,
    };
    let target_name = "target_url".to_owned();
    let target_url = match json.get(&target_name) {
        Some(Json::String(url)) => url.clone(),
        _ => return Err(Rejection::TargetUrlInvalid),
    };
    let payload_name = "payload".to_owned();
    let payload = match json.take(&payload_name) {
        Some(payload) => payload,
        None => return Err(Rejection::PayloadMissing),
    };
    if !is_acceptable_target_url(target_url.as_str()) {
        return Err(Rejection::TargetUrlInvalid);
    }
    Ok(NewDelivery::new(key, target_url, payload))
}


/// How the service answers a request that reached the store.
#[derive(Debug)]
pub enum Reply {
    /// A new delivery was enqueued (201).
    Created(Delivery),
    /// The key was already used with the same content: the stored delivery (200).
    Replayed(Delivery),
    /// The delivery that was asked for (200).
    Found(Delivery),
    /// A refusal, with its own status and error body.
    Refused(Rejection),
}

/// The HTTP status of a reply.
pub open spec fn reply_status(r: Reply) -> u16 {
    match r {
        Reply::Created(_) => 201,
        Reply::Replayed(_) => 200,
        Reply::Found(_) => 200,
        Reply::Refused(rejection) => rejection_status(rejection),
    }
}

impl Reply {
    /// The HTTP status of this reply.
    pub fn status(&self) -> (s: u16)
        ensures
            s == reply_status(*self),
    {
        match self {
            Reply::Created(_) => 201,
            Reply::Replayed(_) => 200,
            Reply::Found(_) => 200,
            Reply::Refused(rejection) => rejection.status(),
        }
    }
}

/// The reply to an enqueue, from the store's answer: created or replayed
/// deliveries are returned, a conflict is refused with 409, and a store
/// failure is an internal error.
pub open spec fn enqueue_reply_for(result: Result<(Delivery, bool), RepositoryError>) -> Reply {
    match result {
        Ok((delivery, true)) => Reply::Created(delivery),
        Ok((delivery, false)) => Reply::Replayed(delivery),
        Err(RepositoryError::Conflict) => Reply::Refused(Rejection::IdempotencyConflict),
        Err(RepositoryError::Persistence(_)) => Reply::Refused(Rejection::Internal),
    }
}

/// Turns the store's answer to an enqueue into the reply.
pub fn enqueue_reply(result: Result<(Delivery, bool), RepositoryError>) -> (r: Reply)
    ensures
        r == enqueue_reply_for(result),
{
    match result {
        Ok((delivery, created)) => if created {
            Reply::Created(delivery)
        } else {
            Reply::Replayed(delivery)
        },
        Err(RepositoryError::Conflict) => Reply::Refused(Rejection::IdempotencyConflict),
        Err(RepositoryError::Persistence(_)) => Reply::Refused(Rejection::Internal),
    }
}

/// The reply to a lookup, from the store's answer: a found delivery is
/// returned, a missing one is 404, and any store error is an internal error.
pub open spec fn lookup_reply_for(result: Result<Option<Delivery>, RepositoryError>) -> Reply {
    match result {
        Ok(Some(delivery)) => Reply::Found(delivery),
        Ok(None) => Reply::Refused(Rejection::DeliveryNotFound),
        Err(_) => Reply::Refused(Rejection::Internal),
    }
}

/// Turns the store's answer to a lookup into the reply.
pub fn lookup_reply(result: Result<Option<Delivery>, RepositoryError>) -> (r: Reply)
    ensures
        r == lookup_reply_for(result),
{
    match result {
        Ok(Some(delivery)) => Reply::Found(delivery),
        Ok(None) => Reply::Refused(Rejection::DeliveryNotFound),
        Err(_) => Reply::Refused(Rejection::Internal),
    }
}

/// Decides on the id segment of a lookup path once it has been read as a
/// UUID: an id that is not a UUID is answered as an unknown delivery.
pub fn lookup_id(parsed: Option<u128>) -> (r: Result<u128, Rejection>)
    ensures
        match parsed {
            Some(id) => r == Ok::<u128, Rejection>(id),
            None => r == Err::<u128, Rejection>(Rejection::DeliveryNotFound),
        },
{
    match parsed {
        Some(id) => Ok(id),
        None => Err(Rejection::DeliveryNotFound),
    }
}

/// Reads the id segment of `/v1/deliveries/{id}`; `None` when the router
/// could not extract it. Missing segments and text that is not a UUID are
/// answered as an unknown delivery.
pub fn delivery_id(segment: Option<&str>) -> (r: Result<u128, Rejection>)
    ensures
        match segment {
            None => r == Err::<u128, Rejection>(Rejection::DeliveryNotFound),
            Some(text) => match uuid_parse(text@) {
                Some(id) => r == Ok::<u128, Rejection>(id),
                None => r == Err::<u128, Rejection>(Rejection::DeliveryNotFound),
            },
        },
{
    match segment {
        None => Err(Rejection::DeliveryNotFound),
        Some(text) => lookup_id(parse_uuid(text)),
    }
}

/// The body of the health check: `{"status": "ok"}`.
pub fn health_body() -> (b: Json)
    ensures
        b matches Json::Object(members) && members@.len() == 1 && members@[0].0@ == "status"@ && (
        members@[0].1 matches Json::String(s) && s@ == "ok"@),
{
    Json::Object(vec![("status".to_owned(), Json::String("ok".to_owned()))])
}


/// Only an enqueue whose own insert wrote the row is answered 201; an
/// enqueue that finds its key taken is answered 200 with the stored
/// delivery when the content is the same, and 409 `idempotency_conflict`
/// otherwise.
pub proof fn lemma_enqueue_reply_statuses(
    attempted: Delivery,
    outcome: InsertOutcome,
    stored: Delivery,
)
    ensures
        (reply_status(enqueue_reply_for(enqueue_outcome(attempted, outcome, Ok(stored)))) == 201)
            <==> outcome is Inserted,
        outcome is DuplicateKey && same_content(stored, attempted) ==> enqueue_reply_for(
            enqueue_outcome(attempted, outcome, Ok(stored)),
        ) == Reply::Replayed(stored),
        outcome is DuplicateKey && !same_content(stored, attempted) ==> {
            let reply = enqueue_reply_for(enqueue_outcome(attempted, outcome, Ok(stored)));
            &&& reply == Reply::Refused(Rejection::IdempotencyConflict)
            &&& reply_status(reply) == 409
            &&& rejection_code(Rejection::IdempotencyConflict) == "idempotency_conflict"@
        },
{
}


/// Store failures are never shown as anything but an internal error: any
/// persistence error, on enqueue or lookup, is answered 500 with the code
/// `internal_error`; a conflict on enqueue is 409; a missing delivery on
/// lookup is 404 `delivery_not_found`, and a found one is returned with 200.
pub proof fn lemma_store_answers_map_to_statuses(
    enqueued: Result<(Delivery, bool), RepositoryError>,
    looked_up: Result<Option<Delivery>, RepositoryError>,
)
    ensures
        enqueued matches Err(RepositoryError::Persistence(_)) ==> reply_status(
            enqueue_reply_for(enqueued),
        ) == 500 && enqueue_reply_for(enqueued) == Reply::Refused(Rejection::Internal)
            && rejection_code(Rejection::Internal) == "internal_error"@,
        enqueued matches Err(RepositoryError::Conflict) ==> reply_status(enqueue_reply_for(enqueued))
            == 409,
        enqueued matches Ok((d, true)) ==> enqueue_reply_for(enqueued) == Reply::Created(d)
            && reply_status(enqueue_reply_for(enqueued)) == 201,
        enqueued matches Ok((d, false)) ==> enqueue_reply_for(enqueued) == Reply::Replayed(d)
            && reply_status(enqueue_reply_for(enqueued)) == 200,
        looked_up is Err ==> reply_status(lookup_reply_for(looked_up)) == 500,
        looked_up matches Ok(None) ==> reply_status(lookup_reply_for(looked_up)) == 404
            && lookup_reply_for(looked_up) == Reply::Refused(Rejection::DeliveryNotFound),
        looked_up matches Ok(Some(d)) ==> lookup_reply_for(looked_up) == Reply::Found(d)
            && reply_status(lookup_reply_for(looked_up)) == 200,
{
}

/// Every refusal of a request that never reached the store is a client
/// error (status 400 to 499), except an unreadable body, which keeps the
/// reader's status; only a store failure is 500.
pub proof fn lemma_refusal_statuses(r: Rejection)
    ensures
        r !is BodyUnreadable && r !is Internal ==> 400 <= rejection_status(r) < 500,
        r matches Rejection::BodyUnreadable(s) ==> rejection_status(r) == s,
        r is Internal <==> (r !is BodyUnreadable && rejection_status(r) == 500),
{
}

} // verus!
