//! The delivery store's decisions. The database work (insert, lookups,
//! reading rows) is done by the caller, which hands each outcome back here.

use vstd::prelude::*;
use vstd::string::StringSliceAdditionalSpecFns;

use crate::domain::{Delivery, NewDelivery, RepositoryError, Timestamp};
use crate::formats::{
    format_rfc3339, format_uuid, parse_rfc3339, parse_uuid, rfc3339_instant, rfc3339_representable,
    rfc3339_text_of, uuid_hyphenated, uuid_parse,
};
use crate::json::{
    json_equal, json_parse, json_same, lemma_json_same_symmetric, lemma_member_order_ignored,
    names_unique, parse_json, same_members, Json,
};

verus! {

/// The record that a fresh enqueue writes: the request's target and
/// payload, status `pending`, no attempts yet.
pub open spec fn is_fresh_record(
    record: Delivery,
    target_url: String,
    payload: Json,
    id: u128,
    created_at: Timestamp,
) -> bool {
    &&& record.id == id
    &&& record.status@ == "pending"@
    &&& record.attempts == 0
    &&& record.target_url == target_url
    &&& record.payload == payload
    &&& record.created_at == created_at
}

/// Splits a request into its idempotency key and the record to insert.
pub fn fresh_record(new: NewDelivery, id: u128, created_at: Timestamp) -> (r: (String, Delivery))
    ensures
        r.0 == new.idempotency_key,
        is_fresh_record(r.1, new.target_url, new.payload, id, created_at),
{
    let NewDelivery { idempotency_key, target_url, payload } = new;
    let record = Delivery {
        id,
        status: "pending".to_owned(),
        attempts: 0,
        target_url,
        payload,
        created_at,
    };
    (idempotency_key, record)
}

/// A fresh record is pending, has not been attempted, and holds exactly
/// the id, time, target and payload it was made from.
pub proof fn lemma_fresh_record_is_pending(
    record: Delivery,
    target_url: String,
    payload: Json,
    id: u128,
    created_at: Timestamp,
)
    requires
        is_fresh_record(record, target_url, payload, id, created_at),
    ensures
        record.status@ == seq!['p', 'e', 'n', 'd', 'i', 'n', 'g'],
        record.attempts == 0,
        record.id == id && record.created_at == created_at,
        record.target_url == target_url && record.payload == payload,
{
    reveal_strlit("pending");
}

/// After an insert: a written row is a created delivery (the record
/// itself), a failure is a persistence error carrying its description,
/// and only a taken key leads to loading the existing row.
pub proof fn lemma_insert_outcomes(attempted: Delivery, outcome: InsertOutcome)
    ensures
        outcome is Inserted ==> insert_step(attempted, outcome) == EnqueueStep::Done(
            Ok((attempted, true)),
        ),
        (outcome matches InsertOutcome::Failed(detail) ==> insert_step(attempted, outcome)
            == EnqueueStep::Done(Err(RepositoryError::Persistence(detail)))),
        (insert_step(attempted, outcome) is LoadExisting) <==> outcome is DuplicateKey,
        insert_step(attempted, outcome) matches EnqueueStep::LoadExisting(d) ==> d == attempted,
{
}

/// Whether a stored delivery was made from the same content as an
/// attempted one: the same target URL and an equal payload.
pub open spec fn same_content(stored: Delivery, attempted: Delivery) -> bool {
    stored.target_url@ == attempted.target_url@ && json_same(stored.payload, attempted.payload)
}

/// What the database answered to the insert of a fresh record.
#[derive(Debug)]
pub enum InsertOutcome {
    /// The row was written.
    Inserted,
    /// Another row already holds the idempotency key.
    DuplicateKey,
    /// Any other failure, described.
    Failed(String),
}

/// What the store does after an insert.
#[derive(Debug)]
pub enum EnqueueStep {
    /// The enqueue is answered.
    Done(Result<(Delivery, bool), RepositoryError>),
    /// The key is taken: load the row that holds it, then call
    /// `after_lookup` with the attempted record given back here.
    LoadExisting(Delivery),
}

/// The answer to an insert: a written row is a created delivery, a taken
/// key sends the store to load the existing row, any other failure is a
/// persistence error.
pub open spec fn insert_step(attempted: Delivery, outcome: InsertOutcome) -> EnqueueStep {
    match outcome {
        InsertOutcome::Inserted => EnqueueStep::Done(Ok((attempted, true))),
        InsertOutcome::DuplicateKey => EnqueueStep::LoadExisting(attempted),
        InsertOutcome::Failed(detail) => EnqueueStep::Done(Err(RepositoryError::Persistence(detail))),
    }
}

/// Decides what follows an insert.
pub fn after_insert(attempted: Delivery, outcome: InsertOutcome) -> (r: EnqueueStep)
    ensures
        r == insert_step(attempted, outcome),
{
    match outcome {
        InsertOutcome::Inserted => EnqueueStep::Done(Ok((attempted, true))),
        InsertOutcome::DuplicateKey => EnqueueStep::LoadExisting(attempted),
        InsertOutcome::Failed(detail) => EnqueueStep::Done(Err(RepositoryError::Persistence(detail))),
    }
}

/// The answer to an enqueue whose key was taken, given the row that holds
/// the key: the same content replays that row (not created), other content
/// is a conflict, and a failed lookup is a persistence error.
pub open spec fn replay_outcome(attempted: Delivery, existing: Result<Delivery, String>) -> Result<
    (Delivery, bool),
    RepositoryError,
> {
    match existing {
        Ok(stored) => if same_content(stored, attempted) {
            Ok((stored, false))
        } else {
            Err(RepositoryError::Conflict)
        },
        Err(detail) => Err(RepositoryError::Persistence(detail)),
    }
}

/// Decides an enqueue whose key was taken.
pub fn after_lookup(attempted: Delivery, existing: Result<Delivery, String>) -> (r: Result<
    (Delivery, bool),
    RepositoryError,
>)
    ensures
        r == replay_outcome(attempted, existing),
{
    match existing {
        Ok(stored) => {
            if stored.target_url == attempted.target_url && json_equal(
                &stored.payload,
                &attempted.payload,
            ) {
                Ok((stored, false))
            } else {
                Err(RepositoryError::Conflict)
            }
        },
        Err(detail) => Err(RepositoryError::Persistence(detail)),
    }
}

/// The whole answer to an enqueue: the insert's outcome, then, when the
/// key was taken, the lookup of the row that holds it.
pub open spec fn enqueue_outcome(
    attempted: Delivery,
    outcome: InsertOutcome,
    existing: Result<Delivery, String>,
) -> Result<(Delivery, bool), RepositoryError> {
    match insert_step(attempted, outcome) {
        EnqueueStep::Done(result) => result,
        EnqueueStep::LoadExisting(attempted) => replay_outcome(attempted, existing),
    }
}

/// An enqueue reports a new delivery exactly when its own insert wrote the
/// row, and the delivery it then reports is the record it wrote. Of any
/// number of enqueues racing on one key, only the one whose insert wins
/// can report a creation.
pub proof fn lemma_created_only_by_own_insert(
    attempted: Delivery,
    outcome: InsertOutcome,
    existing: Result<Delivery, String>,
)
    ensures
        (enqueue_outcome(attempted, outcome, existing) matches Ok((_, true))) <==> outcome is Inserted,
        outcome is Inserted ==> enqueue_outcome(attempted, outcome, existing) == Ok::<
            (Delivery, bool),
            RepositoryError,
        >((attempted, true)),
{
}

/// Sending the same content again under a key that is taken is answered
/// with the stored delivery, as not created; other content is a conflict.
pub proof fn lemma_replay_or_conflict(attempted: Delivery, stored: Delivery)
    ensures
        same_content(stored, attempted) ==> enqueue_outcome(
            attempted,
            InsertOutcome::DuplicateKey,
            Ok(stored),
        ) == Ok::<(Delivery, bool), RepositoryError>((stored, false)),
        !same_content(stored, attempted) ==> enqueue_outcome(
            attempted,
            InsertOutcome::DuplicateKey,
            Ok(stored),
        ) == Err::<(Delivery, bool), RepositoryError>(RepositoryError::Conflict),
{
}

/// Resending under a taken key the same target and a payload equal to the
/// stored one as a JSON value (objects compared as maps, so member order
/// aside) is answered with the stored delivery, not created, each time it
/// is resent. The very request that created the delivery is one such
/// resend, since every payload equals itself (`lemma_json_same_reflexive`).
pub proof fn lemma_resend_replays(stored: Delivery, attempted: Delivery)
    requires
        attempted.target_url@ == stored.target_url@,
        json_same(attempted.payload, stored.payload),
    ensures
        enqueue_outcome(attempted, InsertOutcome::DuplicateKey, Ok(stored)) == Ok::<
            (Delivery, bool),
            RepositoryError,
        >((stored, false)),
{
    lemma_json_same_symmetric(attempted.payload, stored.payload);
}

/// A taken key replays only equal content: whenever an enqueue that finds
/// its key taken is answered with a delivery, that delivery is the stored
/// one, it is not reported as created, and the attempt had the stored
/// target and a payload equal to the stored one as JSON. Any other answer
/// to such an enqueue is the conflict.
pub proof fn lemma_taken_key_replays_only_equal_content(attempted: Delivery, stored: Delivery)
    ensures
        enqueue_outcome(attempted, InsertOutcome::DuplicateKey, Ok(stored)) matches Ok((d, created))
            ==> {
            &&& d == stored
            &&& !created
            &&& attempted.target_url@ == stored.target_url@
            &&& json_same(stored.payload, attempted.payload)
            &&& json_same(attempted.payload, stored.payload)
        },
        enqueue_outcome(attempted, InsertOutcome::DuplicateKey, Ok(stored)) is Err ==> enqueue_outcome(
            attempted,
            InsertOutcome::DuplicateKey,
            Ok(stored),
        ) == Err::<(Delivery, bool), RepositoryError>(RepositoryError::Conflict),
        !(attempted.target_url@ == stored.target_url@ && json_same(stored.payload, attempted.payload))
            ==> enqueue_outcome(attempted, InsertOutcome::DuplicateKey, Ok(stored)) == Err::<
            (Delivery, bool),
            RepositoryError,
        >(RepositoryError::Conflict),
{
    if json_same(stored.payload, attempted.payload) {
        lemma_json_same_symmetric(stored.payload, attempted.payload);
    }
}

/// A resend whose payload is the stored object with its members listed in
/// another order (each name once) replays the stored delivery.
pub proof fn lemma_reordered_resend_replays(
    stored: Delivery,
    attempted: Delivery,
    xs: Vec<(String, Json)>,
    ys: Vec<(String, Json)>,
)
    requires
        stored.payload == Json::Object(xs),
        attempted.payload == Json::Object(ys),
        attempted.target_url@ == stored.target_url@,
        names_unique(xs@),
        names_unique(ys@),
        same_members(xs@, ys@),
    ensures
        enqueue_outcome(attempted, InsertOutcome::DuplicateKey, Ok(stored)) == Ok::<
            (Delivery, bool),
            RepositoryError,
        >((stored, false)),
{
    lemma_member_order_ignored(xs, ys);
}

/// The description of an undecodable row, naming the first column that
/// could not be read.
pub open spec fn row_error_text(id_read: bool, payload_read: bool) -> Seq<char> {
    if !id_read {
        "stored id is not a UUID"@
    } else if !payload_read {
        "stored payload is not JSON"@
    } else {
        "stored creation time is not RFC 3339"@
    }
}

/// Builds the delivery that a stored row stands for, once its id, payload
/// and creation time have been read; a row with any of them unreadable is
/// a persistence error that names the first such column.
pub fn assemble_delivery(
    id: Option<u128>,
    status: String,
    attempts: i64,
    target_url: String,
    payload: Option<Json>,
    created_at: Option<Timestamp>,
) -> (r: Result<Delivery, RepositoryError>)
    ensures
        match (id, payload, created_at) {
            (Some(id), Some(payload), Some(created_at)) => r == Ok::<Delivery, RepositoryError>(
                Delivery { id, status, attempts, target_url, payload, created_at },
            ),
            _ => r matches Err(RepositoryError::Persistence(text)) && text@ == row_error_text(
                id is Some,
                payload is Some,
            ),
        },
{
    match id {
        None => Err(RepositoryError::Persistence("stored id is not a UUID".to_owned())),
        Some(id) => match payload {
            None => Err(RepositoryError::Persistence("stored payload is not JSON".to_owned())),
            Some(payload) => match created_at {
                None => Err(
                    RepositoryError::Persistence("stored creation time is not RFC 3339".to_owned()),
                ),
                Some(created_at) => Ok(
                    Delivery { id, status, attempts, target_url, payload, created_at },
                ),
            },
        },
    }
}

/// The delivery that a stored row's columns stand for, when its id is a
/// UUID, its payload was read as JSON and its creation time is RFC 3339.
pub open spec fn decoded_row(
    id: Seq<char>,
    status: String,
    attempts: i64,
    target_url: String,
    payload: Option<Json>,
    created_at: Seq<char>,
) -> Option<Delivery> {
    match (uuid_parse(id), payload, rfc3339_instant(created_at)) {
        (Some(id), Some(payload), Some((seconds, nanos))) => Some(
            Delivery {
                id,
                status,
                attempts,
                target_url,
                payload,
                created_at: Timestamp { seconds, nanos },
            },
        ),
        _ => None,
    }
}

/// Decodes a stored row: the id must be a UUID, the payload column must be
/// JSON text, and the creation time must be RFC 3339.
pub fn decode_delivery(
    id: &str,
    status: String,
    attempts: i64,
    target_url: String,
    payload: &str,
    created_at: &str,
) -> (r: Result<Delivery, RepositoryError>)
    ensures
        match decoded_row(
            id@,
            status,
            attempts,
            target_url,
            json_parse(payload.spec_bytes()),
            created_at@,
        ) {
            Some(d) => r == Ok::<Delivery, RepositoryError>(d),
            None => r matches Err(RepositoryError::Persistence(text)) && text@ == row_error_text(
                uuid_parse(id@) is Some,
                json_parse(payload.spec_bytes()) is Some,
            ),
        },
{
    let id = parse_uuid(id);
    let payload = parse_json(payload.as_bytes());
    let created_at = parse_rfc3339(created_at);
    assemble_delivery(id, status, attempts, target_url, payload, created_at)
}


/// The text columns that hold a delivery's id and creation time. The id
/// column reads back as the id; the time column exists, and reads back as
/// the creation time, for any instant in the years 0000 to 9999.
pub fn stored_columns(record: &Delivery) -> (r: Option<(String, String)>)
    ensures
        match r {
            Some((id, at)) => {
                &&& id@ == uuid_hyphenated(record.id)
                &&& rfc3339_text_of(record.created_at.seconds, record.created_at.nanos) == Some(at@)
                &&& uuid_parse(id@) == Some(record.id)
                &&& rfc3339_representable(record.created_at) ==> rfc3339_instant(at@) == Some(
                    (record.created_at.seconds, record.created_at.nanos),
                )
            },
            None => rfc3339_text_of(record.created_at.seconds, record.created_at.nanos) is None,
        },
        rfc3339_representable(record.created_at) ==> r is Some,
{
    let id = format_uuid(record.id);
    match format_rfc3339(record.created_at) {
        Some(at) => Some((id, at)),
        None => None,
    }
}

/// The text that the id column holds for a delivery id: its hyphenated
/// form, which reads back as the id.
pub fn id_column(id: u128) -> (r: String)
    ensures
        r@ == uuid_hyphenated(id),
        uuid_parse(r@) == Some(id),
{
    format_uuid(id)
}

/// A stored row reads back as the delivery that was written: when its id
/// and time columns read back as the record's id and creation time (as
/// `stored_columns` gives them) and its payload column parses as JSON,
/// decoding the row with the record's status, attempts and target gives
/// the record again, with the payload as parsed.
pub proof fn lemma_stored_row_reads_back(
    record: Delivery,
    id_text: Seq<char>,
    payload_text: Seq<u8>,
    at_text: Seq<char>,
)
    requires
        uuid_parse(id_text) == Some(record.id),
        json_parse(payload_text) is Some,
        rfc3339_instant(at_text) == Some((record.created_at.seconds, record.created_at.nanos)),
    ensures
        decoded_row(
            id_text,
            record.status,
            record.attempts,
            record.target_url,
            json_parse(payload_text),
            at_text,
        ) == Some(Delivery { payload: json_parse(payload_text)->Some_0, ..record }),
{
}

} // verus!
