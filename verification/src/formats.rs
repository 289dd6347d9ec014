//! Text formats that outside crates read: URLs (`url`), UUIDs (`uuid`)
//! and RFC 3339 timestamps (`chrono`).

use vstd::prelude::*;

use vstd::arithmetic::power::pow;

use crate::domain::Timestamp;

verus! {

/// What `url::Url::parse` gives for `input`: `None` when it refuses the
/// text, else the URL's scheme and whether the URL has a host.
pub uninterp spec fn url_parse(input: Seq<char>) -> Option<(Seq<char>, bool)>;

/// The UUID that `uuid::Uuid::parse_str` reads from `input`, as its
/// 128-bit value (`Uuid::as_u128`).
pub uninterp spec fn uuid_parse(input: Seq<char>) -> Option<u128>;

/// The instant that `chrono::DateTime::parse_from_rfc3339` reads from
/// `input`, as seconds and nanoseconds since the Unix epoch in UTC.
pub uninterp spec fn rfc3339_instant(input: Seq<char>) -> Option<(i64, u32)>;

/// The lower-case hexadecimal digit for `n` (0 to 15).
pub open spec fn hex_digit(n: int) -> char {
    if n < 10 {
        (48 + n) as char
    } else {
        (87 + n) as char
    }
}

/// Nibble `k` (0 to 31) of `id`, counting from the most significant.
pub open spec fn uuid_nibble(id: u128, k: int) -> int {
    (id as int / pow(16, (31 - k) as nat)) % 16
}

/// The hyphenated form of a UUID, as `uuid::Uuid`'s `Display` writes it:
/// its 32 nibbles in lower-case hexadecimal, most significant first, with
/// `-` after the 8th, 12th, 16th and 20th digit (36 characters in all).
pub open spec fn uuid_hyphenated(id: u128) -> Seq<char> {
    Seq::new(
        36,
        |p: int|
            if p == 8 || p == 13 || p == 18 || p == 23 {
                '-'
            } else {
                let hyphens_before: int = if p < 8 {
                    0
                } else if p < 13 {
                    1
                } else if p < 18 {
                    2
                } else if p < 23 {
                    3
                } else {
                    4
                };
                hex_digit(uuid_nibble(id, p - hyphens_before))
            },
    )
}

/// The text that `chrono::DateTime::<Utc>::to_rfc3339` gives for the instant
/// `seconds` and `nanos` after the Unix epoch, or `None` when
/// `DateTime::from_timestamp` has no such instant.
pub uninterp spec fn rfc3339_text_of(seconds: i64, nanos: u32) -> Option<Seq<char>>;

/// Instants in the years 0000 to 9999 (UTC), with no leap-second nanoseconds:
/// those whose RFC 3339 text has a four-digit year.
pub open spec fn rfc3339_representable(t: Timestamp) -> bool {
    &&& -62_167_219_200 <= t.seconds <= 253_402_300_799
    &&& t.nanos < 1_000_000_000
}

/// The two parts of a parsed URL that the service looks at.
#[derive(Debug)]
pub struct UrlParts {
    pub scheme: String,
    pub has_host: bool,
}

/// Calls `url::Url::parse`, then reads `Url::scheme` and whether
/// `Url::host` is present. The contract only names the result
/// (`url_parse`): the same text always gives the same parts.
#[verifier::external_body]
fn parse_url(input: &str) -> (r: Option<UrlParts>)
    ensures
        match r {
            Some(parts) => url_parse(input@) == Some((parts.scheme@, parts.has_host)),
            None => url_parse(input@) is None,
        },
{
    match url::Url::parse(input) {
        Ok(url) => Some(UrlParts { scheme: url.scheme().to_owned(), has_host: url.host().is_some() }),
        Err(_) => None,
    }
}

/// Calls `uuid::Uuid::parse_str` and takes `Uuid::as_u128` of the result.
/// The contract only names the result (`uuid_parse`).
#[verifier::external_body]
pub(crate) fn parse_uuid(input: &str) -> (r: Option<u128>)
    ensures
        r == uuid_parse(input@),
{
    match uuid::Uuid::parse_str(input) {
        Ok(id) => Some(id.as_u128()),
        Err(_) => None,
    }
}

/// Calls `chrono::DateTime::parse_from_rfc3339`, moves the result to UTC
/// and reads `timestamp` and `timestamp_subsec_nanos`. The contract only
/// names the result (`rfc3339_instant`).
#[verifier::external_body]
pub(crate) fn parse_rfc3339(input: &str) -> (r: Option<Timestamp>)
    ensures
        match r {
            Some(t) => rfc3339_instant(input@) == Some((t.seconds, t.nanos)),
            None => rfc3339_instant(input@) is None,
        },
{
    match chrono::DateTime::parse_from_rfc3339(input) {
        Ok(at) => {
            let utc = at.with_timezone(&chrono::Utc);
            Some(Timestamp { seconds: utc.timestamp(), nanos: utc.timestamp_subsec_nanos() })
        },
        Err(_) => None,
    }
}

/// Calls `uuid::Uuid::from_u128` and formats the UUID with `to_string`.
/// The contract states the text (`uuid_hyphenated`) and that
/// `Uuid::parse_str` reads it back as the same UUID.
#[verifier::external_body]
pub(crate) fn format_uuid(id: u128) -> (r: String)
    ensures
        r@ == uuid_hyphenated(id),
        uuid_parse(r@) == Some(id),
{
    uuid::Uuid::from_u128(id).to_string()
}

/// Calls `chrono::DateTime::from_timestamp` and formats the instant with
/// `to_rfc3339`. Besides naming the text (`rfc3339_text_of`), the contract
/// states that an instant in years 0000 to 9999 with no leap-second
/// nanoseconds has a text, and that `DateTime::parse_from_rfc3339` reads
/// that text back as the same instant. Of other instants it says nothing.
#[verifier::external_body]
pub(crate) fn format_rfc3339(t: Timestamp) -> (r: Option<String>)
    ensures
        match r {
            Some(text) => rfc3339_text_of(t.seconds, t.nanos) == Some(text@),
            None => rfc3339_text_of(t.seconds, t.nanos) is None,
        },
        r is Some || !rfc3339_representable(t),
        r matches Some(text) ==> (rfc3339_representable(t) ==> rfc3339_instant(text@) == Some(
            (t.seconds, t.nanos),
        )),
{
    match chrono::DateTime::from_timestamp(t.seconds, t.nanos) {
        Some(at) => Some(at.to_rfc3339()),
        None => None,
    }
}

/// Whether parsed URL parts name an absolute HTTP or HTTPS URL with a host.
pub open spec fn acceptable_url_parts(parts: Option<(Seq<char>, bool)>) -> bool {
    match parts {
        Some((scheme, has_host)) => (scheme == "http"@ || scheme == "https"@) && has_host,
        None => false,
    }
}

/// The URL rule accepts exactly the `http` and `https` schemes, and only
/// with a host: every accepted URL has a host and one of those two
/// schemes, no other scheme (`ws`, `ftp`, `mailto`, ...) is accepted,
/// nothing that failed to parse is, and each of the two with a host is.
pub proof fn lemma_only_http_and_https_with_host(parts: Option<(Seq<char>, bool)>, scheme: Seq<char>)
    ensures
        acceptable_url_parts(parts) ==> (parts matches Some((s, has_host)) && has_host && (s
            == "http"@ || s == "https"@)),
        scheme != "http"@ && scheme != "https"@ ==> !acceptable_url_parts(Some((scheme, true)))
            && !acceptable_url_parts(Some((scheme, false))),
        !acceptable_url_parts(Some((scheme, false))),
        !acceptable_url_parts(None),
        acceptable_url_parts(Some(("http"@, true))),
        acceptable_url_parts(Some(("https"@, true))),
{
}

/// Decides on the parts of a parsed URL: the scheme must be `http` or
/// `https` and there must be a host.
pub fn acceptable_target(parts: &Option<UrlParts>) -> (r: bool)
    ensures
        r == acceptable_url_parts(
            match parts {
                Some(p) => Some((p.scheme@, p.has_host)),
                None => None,
            },
        ),
{
    match parts {
        Some(p) => {
            let http = "http".to_owned();
            let https = "https".to_owned();
            (p.scheme == http || p.scheme == https) && p.has_host
        },
        None => false,
    }
}

/// Whether `input` is an absolute HTTP or HTTPS URL with a host, as
/// `url::Url::parse` reads it.
pub fn is_acceptable_target_url(input: &str) -> (r: bool)
    ensures
        r == acceptable_url_parts(url_parse(input@)),
{
    let parts = parse_url(input);
    acceptable_target(&parts)
}

} // verus!
