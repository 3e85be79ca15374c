//! The authentication decision on one webhook event.
use crate::compare::timing_safe_eq;
use crate::config::WebhookConfig;
use crate::headers::{header_value, Headers};
use crate::signature::{compute_signature, expected_signature_of};
use crate::timestamp::{parse_timestamp, timestamp_value};
use vstd::prelude::*;
use vstd::string::StringSliceAdditionalSpecFns;
use vstd::utf8::{encode_utf8, encode_utf8_decode_utf8};

verus! {

/// The header that carries the signature.
pub const SIGNATURE_HEADER: &'static str = "x-signature";

/// The header that carries the timestamp, in milliseconds since the Unix
/// epoch.
pub const TIMESTAMP_HEADER: &'static str = "x-timestamp";

/// The body of the response to a refused event.
pub const REJECTION_MESSAGE: &'static str = "Invalid webhook signature";

/// Whether an event is authentic and fresh: both headers are present, the
/// timestamp reads as an `i64` that lies less than `max_age` milliseconds
/// before `now` (a timestamp after `now` is not refused), and the signature
/// is the expected one for that timestamp text and body under `secret`.
pub open spec fn webhook_accepted(
    secret: Seq<u8>,
    max_age: int,
    body: Seq<u8>,
    headers: Seq<(Seq<u8>, Seq<char>)>,
    now: int,
) -> bool {
    match header_value(headers, SIGNATURE_HEADER.spec_bytes()) {
        None => false,
        Some(sig) => match header_value(headers, TIMESTAMP_HEADER.spec_bytes()) {
            None => false,
            Some(ts) => match timestamp_value(encode_utf8(ts)) {
                None => false,
                Some(t) => now - t < max_age && sig == expected_signature_of(
                    secret,
                    encode_utf8(ts),
                    body,
                ),
            },
        },
    }
}

/// Decides whether the event with body `body_str` and `headers`, received
/// at `now` (milliseconds since the Unix epoch), is accepted under `config`.
/// Every reason for refusal gives the same `false`; in particular a
/// signature that is not 64 characters long, the length of the hex text of
/// an HMAC-SHA256 tag, is refused.
pub fn is_webhook_event_valid_at(
    config: &WebhookConfig,
    body_str: &str,
    headers: &Headers,
    now: i64,
) -> (r: bool)
    ensures
        r == webhook_accepted(
            encode_utf8(config.secret@),
            config.max_age_ms as int,
            body_str.spec_bytes(),
            headers@,
            now as int,
        ),
        match header_value(headers@, SIGNATURE_HEADER.spec_bytes()) {
            Some(sig) => sig.len() != 64 ==> !r,
            None => !r,
        },
{
    let signature = match headers.get(SIGNATURE_HEADER) {
        Some(sig) => sig,
        None => return false,
    };
    let timestamp_str = match headers.get(TIMESTAMP_HEADER) {
        Some(ts) => ts,
        None => return false,
    };
    let timestamp = match parse_timestamp(timestamp_str) {
        Some(ts) => ts,
        None => return false,
    };
    let age: i128 = now as i128 - timestamp as i128;
    if age >= config.max_age_ms as i128 {
        return false;
    }
    let expected = compute_signature(config.secret.as_str(), timestamp_str, body_str);
    let r = timing_safe_eq(signature.as_bytes(), expected.as_str().as_bytes());
    proof {
        encode_utf8_decode_utf8(signature@);
        encode_utf8_decode_utf8(expected@);
    }
    r
}

/// The HTTP status and body that answer an event: 200 with an empty body
/// when it is accepted, 401 with the rejection message when it is not.
pub fn response_for(accepted: bool) -> (r: (u16, &'static str))
    ensures
        accepted ==> r.0 == 200 && r.1@ == Seq::<char>::empty(),
        !accepted ==> r.0 == 401 && r.1@ == REJECTION_MESSAGE@,
{
    if accepted {
        proof {
            reveal_strlit("");
        }
        (200, "")
    } else {
        (401, REJECTION_MESSAGE)
    }
}

} // verus!
