//! What the acceptance rule guarantees, proved over its definition.
use crate::authenticate::{webhook_accepted, SIGNATURE_HEADER, TIMESTAMP_HEADER};
use crate::headers::{ascii_lower, header_value};
use crate::signature::expected_signature_of;
use crate::timestamp::timestamp_value;
use vstd::prelude::*;
use vstd::string::StringSliceAdditionalSpecFns;
use vstd::utf8::encode_utf8;

verus! {

/// A request that carries the expected signature for its timestamp text and
/// body, with a timestamp less than `max_age` milliseconds old, is accepted.
pub proof fn lemma_signed_fresh_request_accepted(
    secret: Seq<u8>,
    max_age: int,
    body: Seq<u8>,
    headers: Seq<(Seq<u8>, Seq<char>)>,
    now: int,
    ts: Seq<char>,
    t: i64,
)
    requires
        header_value(headers, TIMESTAMP_HEADER.spec_bytes()) == Some(ts),
        timestamp_value(encode_utf8(ts)) == Some(t),
        now - t < max_age,
        header_value(headers, SIGNATURE_HEADER.spec_bytes()) == Some(
            expected_signature_of(secret, encode_utf8(ts), body),
        ),
    ensures
        webhook_accepted(secret, max_age, body, headers, now),
{
}

/// Changing any one character of the expected signature makes the request
/// refused, whatever its timestamp.
pub proof fn lemma_altered_signature_refused(
    secret: Seq<u8>,
    max_age: int,
    body: Seq<u8>,
    headers: Seq<(Seq<u8>, Seq<char>)>,
    now: int,
    ts: Seq<char>,
    i: int,
    c: char,
)
    requires
        header_value(headers, TIMESTAMP_HEADER.spec_bytes()) == Some(ts),
        0 <= i < expected_signature_of(secret, encode_utf8(ts), body).len(),
        c != expected_signature_of(secret, encode_utf8(ts), body)[i],
        header_value(headers, SIGNATURE_HEADER.spec_bytes()) == Some(
            expected_signature_of(secret, encode_utf8(ts), body).update(i, c),
        ),
    ensures
        !webhook_accepted(secret, max_age, body, headers, now),
{
    let expected = expected_signature_of(secret, encode_utf8(ts), body);
    assert(expected.update(i, c)[i] != expected[i]);
}

/// Dropping the last character of the expected signature makes the request
/// refused, whatever its timestamp.
pub proof fn lemma_truncated_signature_refused(
    secret: Seq<u8>,
    max_age: int,
    body: Seq<u8>,
    headers: Seq<(Seq<u8>, Seq<char>)>,
    now: int,
    ts: Seq<char>,
)
    requires
        header_value(headers, TIMESTAMP_HEADER.spec_bytes()) == Some(ts),
        expected_signature_of(secret, encode_utf8(ts), body).len() > 0,
        header_value(headers, SIGNATURE_HEADER.spec_bytes()) == Some(
            expected_signature_of(secret, encode_utf8(ts), body).drop_last(),
        ),
    ensures
        !webhook_accepted(secret, max_age, body, headers, now),
{
}

/// A request whose timestamp is `max_age` or more milliseconds before `now`
/// is refused, whatever its signature.
pub proof fn lemma_stale_request_refused(
    secret: Seq<u8>,
    max_age: int,
    body: Seq<u8>,
    headers: Seq<(Seq<u8>, Seq<char>)>,
    now: int,
    ts: Seq<char>,
    t: i64,
)
    requires
        header_value(headers, TIMESTAMP_HEADER.spec_bytes()) == Some(ts),
        timestamp_value(encode_utf8(ts)) == Some(t),
        now - t >= max_age,
    ensures
        !webhook_accepted(secret, max_age, body, headers, now),
{
}

/// At the edge of the window: a correctly signed request whose timestamp is
/// `max_age - 1` milliseconds before `now` is accepted, and one that is
/// `max_age` milliseconds before `now` is refused.
pub proof fn lemma_window_boundary(
    secret: Seq<u8>,
    max_age: int,
    body: Seq<u8>,
    headers: Seq<(Seq<u8>, Seq<char>)>,
    ts: Seq<char>,
    t: i64,
)
    requires
        header_value(headers, TIMESTAMP_HEADER.spec_bytes()) == Some(ts),
        timestamp_value(encode_utf8(ts)) == Some(t),
        header_value(headers, SIGNATURE_HEADER.spec_bytes()) == Some(
            expected_signature_of(secret, encode_utf8(ts), body),
        ),
    ensures
        webhook_accepted(secret, max_age, body, headers, t + max_age - 1),
        !webhook_accepted(secret, max_age, body, headers, t + max_age),
{
}

/// A request without a signature header is refused.
pub proof fn lemma_missing_signature_refused(
    secret: Seq<u8>,
    max_age: int,
    body: Seq<u8>,
    headers: Seq<(Seq<u8>, Seq<char>)>,
    now: int,
)
    requires
        header_value(headers, SIGNATURE_HEADER.spec_bytes()) is None,
    ensures
        !webhook_accepted(secret, max_age, body, headers, now),
{
}

/// A request without a timestamp header, or whose timestamp does not read as
/// a decimal `i64`, is refused.
pub proof fn lemma_bad_timestamp_refused(
    secret: Seq<u8>,
    max_age: int,
    body: Seq<u8>,
    headers: Seq<(Seq<u8>, Seq<char>)>,
    now: int,
)
    requires
        match header_value(headers, TIMESTAMP_HEADER.spec_bytes()) {
            None => true,
            Some(ts) => timestamp_value(encode_utf8(ts)) is None,
        },
    ensures
        !webhook_accepted(secret, max_age, body, headers, now),
{
}

/// Header names that differ only in ASCII case find the same value.
pub proof fn lemma_header_lookup_ignores_case(
    headers: Seq<(Seq<u8>, Seq<char>)>,
    a: Seq<u8>,
    b: Seq<u8>,
)
    requires
        ascii_lower(a) == ascii_lower(b),
    ensures
        header_value(headers, a) == header_value(headers, b),
{
}

/// A header recorded under one spelling of its name is found under every
/// spelling that differs from it only in ASCII case.
pub proof fn lemma_inserted_header_found(
    headers: Seq<(Seq<u8>, Seq<char>)>,
    name: Seq<u8>,
    value: Seq<char>,
    query: Seq<u8>,
)
    requires
        ascii_lower(query) == ascii_lower(name),
    ensures
        header_value(headers.push((ascii_lower(name), value)), query) == Some(value),
{
}

} // verus!
