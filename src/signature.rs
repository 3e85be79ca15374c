//! The canonical signed payload and the signature expected for it.
use crate::crypto::{hex_encode, hex_lower, hmac_sha256, hmac_sha256_of, lemma_hex_lower_len};
use vstd::prelude::*;
use vstd::string::StringSliceAdditionalSpecFns;

verus! {

/// The byte string that is signed: the timestamp text, a `.`, then the body
/// text, exactly as received.
pub open spec fn signed_payload_of(timestamp: Seq<u8>, body: Seq<u8>) -> Seq<u8> {
    timestamp + seq![46u8] + body
}

/// The signature a sender holding `secret` presents for this timestamp and
/// body: the lowercase hex of the HMAC-SHA256 tag of the signed payload.
pub open spec fn expected_signature_of(secret: Seq<u8>, timestamp: Seq<u8>, body: Seq<u8>) -> Seq<char> {
    hex_lower(hmac_sha256_of(secret, signed_payload_of(timestamp, body)))
}

fn append_bytes(out: &mut Vec<u8>, src: &[u8])
    ensures
        final(out)@ == old(out)@ + src@,
{
    let mut i: usize = 0;
    while i < src.len()
        invariant
            0 <= i <= src@.len(),
            out@ == old(out)@ + src@.subrange(0, i as int),
        decreases src@.len() - i,
    {
        out.push(src[i]);
        i = i + 1;
        assert(out@ =~= old(out)@ + src@.subrange(0, i as int));
    }
    assert(src@.subrange(0, i as int) =~= src@);
}

/// Builds the signed payload `"<timestamp>.<body>"` as bytes.
pub fn signed_payload(timestamp: &str, body: &str) -> (r: Vec<u8>)
    ensures
        r@ == signed_payload_of(timestamp.spec_bytes(), body.spec_bytes()),
{
    let mut out: Vec<u8> = Vec::new();
    append_bytes(&mut out, timestamp.as_bytes());
    out.push(46u8);
    append_bytes(&mut out, body.as_bytes());
    assert(out@ =~= signed_payload_of(timestamp.spec_bytes(), body.spec_bytes()));
    out
}

/// Computes the signature that authenticates `body` sent at `timestamp`
/// under the shared `secret`.
pub fn compute_signature(secret: &str, timestamp: &str, body: &str) -> (r: String)
    ensures
        r@ == expected_signature_of(secret.spec_bytes(), timestamp.spec_bytes(), body.spec_bytes()),
        r@.len() == 64,
{
    let payload = signed_payload(timestamp, body);
    match hmac_sha256(secret.as_bytes(), payload.as_slice()) {
        Some(tag) => {
            proof {
                lemma_hex_lower_len(tag@);
            }
            hex_encode(tag.as_slice())
        },
        None => String::new(),
    }
}

} // verus!
