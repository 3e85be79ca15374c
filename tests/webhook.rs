use hmac::{Hmac, Mac};
use sha2::Sha256;
use webhook_auth::authenticate::{is_webhook_event_valid_at, response_for, REJECTION_MESSAGE};
use webhook_auth::compare::timing_safe_eq;
use webhook_auth::config::{WebhookConfig, MAX_WEBHOOK_AGE, OPENVIDU_MEET_API_KEY, SERVER_PORT};
use webhook_auth::headers::Headers;
use webhook_auth::signature::{compute_signature, signed_payload};
use webhook_auth::timestamp::parse_timestamp;

const TS: &str = "1700000000000";
const TS_MS: i64 = 1700000000000;
const BODY: &str = "{\"event\":\"test\"}";

fn reference_signature(secret: &str, payload: &str) -> String {
    let mut mac = Hmac::<Sha256>::new_from_slice(secret.as_bytes()).unwrap();
    mac.update(payload.as_bytes());
    hex::encode(mac.finalize().into_bytes())
}

fn signed_headers(signature: &str, timestamp: &str) -> Headers {
    let mut h = Headers::new();
    h.insert("X-Signature", signature);
    h.insert("X-Timestamp", timestamp);
    h
}

#[test]
fn signature_matches_reference_hmac() {
    let sig = compute_signature("meet-api-key", TS, BODY);
    let expected = reference_signature("meet-api-key", "1700000000000.{\"event\":\"test\"}");
    assert_eq!(sig, expected);
    assert_eq!(sig.len(), 64);
    assert!(sig.bytes().all(|b| b.is_ascii_digit() || (b'a'..=b'f').contains(&b)));
}

#[test]
fn signature_depends_on_secret_timestamp_and_body() {
    let base = compute_signature("meet-api-key", TS, BODY);
    assert_ne!(base, compute_signature("other-key", TS, BODY));
    assert_ne!(base, compute_signature("meet-api-key", "1700000000001", BODY));
    assert_ne!(base, compute_signature("meet-api-key", TS, "{\"event\": \"test\"}"));
}

#[test]
fn signed_payload_is_timestamp_dot_body() {
    assert_eq!(signed_payload(TS, BODY), b"1700000000000.{\"event\":\"test\"}".to_vec());
    assert_eq!(signed_payload("", ""), b".".to_vec());
}

#[test]
fn concrete_request_is_accepted() {
    let config = WebhookConfig::standard();
    let sig = compute_signature(OPENVIDU_MEET_API_KEY, TS, BODY);
    let h = signed_headers(&sig, TS);
    assert!(is_webhook_event_valid_at(&config, BODY, &h, TS_MS + 1000));
    assert!(is_webhook_event_valid_at(&config, BODY, &h, TS_MS));
}

#[test]
fn truncated_signature_is_refused() {
    let config = WebhookConfig::standard();
    let sig = compute_signature(OPENVIDU_MEET_API_KEY, TS, BODY);
    let h = signed_headers(&sig[..sig.len() - 1], TS);
    assert!(!is_webhook_event_valid_at(&config, BODY, &h, TS_MS + 1000));
}

#[test]
fn every_single_character_change_is_refused() {
    let config = WebhookConfig::standard();
    let sig = compute_signature(OPENVIDU_MEET_API_KEY, TS, BODY);
    for i in 0..sig.len() {
        let mut bytes = sig.clone().into_bytes();
        bytes[i] = if bytes[i] == b'0' { b'1' } else { b'0' };
        let altered = String::from_utf8(bytes).unwrap();
        let h = signed_headers(&altered, TS);
        assert!(!is_webhook_event_valid_at(&config, BODY, &h, TS_MS + 1000));
    }
}

#[test]
fn uppercase_hex_signature_is_refused() {
    let config = WebhookConfig::standard();
    let sig = compute_signature(OPENVIDU_MEET_API_KEY, TS, BODY).to_uppercase();
    let h = signed_headers(&sig, TS);
    assert!(!is_webhook_event_valid_at(&config, BODY, &h, TS_MS + 1000));
}

#[test]
fn window_boundary() {
    let config = WebhookConfig::standard();
    let sig = compute_signature(OPENVIDU_MEET_API_KEY, TS, BODY);
    let h = signed_headers(&sig, TS);
    assert!(is_webhook_event_valid_at(&config, BODY, &h, TS_MS + 119999));
    assert!(!is_webhook_event_valid_at(&config, BODY, &h, TS_MS + 120000));
    assert!(!is_webhook_event_valid_at(&config, BODY, &h, TS_MS + 10_000_000));
}

#[test]
fn future_timestamp_is_not_refused() {
    let config = WebhookConfig::standard();
    let sig = compute_signature(OPENVIDU_MEET_API_KEY, TS, BODY);
    let h = signed_headers(&sig, TS);
    assert!(is_webhook_event_valid_at(&config, BODY, &h, TS_MS - 3_600_000));
}

#[test]
fn configured_window_and_secret_are_used() {
    let config = WebhookConfig::new("another-secret", 10, 8080);
    assert_eq!(config.port, 8080);
    let sig = compute_signature("another-secret", TS, BODY);
    let h = signed_headers(&sig, TS);
    assert!(is_webhook_event_valid_at(&config, BODY, &h, TS_MS + 9));
    assert!(!is_webhook_event_valid_at(&config, BODY, &h, TS_MS + 10));
    let standard = WebhookConfig::standard();
    assert!(!is_webhook_event_valid_at(&standard, BODY, &h, TS_MS + 9));
}

#[test]
fn wrong_body_is_refused() {
    let config = WebhookConfig::standard();
    let sig = compute_signature(OPENVIDU_MEET_API_KEY, TS, BODY);
    let h = signed_headers(&sig, TS);
    assert!(!is_webhook_event_valid_at(&config, "{\"event\":\"other\"}", &h, TS_MS + 1000));
}

#[test]
fn missing_signature_is_refused() {
    let config = WebhookConfig::standard();
    let mut h = Headers::new();
    h.insert("X-Timestamp", TS);
    assert!(!is_webhook_event_valid_at(&config, BODY, &h, TS_MS + 1000));
}

#[test]
fn missing_timestamp_is_refused() {
    let config = WebhookConfig::standard();
    let sig = compute_signature(OPENVIDU_MEET_API_KEY, TS, BODY);
    let mut h = Headers::new();
    h.insert("X-Signature", &sig);
    assert!(!is_webhook_event_valid_at(&config, BODY, &h, TS_MS + 1000));
}

#[test]
fn non_numeric_timestamp_is_refused() {
    let config = WebhookConfig::standard();
    for ts in ["abc", "", "17000000000x0", "1.5", "-", "99999999999999999999"] {
        let sig = compute_signature(OPENVIDU_MEET_API_KEY, ts, BODY);
        let h = signed_headers(&sig, ts);
        assert!(!is_webhook_event_valid_at(&config, BODY, &h, TS_MS + 1000));
    }
}

#[test]
fn header_names_are_case_insensitive() {
    let config = WebhookConfig::standard();
    let sig = compute_signature(OPENVIDU_MEET_API_KEY, TS, BODY);
    for (sig_name, ts_name) in [
        ("x-signature", "x-timestamp"),
        ("X-Signature", "X-Timestamp"),
        ("X-SIGNATURE", "X-TIMESTAMP"),
    ] {
        let mut h = Headers::new();
        h.insert(sig_name, &sig);
        h.insert(ts_name, TS);
        assert_eq!(h.get("x-signature"), Some(sig.as_str()));
        assert_eq!(h.get("X-Signature"), Some(sig.as_str()));
        assert_eq!(h.get("X-SIGNATURE"), Some(sig.as_str()));
        assert!(is_webhook_event_valid_at(&config, BODY, &h, TS_MS + 1000));
    }
}

#[test]
fn later_header_overrides_earlier() {
    let mut h = Headers::new();
    assert_eq!(h.get("x-timestamp"), None);
    h.insert("X-Timestamp", "1");
    h.insert("x-timestamp", "2");
    assert_eq!(h.get("X-TIMESTAMP"), Some("2"));
    assert_eq!(h.get("x-signature"), None);
}

#[test]
fn parse_timestamp_accepts_decimal_i64() {
    assert_eq!(parse_timestamp("1700000000000"), Some(1700000000000));
    assert_eq!(parse_timestamp("0"), Some(0));
    assert_eq!(parse_timestamp("+5"), Some(5));
    assert_eq!(parse_timestamp("-5"), Some(-5));
    assert_eq!(parse_timestamp("007"), Some(7));
    assert_eq!(parse_timestamp("9223372036854775807"), Some(i64::MAX));
    assert_eq!(parse_timestamp("-9223372036854775808"), Some(i64::MIN));
}

#[test]
fn parse_timestamp_refuses_others() {
    for s in [
        "", "+", "-", "+-1", " 1", "1 ", "12a", "0x10", "9223372036854775808",
        "-9223372036854775809", "100000000000000000000000",
    ] {
        assert_eq!(parse_timestamp(s), None, "{s}");
        assert_eq!(s.parse::<i64>().ok(), None);
    }
}

#[test]
fn timing_safe_eq_cases() {
    assert!(timing_safe_eq(b"", b""));
    assert!(timing_safe_eq(b"abc", b"abc"));
    assert!(!timing_safe_eq(b"abc", b"abd"));
    assert!(!timing_safe_eq(b"abc", b"xbc"));
    assert!(!timing_safe_eq(b"abc", b"ab"));
    assert!(!timing_safe_eq(b"", b"a"));
}

#[test]
fn responses() {
    assert_eq!(response_for(true), (200, ""));
    assert_eq!(response_for(false), (401, "Invalid webhook signature"));
    assert_eq!(REJECTION_MESSAGE, "Invalid webhook signature");
}

#[test]
fn standard_configuration() {
    let config = WebhookConfig::standard();
    assert_eq!(config.secret, "meet-api-key");
    assert_eq!(config.max_age_ms, 120000);
    assert_eq!(MAX_WEBHOOK_AGE, 120000);
    assert_eq!(config.port, 5080);
    assert_eq!(SERVER_PORT, 5080);
}

#[test]
fn fresh_request_accepted_at_current_time() {
    let config = WebhookConfig::standard();
    let ts = chrono::Utc::now().timestamp_millis().to_string();
    let sig = compute_signature(OPENVIDU_MEET_API_KEY, &ts, BODY);
    let h = signed_headers(&sig, &ts);
    let now = chrono::Utc::now().timestamp_millis();
    assert!(is_webhook_event_valid_at(&config, BODY, &h, now));
    let stale = (now - 120000).to_string();
    let sig = compute_signature(OPENVIDU_MEET_API_KEY, &stale, BODY);
    let h = signed_headers(&sig, &stale);
    assert!(!is_webhook_event_valid_at(&config, BODY, &h, now));
}

#[test]
fn signature_of_other_length_is_refused() {
    let config = WebhookConfig::standard();
    let sig = compute_signature(OPENVIDU_MEET_API_KEY, TS, BODY);
    for altered in [format!("{sig}0"), format!(" {sig}"), format!("{sig} "), String::new()] {
        assert_ne!(altered.len(), 64);
        let h = signed_headers(&altered, TS);
        assert!(!is_webhook_event_valid_at(&config, BODY, &h, TS_MS + 1000));
    }
}
