//! Configuration of the webhook receiver.
use vstd::prelude::*;

verus! {

/// The port the receiver listens on unless configured otherwise.
pub const SERVER_PORT: u16 = 5080;

/// The age, in milliseconds, from which an event is refused: two minutes.
pub const MAX_WEBHOOK_AGE: i64 = 120000;

/// The shared secret used unless configured otherwise.
pub const OPENVIDU_MEET_API_KEY: &'static str = "meet-api-key";

/// What the receiver is configured with: the shared secret that keys the
/// signatures, the age from which events are refused, and the listening port.
pub struct WebhookConfig {
    pub secret: String,
    pub max_age_ms: i64,
    pub port: u16,
}

impl WebhookConfig {
    pub fn new(secret: &str, max_age_ms: i64, port: u16) -> (r: WebhookConfig)
        ensures
            r.secret@ == secret@,
            r.max_age_ms == max_age_ms,
            r.port == port,
    {
        WebhookConfig { secret: secret.to_owned(), max_age_ms, port }
    }

    /// The built-in configuration: the default secret, a two-minute window
    /// and port 5080.
    pub fn standard() -> (r: WebhookConfig)
        ensures
            r.secret@ == OPENVIDU_MEET_API_KEY@,
            r.max_age_ms == MAX_WEBHOOK_AGE,
            r.port == SERVER_PORT,
    {
        WebhookConfig::new(OPENVIDU_MEET_API_KEY, MAX_WEBHOOK_AGE, SERVER_PORT)
    }
}

} // verus!
