//! Authentication of incoming webhook notifications: a shared-secret
//! HMAC-SHA256 signature over `"<timestamp>.<body>"`, compared in constant
//! time, together with a freshness window on the timestamp.
pub mod compare;
pub mod timestamp;
pub mod crypto;
pub mod signature;
pub mod headers;
pub mod config;
pub mod authenticate;
pub mod guarantees;
