//! The tamper-evident audit trail: log entries, their JSON form and their
//! HMAC-SHA256 signature.

pub mod entry;
pub mod json;
pub mod order;
pub mod readback;
pub mod sign;
pub mod trail;
