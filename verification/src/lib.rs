//! Attendance kiosk core: parsing a typed sign-in line into a validated
//! record, stamping it with an identity, keeping an append-only log of
//! records, and framing dated export artifacts.

pub mod clock;
pub mod digits;
pub mod errors;
pub mod export;
pub mod json;
pub mod parse;
pub mod record;
pub mod session;
pub mod store;
pub mod text;
