//! The messages exchanged with clients and their binary form.

pub mod codec;
pub mod format;
pub mod messages;
pub mod roundtrip;
