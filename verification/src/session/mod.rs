//! Browser sessions: cookies, storage and stored profiles.

pub mod cookies;
pub mod profile;
pub mod storage;
