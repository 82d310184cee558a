//! Identity and access-control core of a file-sharing service: unique id
//! generation, password hashing, credential parsing, session checks and
//! per-file ownership and sharing rules.

pub mod snowflake;
pub mod encrypt;
pub mod text;
pub mod user;
pub mod session;
pub mod gate;
pub mod access;
pub mod storage;
