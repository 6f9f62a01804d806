//! Structured log records: what each log line holds and whether it is written. Writing
//! the lines is left to the caller.

pub mod m2;
pub mod world;
