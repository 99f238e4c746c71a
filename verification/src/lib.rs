//! Astrobase: a small append-only key-value storage engine.
//!
//! The engine keeps a log of records resolved by last-write-wins, marks
//! deletions with a reserved tombstone value, and offers the same four-call
//! contract (`get`, `insert`, `delete`, `update`) on two interchangeable
//! backends: an in-memory table and a persistent record log.

pub mod codec;
pub mod command;
pub mod config;
pub mod database;
pub mod error;
pub mod inmemory;
pub mod laws;
pub mod persistent;
pub mod stats;
pub mod storage;
