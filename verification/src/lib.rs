//! Working-set manager for a remote photo service: a selection of asset
//! records, the rules that resolve and adjust their capture time, and the
//! search criteria that fill or prune the selection.
//!
//! The library decides and computes; it reads no file and makes no call to
//! the service. What a command needs from outside comes in as plain values,
//! and what it wants done outside goes out as plain values.
//!
//! - `timezone`, `time`, `timedelta`: offsets, instants, spans and their texts
//! - `asset`: asset records and the capture time they carry
//! - `assets`: the selection
//! - `search`, `lookup`: criteria, requests, and the pages of an answer
//! - `listing`, `curl`: what is shown and what is sent by hand
//! - `config`, `immichctl`, `error`: login, handle and faults
//! - `text`, `ident`: characters and identifiers

pub mod asset;
pub mod assets;
pub mod config;
pub mod curl;
pub mod error;
pub mod ident;
pub mod immichctl;
pub mod listing;
pub mod lookup;
pub mod search;
pub mod text;
pub mod time;
pub mod timedelta;
pub mod timezone;
