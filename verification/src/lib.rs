//! A personal media-library catalog.
//!
//! The catalog scans a directory tree for per-item descriptor files, parses
//! each descriptor into a movie record, keeps the full record set in memory
//! together with its persisted form, and serves derived orderings (by added
//! time, by favorite flag, by random shuffle) through a lazy query iterator.
//!
//! The crate holds the logic only: reading directories and files, and
//! serializing the persisted document, are left to the surrounding
//! application, which hands plain values in and out.

pub mod nfo;
pub mod order;
pub mod paths;
pub mod record;
pub mod scanner;
pub mod store;

pub use crate::store::init;
