//! A durable contact store: a single-user collection of contacts that lives
//! in one JSON file.
//!
//! - [`contact`]: the contact record and the rules a candidate must meet to
//!   become one.
//! - [`store`]: the collection, in insertion order, with insertion, removal
//!   by identifier and search by substring.
//! - [`document`]: the JSON document that backs the collection, how a
//!   collection is written to it and read from it.
//! - [`protocol`]: the order of file operations by which the backing file is
//!   read under a shared lock and replaced atomically under an exclusive
//!   one. The operations themselves are the caller's to perform.
//! - [`error`]: what loading and saving can fail with.
//! - [`text`]: trimming, case folding and substring search on texts.
//!
//! Every function is verified against its contract, down to a handful of
//! calls into the standard library, `uuid` and `serde_json` whose contracts
//! are assumed; each of those says so in its documentation.

pub mod contact;
pub mod document;
pub mod error;
pub mod protocol;
pub mod store;
pub mod text;

pub use contact::{Contact, ValidationError};
pub use error::StoreError;
pub use store::Store;
