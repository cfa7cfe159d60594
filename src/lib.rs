//! A small embedded key-value store: an in-memory mapping from string keys to
//! string values, persisted as one file that is read whole when the store is
//! opened and rewritten whole after every change.
//!
//! The library holds the store's logic and the file format. Reading and
//! writing the file is left to the caller: `Database::new` takes the file's
//! contents (or `None` when there is no file yet), and each mutation returns
//! the bytes that the file must hold afterwards.
pub mod formats;
pub mod laws;
pub mod model;
pub mod store;
pub mod util;

pub use store::{Database, DatabaseError, StorageFormat};
