//! Loading and saving a store's entries in its chosen format.
pub mod file;
