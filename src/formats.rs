//! The codecs that turn a store's entries into the bytes of its file and back.
pub mod binary;
pub mod json;
