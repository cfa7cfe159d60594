//! The compact codec. No binary layout is defined yet: every call fails with
//! `InvalidFormatError`, so that choosing this format can never write or read
//! data silently.
use crate::store::DatabaseError;
use vstd::prelude::*;

verus! {

/// The error that every call of this codec returns.
fn unsupported() -> (r: DatabaseError)
    ensures
        r is InvalidFormatError,
{
    DatabaseError::InvalidFormatError(String::from_str("binary"))
}

/// Encoding in the compact format is not supported.
pub fn serialize(entries: &Vec<(String, String)>) -> (r: Result<Vec<u8>, DatabaseError>)
    ensures
        r matches Err(DatabaseError::InvalidFormatError(_)),
{
    Err(unsupported())
}

/// Decoding the compact format is not supported.
pub fn deserialize(b: &[u8]) -> (r: Result<Vec<(String, String)>, DatabaseError>)
    ensures
        r matches Err(DatabaseError::InvalidFormatError(_)),
{
    Err(unsupported())
}

} // verus!
