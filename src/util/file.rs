//! The persistence protocol, apart from the file itself: what a store holds
//! after reading its file, and what the file must hold after a change.
use crate::formats::{binary, json};
use crate::model::{keys_distinct, pairs_view};
use crate::store::{DatabaseError, StorageFormat};
use vstd::prelude::*;

verus! {

/// The entries that the file's contents stand for; `contents` is `None` where
/// there is no file yet, which stands for no entries. Only the structured
/// format can be decoded.
pub open spec fn loaded(format: StorageFormat, contents: Option<Seq<u8>>) -> Option<Seq<(Seq<char>, Seq<char>)>> {
    match contents {
        None => Some(Seq::empty()),
        Some(b) => match format {
            StorageFormat::Json => json::json_decoded(b),
            StorageFormat::Binary => None,
        },
    }
}

/// The bytes that the file holds for the given entries, where the format can
/// encode them.
pub open spec fn saved(format: StorageFormat, entries: Seq<(Seq<char>, Seq<char>)>) -> Option<Seq<u8>> {
    match format {
        StorageFormat::Json => Some(json::json_object_text(entries)),
        StorageFormat::Binary => None,
    }
}

/// The bytes of a file's contents, if there is a file.
pub open spec fn bytes_view(contents: Option<&[u8]>) -> Option<Seq<u8>> {
    match contents {
        Some(b) => Some(b@),
        None => None,
    }
}

/// The bytes to write to the file so that it holds `data` in `format`.
pub fn save(format: StorageFormat, data: &Vec<(String, String)>) -> (r: Result<Vec<u8>, DatabaseError>)
    ensures
        saved(format, pairs_view(data@)) is Some <==> r is Ok,
        r is Ok ==> r->Ok_0@ == saved(format, pairs_view(data@))->Some_0,
        format == StorageFormat::Binary ==> r matches Err(DatabaseError::InvalidFormatError(_)),
{
    match format {
        StorageFormat::Binary => binary::serialize(data),
        StorageFormat::Json => json::serialize(data),
    }
}

/// The entries held in a file with the given contents, `None` where there is
/// no file. A missing file holds no entries; contents that the format cannot
/// decode are an error.
pub fn load(format: StorageFormat, contents: Option<&[u8]>) -> (r: Result<Vec<(String, String)>, DatabaseError>)
    ensures
        loaded(format, bytes_view(contents)) is Some <==> r is Ok,
        r is Ok ==> pairs_view(r->Ok_0@) == loaded(format, bytes_view(contents))->Some_0,
        r is Ok ==> keys_distinct(pairs_view(r->Ok_0@)),
        contents is Some && format == StorageFormat::Binary ==> r matches Err(DatabaseError::InvalidFormatError(_)),
        contents is Some && format == StorageFormat::Json && r is Err ==> r == Err::<Vec<(String, String)>, DatabaseError>(DatabaseError::SerdeError),
{
    match contents {
        None => {
            let empty: Vec<(String, String)> = Vec::new();
            assert(pairs_view(empty@) =~= Seq::<(Seq<char>, Seq<char>)>::empty());
            Ok(empty)
        },
        Some(b) => match format {
            StorageFormat::Binary => binary::deserialize(b),
            StorageFormat::Json => json::deserialize(b),
        },
    }
}

} // verus!
