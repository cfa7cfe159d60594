//! The structured codec: a JSON object whose members are the entries.
use crate::model::{keys_distinct, pairs_view};
use crate::store::DatabaseError;
use vstd::prelude::*;

verus! {

#[verifier::external_type_specification]
#[verifier::external_body]
pub struct ExJsonError(serde_json::Error);

/// The JSON text of an object with the given members, in the given order.
pub uninterp spec fn json_object_text(entries: Seq<(Seq<char>, Seq<char>)>) -> Seq<u8>;

/// The members of a JSON object whose values are all strings, ordered by key,
/// or `None` where the bytes are no such document.
pub uninterp spec fn parsed_json_object(b: Seq<u8>) -> Option<Seq<(Seq<char>, Seq<char>)>>;

/// What decoding yields: an empty input stands for an empty object.
pub open spec fn json_decoded(b: Seq<u8>) -> Option<Seq<(Seq<char>, Seq<char>)>> {
    if b.len() == 0 {
        Some(Seq::empty())
    } else {
        parsed_json_object(b)
    }
}

/// Relies on serde::Serializer::collect_map on serde_json's Serializer: writes
/// the entries as one JSON object, in the order given. Keys and values are
/// strings and the output is a `Vec`, so serde_json has no cause to fail.
#[verifier::external_body]
fn write_json_object(entries: &Vec<(String, String)>) -> (r: Result<Vec<u8>, serde_json::Error>)
    ensures
        r is Ok,
        r->Ok_0@ == json_object_text(pairs_view(entries@)),
{
    let mut out: Vec<u8> = Vec::new();
    let mut ser = serde_json::Serializer::new(&mut out);
    match serde::Serializer::collect_map(&mut ser, entries.iter().map(|e| (&e.0, &e.1))) {
        Ok(()) => Ok(out),
        Err(e) => Err(e),
    }
}

/// Relies on serde_json::from_slice into a `BTreeMap<String, String>`: parses a
/// complete JSON object whose values are strings. The map's entries come out
/// ordered by key, each key once.
#[verifier::external_body]
fn read_json_object(b: &[u8]) -> (r: Result<Vec<(String, String)>, serde_json::Error>)
    ensures
        r is Ok <==> parsed_json_object(b@) is Some,
        r is Ok ==> pairs_view(r->Ok_0@) == parsed_json_object(b@)->Some_0,
        r is Ok ==> keys_distinct(pairs_view(r->Ok_0@)),
{
    match serde_json::from_slice::<std::collections::BTreeMap<String, String>>(b) {
        Ok(m) => Ok(m.into_iter().collect()),
        Err(e) => Err(e),
    }
}

/// Encodes the entries as a JSON object, members in the order of `entries`.
pub fn serialize(entries: &Vec<(String, String)>) -> (r: Result<Vec<u8>, DatabaseError>)
    ensures
        r is Ok,
        r->Ok_0@ == json_object_text(pairs_view(entries@)),
{
    match write_json_object(entries) {
        Ok(bytes) => Ok(bytes),
        Err(_) => Err(DatabaseError::SerdeError),
    }
}

/// Decodes a JSON object of string values. An empty input is an empty
/// mapping; input that is no such object is a `SerdeError`.
pub fn deserialize(b: &[u8]) -> (r: Result<Vec<(String, String)>, DatabaseError>)
    ensures
        b@.len() == 0 ==> r is Ok && r->Ok_0@.len() == 0,
        json_decoded(b@) is Some <==> r is Ok,
        r is Ok ==> pairs_view(r->Ok_0@) == json_decoded(b@)->Some_0,
        r is Ok ==> keys_distinct(pairs_view(r->Ok_0@)),
        r is Err ==> r == Err::<Vec<(String, String)>, DatabaseError>(DatabaseError::SerdeError),
{
    if b.len() == 0 {
        let empty: Vec<(String, String)> = Vec::new();
        assert(pairs_view(empty@) =~= Seq::<(Seq<char>, Seq<char>)>::empty());
        return Ok(empty);
    }
    match read_json_object(b) {
        Ok(entries) => Ok(entries),
        Err(_) => Err(DatabaseError::SerdeError),
    }
}

} // verus!
