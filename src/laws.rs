//! Properties of the store that relate several operations.
use crate::model::put_spec;
use crate::util::file::{loaded, saved};
use crate::store::StorageFormat;
use vstd::prelude::*;

verus! {

/// After `put(k, Some(v))` the key is present with value `v`; after
/// `put(k, None)` it is absent.
pub proof fn law_put_then_get(m: Map<Seq<char>, Seq<char>>, k: Seq<char>, v: Seq<char>)
    ensures
        put_spec(m, k, Some(v)).contains_key(k),
        put_spec(m, k, Some(v))[k] == v,
        !put_spec(m, k, None).contains_key(k),
{
}

/// Removing a key that is not present leaves the mapping as it was.
pub proof fn law_delete_absent_is_noop(m: Map<Seq<char>, Seq<char>>, k: Seq<char>)
    requires
        !m.contains_key(k),
    ensures
        put_spec(m, k, None) == m,
{
    assert(m.remove(k) =~= m);
}

/// The compact format neither decodes an existing file nor encodes any
/// entries: both fail, with no fallback to another format.
pub proof fn law_compact_format_fails(contents: Seq<u8>, entries: Seq<(Seq<char>, Seq<char>)>)
    ensures
        loaded(StorageFormat::Binary, Some(contents)) is None,
        saved(StorageFormat::Binary, entries) is None,
{
}

/// An empty file decodes, in the structured format, to no entries.
pub proof fn law_empty_file_is_empty(contents: Seq<u8>)
    requires
        contents.len() == 0,
    ensures
        loaded(StorageFormat::Json, Some(contents)) == Some(Seq::<(Seq<char>, Seq<char>)>::empty()),
{
}

} // verus!
