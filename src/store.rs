//! The store: its entries, the path of its file, and the format of that file.
use crate::model::{
    index_of, keys_distinct, lemma_map_of_at, lemma_map_of_push, lemma_map_of_remove,
    lemma_map_of_update, map_of, pairs_view, put_spec, value_view,
};
use crate::util::file::{bytes_view, load, loaded, save, saved};
use vstd::prelude::*;

verus! {

/// The format of a store's file, chosen when the store is opened.
#[derive(Debug, Clone, Copy, PartialEq, Eq, Structural)]
pub enum StorageFormat {
    /// The compact format, for which no codec exists yet: reading or writing
    /// a file in it fails.
    Binary,
    /// The structured format: a JSON object of string members.
    Json,
}

/// What can go wrong in a store.
#[derive(Debug, PartialEq, Eq)]
pub enum DatabaseError {
    /// Reading or writing the file failed; the text describes the cause.
    IoError(String),
    /// The file's contents could not be decoded, or the entries encoded.
    SerdeError,
    /// No entry has the key, given here.
    KeyNotFoundError(String),
    /// The file could not be accessed for want of rights; the path is given.
    PermissionError(String),
    /// The named format has no codec.
    InvalidFormatError(String),
    /// The file at the given path is corrupted or malformed.
    MalformedFileError(String),
}

/// The format used where none is named: the structured one, which can be read
/// and written.
pub open spec fn chosen_format(format: Option<StorageFormat>) -> StorageFormat {
    match format {
        Some(f) => f,
        None => StorageFormat::Json,
    }
}

/// A key-value store backed by one file.
#[derive(Debug)]
pub struct Database {
    data: Vec<(String, String)>,
    path: String,
    format: StorageFormat,
}

impl View for Database {
    type V = Map<Seq<char>, Seq<char>>;

    closed spec fn view(&self) -> Map<Seq<char>, Seq<char>> {
        map_of(pairs_view(self.data@))
    }
}

impl Database {
    /// Each key is held once.
    pub closed spec fn wf(&self) -> bool {
        keys_distinct(pairs_view(self.data@))
    }

    /// The path of the store's file.
    pub closed spec fn path_spec(&self) -> Seq<char> {
        self.path@
    }

    /// The format of the store's file.
    pub closed spec fn format_spec(&self) -> StorageFormat {
        self.format
    }

    /// The bytes that the file holds for the current entries, where the
    /// format can encode them.
    pub closed spec fn file_contents_spec(&self) -> Option<Seq<u8>> {
        saved(self.format, pairs_view(self.data@))
    }

    /// Opens the store whose file is at `path`. `contents` is what the file
    /// holds, or `None` where there is no file yet, which gives an empty store.
    /// Where no format is named, the structured one is used.
    pub fn new(path: &str, format: Option<StorageFormat>, contents: Option<&[u8]>) -> (r: Result<Database, DatabaseError>)
        ensures
            loaded(chosen_format(format), bytes_view(contents)) is Some <==> r is Ok,
            r is Ok ==> r->Ok_0.wf() && r->Ok_0@ == map_of(
                loaded(chosen_format(format), bytes_view(contents))->Some_0,
            ),
            r is Ok ==> r->Ok_0.path_spec() == path@ && r->Ok_0.format_spec() == chosen_format(format),
            contents is None ==> r is Ok && r->Ok_0@ == Map::<Seq<char>, Seq<char>>::empty(),
            contents is Some && chosen_format(format) == StorageFormat::Binary ==> r matches Err(DatabaseError::InvalidFormatError(_)),
            contents is Some && chosen_format(format) == StorageFormat::Json && r is Err ==> r matches Err(DatabaseError::SerdeError),
    {
        let format = match format {
            Some(f) => f,
            None => StorageFormat::Json,
        };
        match load(format, contents) {
            Ok(data) => {
                let path = String::from_str(path);
                proof {
                    if contents is None {
                        crate::model::lemma_map_of_empty(pairs_view(data@));
                    }
                }
                Ok(Database { data, path, format })
            },
            Err(e) => Err(e),
        }
    }

    /// The index of the entry with key `key`, if there is one.
    fn find(&self, key: &String) -> (r: Option<usize>)
        requires
            self.wf(),
        ensures
            r is Some <==> self@.contains_key(key@),
            r is Some ==> r->Some_0 < self.data@.len() && self.data@[r->Some_0 as int].0@ == key@,
    {
        let mut i: usize = 0;
        while i < self.data.len()
            invariant
                i <= self.data@.len(),
                forall|j: int| 0 <= j < i ==> self.data@[j].0@ != key@,
            decreases self.data@.len() - i,
        {
            if self.data[i].0 == *key {
                assert(pairs_view(self.data@)[i as int].0 == key@);
                return Some(i);
            }
            i = i + 1;
        }
        proof {
            let s = pairs_view(self.data@);
            if self@.contains_key(key@) {
                let j = index_of(s, key@);
                assert(s[j].0 == self.data@[j].0@);
            }
        }
        None
    }

    /// Every key in the store, each once, in no particular order.
    pub fn keys(&self) -> (r: Vec<&String>)
        requires
            self.wf(),
        ensures
            r@.len() == self@.dom().len(),
            forall|i: int, j: int| 0 <= i < j < r@.len() ==> r@[i]@ != r@[j]@,
            forall|i: int| 0 <= i < r@.len() ==> self@.contains_key(#[trigger] r@[i]@),
            forall|k: Seq<char>| #[trigger] self@.contains_key(k) ==> exists|i: int| 0 <= i < r@.len() && r@[i]@ == k,
    {
        let mut r: Vec<&String> = Vec::new();
        let mut i: usize = 0;
        while i < self.data.len()
            invariant
                self.wf(),
                i <= self.data@.len(),
                r@.len() == i,
                forall|j: int| 0 <= j < i ==> r@[j]@ == self.data@[j].0@,
            decreases self.data@.len() - i,
        {
            r.push(&self.data[i].0);
            i = i + 1;
        }
        proof {
            let s = pairs_view(self.data@);
            assert forall|a: int, b: int| 0 <= a < b < r@.len() implies r@[a]@ != r@[b]@ by {
                assert(s[a].0 == r@[a]@ && s[b].0 == r@[b]@);
            }
            assert forall|a: int| 0 <= a < r@.len() implies self@.contains_key(#[trigger] r@[a]@) by {
                lemma_map_of_at(s, a);
            }
            assert forall|k: Seq<char>| #[trigger] self@.contains_key(k) implies exists|a: int| 0 <= a < r@.len() && r@[a]@ == k by {
                let a = index_of(s, k);
                assert(r@[a]@ == k);
            }
            lemma_keys_len(s);
        }
        r
    }

    /// The value held under `key`; `KeyNotFoundError` where there is none.
    pub fn get(&self, key: &String) -> (r: Result<&String, DatabaseError>)
        requires
            self.wf(),
        ensures
            r is Ok <==> self@.contains_key(key@),
            r is Ok ==> r->Ok_0@ == self@[key@],
            r is Err ==> (r matches Err(DatabaseError::KeyNotFoundError(k)) && k@ == key@),
    {
        match self.find(key) {
            Some(i) => {
                proof {
                    lemma_map_of_at(pairs_view(self.data@), i as int);
                }
                Ok(&self.data[i].1)
            },
            None => Err(DatabaseError::KeyNotFoundError(key.clone())),
        }
    }

    /// Whether an entry has the key `key`.
    pub fn key_exists(&self, key: &String) -> (r: bool)
        requires
            self.wf(),
        ensures
            r == self@.contains_key(key@),
    {
        self.find(key).is_some()
    }

    /// Sets the value of `key` (`Some`) or removes its entry (`None`; nothing
    /// happens where there is none), then returns the bytes that the file must
    /// now hold. The entries change first: where the format cannot encode them,
    /// the error comes back with the change already made.
    pub fn put(&mut self, key: String, value: Option<String>) -> (r: Result<Vec<u8>, DatabaseError>)
        requires
            old(self).wf(),
        ensures
            final(self).wf(),
            final(self)@ == put_spec(old(self)@, key@, value_view(value)),
            final(self).path_spec() == old(self).path_spec(),
            final(self).format_spec() == old(self).format_spec(),
            final(self).file_contents_spec() is Some <==> r is Ok,
            r is Ok ==> r->Ok_0@ == final(self).file_contents_spec()->Some_0,
            old(self).format_spec() == StorageFormat::Json ==> r is Ok,
            old(self).format_spec() == StorageFormat::Binary ==> r matches Err(DatabaseError::InvalidFormatError(_)),
    {
        let found = self.find(&key);
        match value {
            Some(v) => match found {
                Some(i) => {
                    proof {
                        lemma_map_of_update(pairs_view(self.data@), i as int, v@);
                    }
                    let ghost before = self.data@;
                    self.data.set(i, (key, v));
                    proof {
                        assert(pairs_view(self.data@) =~= pairs_view(before).update(
                            i as int,
                            (pairs_view(before)[i as int].0, v@),
                        ));
                    }
                },
                None => {
                    proof {
                        lemma_map_of_push(pairs_view(self.data@), key@, v@);
                    }
                    let ghost before = self.data@;
                    self.data.push((key, v));
                    proof {
                        assert(pairs_view(self.data@) =~= pairs_view(before).push((key@, v@)));
                    }
                },
            },
            None => match found {
                Some(i) => {
                    proof {
                        lemma_map_of_remove(pairs_view(self.data@), i as int);
                    }
                    let ghost before = self.data@;
                    self.data.remove(i);
                    proof {
                        assert(pairs_view(self.data@) =~= pairs_view(before).remove(i as int));
                    }
                },
                None => {
                    proof {
                        assert(self@.remove(key@) =~= self@);
                    }
                },
            },
        }
        save(self.format, &self.data)
    }
}

/// A sequence with distinct keys has as many entries as its map has keys.
proof fn lemma_keys_len(s: Seq<(Seq<char>, Seq<char>)>)
    requires
        keys_distinct(s),
    ensures
        map_of(s).dom().len() == s.len(),
        map_of(s).dom().finite(),
    decreases s.len(),
{
    if s.len() == 0 {
        crate::model::lemma_map_of_empty(s);
    } else {
        let t = s.drop_last();
        assert forall|i: int, j: int| 0 <= i < j < t.len() implies t[i].0 != t[j].0 by {
            assert(t[i] == s[i] && t[j] == s[j]);
        }
        lemma_keys_len(t);
        assert forall|i: int| 0 <= i < t.len() implies t[i].0 != s.last().0 by {
            assert(t[i] == s[i]);
        }
        assert(!map_of(t).contains_key(s.last().0));
        lemma_map_of_push(t, s.last().0, s.last().1);
        assert(t.push((s.last().0, s.last().1)) =~= s);
    }
}

} // verus!
