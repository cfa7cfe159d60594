//! The mathematical model of a store's contents.
//!
//! Entries are held as a sequence of key/value pairs whose keys are distinct;
//! their meaning is the map from each key to its value.
use vstd::prelude::*;

verus! {

/// The entries as pairs of character sequences.
pub open spec fn pairs_view(s: Seq<(String, String)>) -> Seq<(Seq<char>, Seq<char>)> {
    s.map_values(|e: (String, String)| (e.0@, e.1@))
}

/// No key occurs twice.
pub open spec fn keys_distinct(s: Seq<(Seq<char>, Seq<char>)>) -> bool {
    forall|i: int, j: int| 0 <= i < j < s.len() ==> s[i].0 != s[j].0
}

/// The index of some entry with key `k`, where there is one.
pub open spec fn index_of(s: Seq<(Seq<char>, Seq<char>)>, k: Seq<char>) -> int {
    choose|i: int| 0 <= i < s.len() && s[i].0 == k
}

/// The map that a sequence of entries stands for.
pub open spec fn map_of(s: Seq<(Seq<char>, Seq<char>)>) -> Map<Seq<char>, Seq<char>> {
    Map::new(
        |k: Seq<char>| exists|i: int| 0 <= i < s.len() && s[i].0 == k,
        |k: Seq<char>| s[index_of(s, k)].1,
    )
}

/// The characters of an optional value.
pub open spec fn value_view(v: Option<String>) -> Option<Seq<char>> {
    match v {
        Some(v) => Some(v@),
        None => None,
    }
}

/// The map after `put(k, v)`: `Some` inserts or overwrites, `None` removes.
pub open spec fn put_spec(
    m: Map<Seq<char>, Seq<char>>,
    k: Seq<char>,
    v: Option<Seq<char>>,
) -> Map<Seq<char>, Seq<char>> {
    match v {
        Some(v) => m.insert(k, v),
        None => m.remove(k),
    }
}

/// With distinct keys, the entry at index `i` gives the value of its key.
pub proof fn lemma_map_of_at(s: Seq<(Seq<char>, Seq<char>)>, i: int)
    requires
        keys_distinct(s),
        0 <= i < s.len(),
    ensures
        map_of(s).contains_key(s[i].0),
        map_of(s)[s[i].0] == s[i].1,
{
    let k = s[i].0;
    assert(exists|j: int| 0 <= j < s.len() && s[j].0 == k);
    let j = index_of(s, k);
    assert(j == i);
}

/// An empty sequence stands for the empty map.
pub proof fn lemma_map_of_empty(s: Seq<(Seq<char>, Seq<char>)>)
    requires
        s.len() == 0,
    ensures
        map_of(s) == Map::<Seq<char>, Seq<char>>::empty(),
{
    assert(map_of(s) =~= Map::<Seq<char>, Seq<char>>::empty());
}

/// Writing a new value over the entry at index `i` overwrites its key.
pub proof fn lemma_map_of_update(s: Seq<(Seq<char>, Seq<char>)>, i: int, v: Seq<char>)
    requires
        keys_distinct(s),
        0 <= i < s.len(),
    ensures
        keys_distinct(s.update(i, (s[i].0, v))),
        map_of(s.update(i, (s[i].0, v))) == map_of(s).insert(s[i].0, v),
{
    let t = s.update(i, (s[i].0, v));
    let k = s[i].0;
    assert forall|k2: Seq<char>| #[trigger] map_of(t).contains_key(k2) == map_of(s).insert(k, v).contains_key(k2) by {
        if map_of(s).insert(k, v).contains_key(k2) {
            if k2 == k {
                assert(t[i].0 == k2);
            } else {
                let j = index_of(s, k2);
                assert(t[j].0 == k2);
            }
        }
        if map_of(t).contains_key(k2) {
            let j = index_of(t, k2);
            if j != i {
                assert(s[j].0 == k2);
            }
        }
    }
    assert forall|k2: Seq<char>| #[trigger] map_of(t).contains_key(k2) implies map_of(t)[k2] == map_of(s).insert(k, v)[k2] by {
        let j = index_of(t, k2);
        lemma_map_of_at(t, j);
        if j != i {
            assert(s[j] == t[j]);
            lemma_map_of_at(s, j);
        }
    }
    assert(map_of(t) =~= map_of(s).insert(k, v));
}

/// Appending an entry whose key is new inserts it.
pub proof fn lemma_map_of_push(s: Seq<(Seq<char>, Seq<char>)>, k: Seq<char>, v: Seq<char>)
    requires
        keys_distinct(s),
        !map_of(s).contains_key(k),
    ensures
        keys_distinct(s.push((k, v))),
        map_of(s.push((k, v))) == map_of(s).insert(k, v),
{
    let t = s.push((k, v));
    assert forall|i: int, j: int| 0 <= i < j < t.len() implies t[i].0 != t[j].0 by {
        if j == s.len() {
            assert(s[i].0 == t[i].0);
        } else {
            assert(s[i] == t[i] && s[j] == t[j]);
        }
    }
    assert forall|k2: Seq<char>| #[trigger] map_of(t).contains_key(k2) == map_of(s).insert(k, v).contains_key(k2) by {
        if map_of(s).insert(k, v).contains_key(k2) {
            if k2 == k {
                assert(t[s.len() as int].0 == k2);
            } else {
                let j = index_of(s, k2);
                assert(t[j].0 == k2);
            }
        }
        if map_of(t).contains_key(k2) {
            let j = index_of(t, k2);
            if j < s.len() {
                assert(s[j].0 == k2);
            }
        }
    }
    assert forall|k2: Seq<char>| #[trigger] map_of(t).contains_key(k2) implies map_of(t)[k2] == map_of(s).insert(k, v)[k2] by {
        let j = index_of(t, k2);
        lemma_map_of_at(t, j);
        if j < s.len() {
            assert(s[j] == t[j]);
            lemma_map_of_at(s, j);
        }
    }
    assert(map_of(t) =~= map_of(s).insert(k, v));
}

/// Removing the entry at index `i` removes its key.
pub proof fn lemma_map_of_remove(s: Seq<(Seq<char>, Seq<char>)>, i: int)
    requires
        keys_distinct(s),
        0 <= i < s.len(),
    ensures
        keys_distinct(s.remove(i)),
        map_of(s.remove(i)) == map_of(s).remove(s[i].0),
{
    let t = s.remove(i);
    let k = s[i].0;
    assert forall|a: int, b: int| 0 <= a < b < t.len() implies t[a].0 != t[b].0 by {
        let a2 = if a < i { a } else { a + 1 };
        let b2 = if b < i { b } else { b + 1 };
        assert(t[a] == s[a2] && t[b] == s[b2]);
    }
    assert forall|k2: Seq<char>| #[trigger] map_of(t).contains_key(k2) == map_of(s).remove(k).contains_key(k2) by {
        if map_of(s).remove(k).contains_key(k2) {
            let j = index_of(s, k2);
            assert(j != i);
            let j2 = if j < i { j } else { j - 1 };
            assert(t[j2] == s[j]);
        }
        if map_of(t).contains_key(k2) {
            let j = index_of(t, k2);
            let j2 = if j < i { j } else { j + 1 };
            assert(t[j] == s[j2]);
            assert(j2 != i);
        }
    }
    assert forall|k2: Seq<char>| #[trigger] map_of(t).contains_key(k2) implies map_of(t)[k2] == map_of(s).remove(k)[k2] by {
        let j = index_of(t, k2);
        lemma_map_of_at(t, j);
        let j2 = if j < i { j } else { j + 1 };
        assert(t[j] == s[j2]);
        lemma_map_of_at(s, j2);
    }
    assert(map_of(t) =~= map_of(s).remove(k));
}

} // verus!
