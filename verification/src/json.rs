//! The document model: a JSON value tree whose numbers are carried as their
//! decimal text, plus key lookup in objects.

use vstd::prelude::*;

verus! {

/// One JSON value.
///
/// A number is carried as its decimal text exactly as the JSON reader renders
/// it; the converter itself never interprets that text, it only hands the two
/// texts of a coordinate pair to the pair transform. An object is the ordered
/// list of its entries; lookups take the first entry with the wanted key.
#[derive(Debug)]
pub enum Json {
    Null,
    Bool(bool),
    Num(String),
    Str(String),
    Arr(Vec<Json>),
    Obj(Vec<(String, Json)>),
}

/// Entry `i` is the first entry of `entries` whose key reads `key`.
pub open spec fn is_first_key(entries: Seq<(String, Json)>, key: Seq<char>, i: int) -> bool {
    &&& 0 <= i < entries.len()
    &&& entries[i].0@ == key
    &&& forall|j: int| 0 <= j < i ==> entries[j].0@ != key
}

/// No entry of `entries` has the key `key`.
pub open spec fn lacks_key(entries: Seq<(String, Json)>, key: Seq<char>) -> bool {
    forall|j: int| 0 <= j < entries.len() ==> entries[j].0@ != key
}

/// Some entry of `entries` has the key `key`.
pub open spec fn has_key(entries: Seq<(String, Json)>, key: Seq<char>) -> bool {
    exists|i: int| is_first_key(entries, key, i)
}

/// The index of the first entry of `entries` whose key reads `key`;
/// meaningful only when `has_key` holds.
pub open spec fn first_key(entries: Seq<(String, Json)>, key: Seq<char>) -> int {
    choose|i: int| is_first_key(entries, key, i)
}

/// At most one index can be the first occurrence of a key.
pub proof fn lemma_first_key_unique(entries: Seq<(String, Json)>, key: Seq<char>, i: int, j: int)
    requires
        is_first_key(entries, key, i),
        is_first_key(entries, key, j),
    ensures
        i == j,
{
}

/// A witness index for a first occurrence pins down `first_key`.
pub proof fn lemma_first_key_of(entries: Seq<(String, Json)>, key: Seq<char>, i: int)
    requires
        is_first_key(entries, key, i),
    ensures
        has_key(entries, key),
        first_key(entries, key) == i,
{
    assert(has_key(entries, key));
    lemma_first_key_unique(entries, key, i, first_key(entries, key));
}

/// The entry list `ns` is `es` with entry `i` replaced by one with the same
/// key: every other entry is unchanged.
pub open spec fn same_except(es: Seq<(String, Json)>, ns: Seq<(String, Json)>, i: int) -> bool {
    &&& ns.len() == es.len()
    &&& ns[i].0 == es[i].0
    &&& forall|j: int| 0 <= j < es.len() && j != i ==> ns[j] == es[j]
}

/// Removing entry `i` and inserting `p` in its place changes entry `i` to `p`
/// and nothing else.
pub proof fn lemma_entry_replace(es: Seq<(String, Json)>, i: int, p: (String, Json))
    requires
        0 <= i < es.len(),
        p.0 == es[i].0,
    ensures
        same_except(es, es.remove(i).insert(i, p), i),
        es.remove(i).insert(i, p)[i] == p,
{
    let ns = es.remove(i).insert(i, p);
    assert(ns.len() == es.len());
    assert forall|j: int| 0 <= j < es.len() && j != i implies ns[j] == es[j] by {
        if j < i {
            assert(ns[j] == es.remove(i)[j]);
        } else {
            assert(ns[j] == es.remove(i)[j - 1]);
        }
    }
    assert(ns[i] == p);
}

/// Whether two string slices read the same.
pub fn str_eq(a: &str, b: &str) -> (r: bool)
    ensures
        r == (a@ == b@),
{
    let oa: String = a.to_owned();
    let ob: String = b.to_owned();
    oa == ob
}

/// The index of the first entry of `entries` whose key reads `key`, if any.
pub fn find_key(entries: &Vec<(String, Json)>, key: &str) -> (r: Option<usize>)
    ensures
        match r {
            Some(i) => is_first_key(entries@, key@, i as int),
            None => lacks_key(entries@, key@),
        },
{
    let mut i: usize = 0;
    while i < entries.len()
        invariant
            i <= entries@.len(),
            forall|j: int| 0 <= j < i ==> entries@[j].0@ != key@,
        decreases entries@.len() - i,
    {
        if str_eq(entries[i].0.as_str(), key) {
            return Some(i);
        }
        i = i + 1;
    }
    None
}

} // verus!
