use vstd::prelude::*;
use indexmap::IndexMap;
use crate::import::Import;

verus! {

/// Declares `IndexMap`; Verus sees its values as opaque, and
/// `path_entries` and `name_entries` name their contents.
#[verifier::external_type_specification]
#[verifier::external_body]
#[verifier::reject_recursive_types(K)]
#[verifier::reject_recursive_types(V)]
#[verifier::reject_recursive_types(S)]
pub struct ExIndexMap<K, V, S>(IndexMap<K, V, S>);

/// The imports of one path, keyed by imported name, in first-seen order.
pub type NameTable = IndexMap<String, Import>;

/// The imports of a scope, keyed by path, in first-seen order.
pub type PathTable = IndexMap<String, IndexMap<String, Import>>;

/// A path and its imports, as a table lends them.
pub type PathEntry<'a> = (&'a String, &'a IndexMap<String, Import>);

/// A name and its import, as a table lends them.
pub type NameEntry<'a> = (&'a String, &'a Import);

/// The entries of a table of names, in insertion order.
pub uninterp spec fn name_entries(m: IndexMap<String, Import>) -> Seq<(Seq<char>, Import)>;

/// The entries of a table of paths, in insertion order.
pub uninterp spec fn path_entries(m: IndexMap<String, IndexMap<String, Import>>) -> Seq<(Seq<char>, IndexMap<String, Import>)>;

/// The index of the first entry with the given key, or -1 when there is none.
pub open spec fn key_index<V>(s: Seq<(Seq<char>, V)>, k: Seq<char>) -> int
    decreases s.len(),
{
    if s.len() == 0 {
        -1
    } else {
        let j = key_index(s.drop_last(), k);
        if j >= 0 {
            j
        } else if s.last().0 == k {
            s.len() - 1
        } else {
            -1
        }
    }
}

/// What `key_index` finds: an entry with the key, the first one, or none.
pub proof fn lemma_key_index<V>(s: Seq<(Seq<char>, V)>, k: Seq<char>)
    ensures
        -1 <= key_index(s, k) < s.len(),
        key_index(s, k) >= 0 ==> s[key_index(s, k)].0 == k,
        key_index(s, k) < 0 ==> forall|i: int| 0 <= i < s.len() ==> s[i].0 != k,
        key_index(s, k) >= 0 ==> forall|i: int| 0 <= i < key_index(s, k) ==> s[i].0 != k,
    decreases s.len(),
{
    if s.len() > 0 {
        let d = s.drop_last();
        lemma_key_index(d, k);
        assert(forall|i: int| 0 <= i < d.len() ==> d[i] == s[i]);
    }
}

/// Relies on `IndexMap::new`: a new map has no entries.
#[verifier::external_body]
pub(crate) fn new_path_table() -> (r: IndexMap<String, IndexMap<String, Import>>)
    ensures
        path_entries(r) == Seq::<(Seq<char>, IndexMap<String, Import>)>::empty(),
{
    IndexMap::new()
}

/// Relies on `IndexMap::entry` and `Entry::or_default`: lends the table of
/// the path, appending an empty one (a default `IndexMap` has no entries)
/// under the path when there is none.
#[verifier::external_body]
pub(crate) fn path_bucket<'a>(m: &'a mut IndexMap<String, IndexMap<String, Import>>, path: String) -> (r: &'a mut IndexMap<String, Import>)
    ensures
        key_index(path_entries(*old(m)), path@) >= 0 ==> {
            let i = key_index(path_entries(*old(m)), path@);
            &&& *r == path_entries(*old(m))[i].1
            &&& path_entries(*final(m)) == path_entries(*old(m)).update(i, (path@, *final(r)))
        },
        key_index(path_entries(*old(m)), path@) < 0 ==> {
            &&& name_entries(*r) == Seq::<(Seq<char>, Import)>::empty()
            &&& path_entries(*final(m)) == path_entries(*old(m)).push((path@, *final(r)))
        },
{
    m.entry(path).or_default()
}

/// Relies on `IndexMap::entry` and `Entry::or_insert`: lends the import of
/// the name, appending `fresh` under the name when there is none.
#[verifier::external_body]
pub(crate) fn name_slot<'a>(m: &'a mut IndexMap<String, Import>, name: String, fresh: Import) -> (r: &'a mut Import)
    ensures
        key_index(name_entries(*old(m)), name@) >= 0 ==> {
            let j = key_index(name_entries(*old(m)), name@);
            &&& *r == name_entries(*old(m))[j].1
            &&& name_entries(*final(m)) == name_entries(*old(m)).update(j, (name@, *final(r)))
        },
        key_index(name_entries(*old(m)), name@) < 0 ==> {
            &&& *r == fresh
            &&& name_entries(*final(m)) == name_entries(*old(m)).push((name@, *final(r)))
        },
{
    m.entry(name).or_insert(fresh)
}

/// Relies on `IndexMap::len`: the number of entries.
#[verifier::external_body]
pub(crate) fn path_count(m: &IndexMap<String, IndexMap<String, Import>>) -> (r: usize)
    ensures
        r == path_entries(*m).len(),
{
    m.len()
}

/// Relies on `IndexMap::len`: the number of entries.
#[verifier::external_body]
pub(crate) fn name_count(m: &IndexMap<String, Import>) -> (r: usize)
    ensures
        r == name_entries(*m).len(),
{
    m.len()
}

/// Relies on `IndexMap::get_index`: the entry at the index, in insertion
/// order, if the index is below the length.
#[verifier::external_body]
pub(crate) fn path_at<'a>(m: &'a IndexMap<String, IndexMap<String, Import>>, i: usize) -> (r: Option<PathEntry<'a>>)
    ensures
        i < path_entries(*m).len() ==> r is Some,
        i < path_entries(*m).len() ==> r.unwrap().0@ == path_entries(*m)[i as int].0,
        i < path_entries(*m).len() ==> *r.unwrap().1 == path_entries(*m)[i as int].1,
        i >= path_entries(*m).len() ==> r is None,
{
    m.get_index(i)
}

/// Relies on `IndexMap::get_index`: the entry at the index, in insertion
/// order, if the index is below the length.
#[verifier::external_body]
pub(crate) fn name_at<'a>(m: &'a IndexMap<String, Import>, i: usize) -> (r: Option<NameEntry<'a>>)
    ensures
        i < name_entries(*m).len() ==> r is Some,
        i < name_entries(*m).len() ==> r.unwrap().0@ == name_entries(*m)[i as int].0,
        i < name_entries(*m).len() ==> *r.unwrap().1 == name_entries(*m)[i as int].1,
        i >= name_entries(*m).len() ==> r is None,
{
    m.get_index(i)
}

} // verus!
