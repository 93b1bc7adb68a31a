//! The ordered name-to-path map of the registry, held in an `IndexMap`.
use indexmap::IndexMap;
use vstd::prelude::*;

verus! {

#[verifier::external_type_specification]
#[verifier::external_body]
#[verifier::reject_recursive_types(K)]
#[verifier::reject_recursive_types(V)]
#[verifier::reject_recursive_types(S)]
pub struct ExIndexMap<K, V, S>(IndexMap<K, V, S>);

/// An entry of the map: a name and its path.
pub type Entry = (Seq<char>, Seq<char>);

/// The entries of a map of strings, in the map's order.
pub uninterp spec fn entries_of(m: IndexMap<String, String>) -> Seq<(Seq<char>, Seq<char>)>;

/// The keys of a sequence of entries, in order.
pub open spec fn keys_of(e: Seq<Entry>) -> Seq<Seq<char>> {
    e.map_values(|p: Entry| p.0)
}

/// The first position of key `k` in `e`, or -1 when it is absent.
pub open spec fn key_pos(e: Seq<Entry>, k: Seq<char>) -> int
    decreases e.len(),
{
    if e.len() == 0 {
        -1
    } else if key_pos(e.drop_last(), k) >= 0 {
        key_pos(e.drop_last(), k)
    } else if e.last().0 == k {
        e.len() - 1
    } else {
        -1
    }
}

pub open spec fn has_key(e: Seq<Entry>, k: Seq<char>) -> bool {
    key_pos(e, k) >= 0
}

/// The value stored under `k`.
pub open spec fn value_of(e: Seq<Entry>, k: Seq<char>) -> Seq<char> {
    e[key_pos(e, k)].1
}

/// No key occurs twice.
pub open spec fn unique_keys(e: Seq<Entry>) -> bool {
    forall|i: int, j: int|
        0 <= i < e.len() && 0 <= j < e.len() && #[trigger] e[i].0 == #[trigger] e[j].0 ==> i == j
}

/// Inserting `(k, v)`: an existing key keeps its place and takes the new value;
/// a new key goes last.
pub open spec fn insert_entry(e: Seq<Entry>, k: Seq<char>, v: Seq<char>) -> Seq<Entry> {
    if has_key(e, k) {
        e.update(key_pos(e, k), (k, v))
    } else {
        e.push((k, v))
    }
}

/// `key_pos` finds the key, at its first position.
pub proof fn lemma_key_pos(e: Seq<Entry>, k: Seq<char>)
    ensures
        -1 <= key_pos(e, k) < e.len(),
        key_pos(e, k) >= 0 ==> e[key_pos(e, k)].0 == k,
        key_pos(e, k) >= 0 ==> forall|j: int| 0 <= j < key_pos(e, k) ==> e[j].0 != k,
        key_pos(e, k) < 0 <==> forall|j: int| 0 <= j < e.len() ==> e[j].0 != k,
    decreases e.len(),
{
    if e.len() > 0 {
        lemma_key_pos(e.drop_last(), k);
        if key_pos(e.drop_last(), k) < 0 {
            assert forall|j: int| 0 <= j < e.len() - 1 implies e[j].0 != k by {
                assert(e.drop_last()[j] == e[j]);
            }
        } else {
            let p = key_pos(e.drop_last(), k);
            assert(e.drop_last()[p] == e[p]);
            assert forall|j: int| 0 <= j < p implies e[j].0 != k by {
                assert(e.drop_last()[j] == e[j]);
            }
        }
    }
}

/// With unique keys, the position of the key at `i` is `i`.
pub proof fn lemma_key_pos_unique(e: Seq<Entry>, i: int)
    requires
        unique_keys(e),
        0 <= i < e.len(),
    ensures
        key_pos(e, e[i].0) == i,
{
    lemma_key_pos(e, e[i].0);
}

/// Inserting keeps the keys unique.
pub proof fn lemma_insert_unique(e: Seq<Entry>, k: Seq<char>, v: Seq<char>)
    requires
        unique_keys(e),
    ensures
        unique_keys(insert_entry(e, k, v)),
{
    lemma_key_pos(e, k);
}

/// Relies on `IndexMap::new`: a map with no entries.
#[verifier::external_body]
pub(crate) fn map_new() -> (m: IndexMap<String, String>)
    ensures
        entries_of(m) == Seq::<Entry>::empty(),
{
    IndexMap::new()
}

/// Relies on `IndexMap::len`: the number of entries.
#[verifier::external_body]
pub(crate) fn map_len(m: &IndexMap<String, String>) -> (n: usize)
    ensures
        n == entries_of(*m).len(),
{
    m.len()
}

/// Relies on `IndexMap::get_index`: the entry at a position, when there is one.
#[verifier::external_body]
pub(crate) fn map_get_index(m: &IndexMap<String, String>, i: usize) -> (r: Option<(String, String)>)
    ensures
        r is Some <==> i < entries_of(*m).len(),
        r matches Some((k, v)) ==> k@ == entries_of(*m)[i as int].0 && v@ == entries_of(*m)[i as int].1,
{
    m.get_index(i).map(|(k, v)| (k.clone(), v.clone()))
}

/// Relies on `IndexMap::get`: the value stored under a key, when it is there.
#[verifier::external_body]
pub(crate) fn map_get(m: &IndexMap<String, String>, k: &str) -> (r: Option<String>)
    ensures
        r is Some <==> has_key(entries_of(*m), k@),
        r matches Some(v) ==> v@ == value_of(entries_of(*m), k@),
{
    m.get(k).cloned()
}

/// Relies on `IndexMap::insert`: an existing key keeps its place and takes the
/// new value; a new key is appended.
#[verifier::external_body]
pub(crate) fn map_insert(m: &mut IndexMap<String, String>, k: String, v: String)
    ensures
        entries_of(*final(m)) == insert_entry(entries_of(*old(m)), k@, v@),
{
    m.insert(k, v);
}

} // verus!
