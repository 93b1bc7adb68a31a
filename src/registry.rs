//! The registry: named project paths, search directories and settings, with
//! the mutations that keep it in order.
use crate::paths_map::{
    entries_of, has_key, insert_entry, keys_of, lemma_key_pos, map_get, map_get_index,
    map_insert, map_len, map_new, value_of, Entry,
};
use crate::paths_map::{key_pos, lemma_insert_unique, lemma_key_pos_unique, unique_keys};
use crate::sorting::{
    lemma_sort_is_sorted, lemma_sort_members, lemma_sort_no_duplicates, lemma_sort_of_sorted,
    sort_seq, sort_strings, views,
};
use indexmap::IndexMap;
use vstd::prelude::*;

verus! {

/// The persisted configuration. The optional fields may be missing from an
/// older file; `update_config` fills them in.
pub struct Projects {
    /// Directories to search for projects.
    pub dirs: Option<Vec<String>>,
    /// Command to run with the selected path as its argument; empty to print.
    pub open_cmd: String,
    /// Editor to open the configuration file with.
    pub editor: String,
    /// Keep the projects sorted by name.
    pub sort: Option<bool>,
    /// Leave out scanned directories that already have an explicit entry.
    pub exclude_proj_dirs: Option<bool>,
    /// Paths of specific projects, by name.
    pub paths: IndexMap<String, String>,
}

/// The entries for `keys`, each with its value in `e`, inserted in turn into an
/// empty map.
pub open spec fn rebuild(keys: Seq<Seq<char>>, e: Seq<Entry>) -> Seq<Entry>
    decreases keys.len(),
{
    if keys.len() == 0 {
        Seq::empty()
    } else {
        insert_entry(rebuild(keys.drop_last(), e), keys.last(), value_of(e, keys.last()))
    }
}

/// The entries of `e` in the lexicographic order of their keys.
pub open spec fn sorted_entries(e: Seq<Entry>) -> Seq<Entry> {
    rebuild(sort_seq(keys_of(e)), e)
}

/// Whether the projects are to be kept sorted.
pub open spec fn sorting_on(p: Projects) -> bool {
    p.sort == Some(true)
}

/// The paths after a mutation has produced entries `e`: sorted when sorting is on.
pub open spec fn arranged(p: Projects, e: Seq<Entry>) -> Seq<Entry> {
    if sorting_on(p) {
        sorted_entries(e)
    } else {
        e
    }
}

/// `q` differs from `p` at most in its paths.
pub open spec fn same_settings(p: Projects, q: Projects) -> bool {
    &&& q.dirs == p.dirs
    &&& q.open_cmd == p.open_cmd
    &&& q.editor == p.editor
    &&& q.sort == p.sort
    &&& q.exclude_proj_dirs == p.exclude_proj_dirs
}

/// Every optional field is present.
pub open spec fn complete(p: Projects) -> bool {
    p.dirs is Some && p.sort is Some && p.exclude_proj_dirs is Some
}

/// `q` is `p` with its missing fields defaulted (`changed` tells whether any
/// was missing): no search directories, sorting on (and the paths sorted at
/// once), exclusion off.
pub open spec fn migration(p: Projects, q: Projects, changed: bool) -> bool {
    &&& changed == !complete(p)
    &&& !changed ==> q == p
    &&& q.open_cmd == p.open_cmd
    &&& q.editor == p.editor
    &&& q.sort == (if p.sort is None { Some(true) } else { p.sort })
    &&& q.exclude_proj_dirs == (if p.exclude_proj_dirs is None { Some(false) } else { p.exclude_proj_dirs })
    &&& p.dirs is Some ==> q.dirs == p.dirs
    &&& p.dirs is None ==> (q.dirs matches Some(d) && d@.len() == 0)
    &&& entries_of(q.paths) == (if p.sort is None { sorted_entries(entries_of(p.paths)) } else { entries_of(p.paths) })
}

/// The search directories after `add_dir`.
pub open spec fn dirs_after_add(p: Projects, dir: Seq<char>) -> Seq<Seq<char>> {
    match p.dirs {
        Some(d) => views(d@).push(dir),
        None => seq![dir],
    }
}

/// Each key of `keys` with its value in `e`.
pub open spec fn pairs_for(keys: Seq<Seq<char>>, e: Seq<Entry>) -> Seq<Entry> {
    keys.map_values(|k: Seq<char>| (k, value_of(e, k)))
}

/// Rebuilding from distinct keys inserts each once, in order.
pub proof fn lemma_rebuild_distinct(keys: Seq<Seq<char>>, e: Seq<Entry>)
    requires
        keys.no_duplicates(),
    ensures
        rebuild(keys, e) == pairs_for(keys, e),
    decreases keys.len(),
{
    if keys.len() > 0 {
        let t = keys.drop_last();
        assert(t.no_duplicates()) by {
            assert forall|i: int, j: int| 0 <= i < t.len() && 0 <= j < t.len() && i != j implies t[i]
                != t[j] by {
                assert(t[i] == keys[i] && t[j] == keys[j]);
            }
        }
        lemma_rebuild_distinct(t, e);
        let r = pairs_for(t, e);
        lemma_key_pos(r, keys.last());
        assert forall|j: int| 0 <= j < r.len() implies r[j].0 != keys.last() by {
            assert(r[j].0 == t[j] && t[j] == keys[j]);
        }
        assert(r.push((keys.last(), value_of(e, keys.last()))) =~= pairs_for(keys, e));
    }
}

/// Rebuilding gives a map with unique keys.
pub proof fn lemma_rebuild_unique(keys: Seq<Seq<char>>, e: Seq<Entry>)
    ensures
        unique_keys(rebuild(keys, e)),
    decreases keys.len(),
{
    if keys.len() > 0 {
        lemma_rebuild_unique(keys.drop_last(), e);
        lemma_insert_unique(rebuild(keys.drop_last(), e), keys.last(), value_of(e, keys.last()));
    }
}

/// Sorting the projects a second time leaves them as the first sort did.
pub proof fn lemma_sort_twice(e: Seq<Entry>)
    requires
        unique_keys(e),
    ensures
        sorted_entries(sorted_entries(e)) == sorted_entries(e),
{
    let ks = keys_of(e);
    assert(ks.no_duplicates()) by {
        assert forall|i: int, j: int| 0 <= i < ks.len() && 0 <= j < ks.len() && i != j implies ks[i]
            != ks[j] by {
            assert(ks[i] == e[i].0 && ks[j] == e[j].0);
        }
    }
    let sk = sort_seq(ks);
    lemma_sort_no_duplicates(ks);
    lemma_rebuild_distinct(sk, e);
    let s1 = sorted_entries(e);
    assert(keys_of(s1) =~= sk);
    lemma_sort_is_sorted(ks);
    lemma_sort_of_sorted(sk);
    lemma_rebuild_distinct(sk, s1);
    assert(unique_keys(s1)) by {
        assert forall|i: int, j: int|
            0 <= i < s1.len() && 0 <= j < s1.len() && #[trigger] s1[i].0 == #[trigger] s1[j].0
            implies i == j by {
            assert(s1[i].0 == sk[i] && s1[j].0 == sk[j]);
        }
    }
    assert forall|i: int| 0 <= i < sk.len() implies value_of(s1, #[trigger] sk[i]) == value_of(e, sk[i]) by {
        lemma_key_pos_unique(s1, i);
        assert(s1[i].0 == sk[i]);
    }
    assert(pairs_for(sk, s1) =~= pairs_for(sk, e));
}

/// Migrating a registry that has every field present changes nothing and asks
/// for no save.
pub proof fn lemma_migration_of_complete(p: Projects, q: Projects, changed: bool)
    requires
        complete(p),
        migration(p, q, changed),
    ensures
        !changed,
        q == p,
{
}

/// Migrating a second time changes nothing and asks for no save.
pub proof fn lemma_migration_twice(p: Projects, q: Projects, c1: bool, r: Projects, c2: bool)
    requires
        migration(p, q, c1),
        migration(q, r, c2),
    ensures
        !c2,
        r == q,
{
}

/// Inserting under a name that is already there replaces its path: the names,
/// their order and their number stay as they were.
pub proof fn lemma_insert_existing(e: Seq<Entry>, k: Seq<char>, v: Seq<char>)
    requires
        has_key(e, k),
    ensures
        insert_entry(e, k, v).len() == e.len(),
        keys_of(insert_entry(e, k, v)) == keys_of(e),
        has_key(insert_entry(e, k, v), k),
        value_of(insert_entry(e, k, v), k) == v,
{
    let e2 = insert_entry(e, k, v);
    lemma_key_pos(e, k);
    lemma_key_pos(e2, k);
    let p = key_pos(e, k);
    assert(keys_of(e2) =~= keys_of(e));
    assert(e2[p].0 == k);
    let q = key_pos(e2, k);
    if q < p {
        assert(e[q].0 == e2[q].0);
    }
}

impl Projects {
    /// A fresh registry: no projects, no search directories, no open command,
    /// the given editor, sorting on and exclusion off.
    pub fn new(editor: String) -> (r: Projects)
        ensures
            entries_of(r.paths).len() == 0,
            r.dirs matches Some(d) && d@.len() == 0,
            r.open_cmd@ == Seq::<char>::empty(),
            r.editor == editor,
            r.sort == Some(true),
            r.exclude_proj_dirs == Some(false),
    {
        Projects {
            paths: map_new(),
            dirs: Some(Vec::new()),
            open_cmd: String::new(),
            editor,
            sort: Some(true),
            exclude_proj_dirs: Some(false),
        }
    }

    /// The project names, in the order of the map.
    pub fn names(&self) -> (r: Vec<String>)
        ensures
            views(r@) == keys_of(entries_of(self.paths)),
    {
        let ghost e = entries_of(self.paths);
        let n = map_len(&self.paths);
        let mut keys: Vec<String> = Vec::new();
        for i in 0..n
            invariant
                n == e.len(),
                e == entries_of(self.paths),
                views(keys@) == keys_of(e).take(i as int),
        {
            let kv = map_get_index(&self.paths, i);
            let ghost before = keys@;
            if let Some((k, _v)) = kv {
                keys.push(k);
            }
            assert(keys_of(e)[i as int] == e[i as int].0);
            assert(views(keys@) =~= views(before).push(e[i as int].0));
            assert(views(keys@) =~= keys_of(e).take(i + 1));
        }
        assert(keys_of(e).take(n as int) =~= keys_of(e));
        keys
    }

    /// Puts the projects in the lexicographic order of their names when
    /// sorting is on; otherwise leaves them as they are.
    pub fn sort_config(&mut self)
        ensures
            same_settings(*old(self), *final(self)),
            entries_of(final(self).paths) == arranged(*old(self), entries_of(old(self).paths)),
            !sorting_on(*old(self)) ==> *final(self) == *old(self),
            unique_keys(entries_of(old(self).paths)) ==> unique_keys(entries_of(final(self).paths)),
    {
        proof {
            lemma_rebuild_unique(sort_seq(keys_of(entries_of(self.paths))), entries_of(self.paths));
        }
        if self.sort == Some(true) {
            let ghost e = entries_of(self.paths);
            let names = self.names();
            let keys = sort_strings(&names);
            proof {
                lemma_sort_members(keys_of(e));
            }
            let mut new_paths = map_new();
            let n = keys.len();
            for i in 0..n
                invariant
                    n == keys@.len(),
                    e == entries_of(self.paths),
                    views(keys@) == sort_seq(keys_of(e)),
                    forall|k: int| 0 <= k < sort_seq(keys_of(e)).len()
                        ==> keys_of(e).contains(#[trigger] sort_seq(keys_of(e))[k]),
                    entries_of(new_paths) == rebuild(views(keys@).take(i as int), e),
            {
                let k = keys[i].clone();
                assert(views(keys@)[i as int] == k@);
                proof {
                    let w = choose|w: int| 0 <= w < keys_of(e).len() && keys_of(e)[w] == k@;
                    lemma_key_pos(e, k@);
                    assert(e[w].0 == k@);
                }
                let v = map_get(&self.paths, k.as_str());
                if let Some(v) = v {
                    map_insert(&mut new_paths, k, v);
                }
                assert(views(keys@).take(i + 1).drop_last() =~= views(keys@).take(i as int));
            }
            assert(views(keys@).take(n as int) =~= views(keys@));
            self.paths = new_paths;
        }
    }

    /// Fills in the fields that an older file lacks, sorting the paths when
    /// sorting was just turned on. Returns whether anything was filled in,
    /// that is, whether the registry needs saving.
    pub fn update_config(&mut self) -> (changed: bool)
        ensures
            migration(*old(self), *final(self), changed),
            unique_keys(entries_of(old(self).paths)) ==> unique_keys(entries_of(final(self).paths)),
    {
        let mut changed = false;
        if self.sort.is_none() {
            self.sort = Some(true);
            self.sort_config();
            changed = true;
        }
        if self.dirs.is_none() {
            self.dirs = Some(Vec::new());
            changed = true;
        }
        if self.exclude_proj_dirs.is_none() {
            self.exclude_proj_dirs = Some(false);
            changed = true;
        }
        changed
    }

    /// Registers `path` under `name`, replacing the path of an existing entry
    /// of that name, and keeps the order.
    pub fn add_project(&mut self, name: String, path: String)
        ensures
            same_settings(*old(self), *final(self)),
            entries_of(final(self).paths) == arranged(
                *old(self),
                insert_entry(entries_of(old(self).paths), name@, path@),
            ),
            unique_keys(entries_of(old(self).paths)) ==> unique_keys(entries_of(final(self).paths)),
    {
        proof {
            if unique_keys(entries_of(self.paths)) {
                lemma_insert_unique(entries_of(self.paths), name@, path@);
            }
        }
        map_insert(&mut self.paths, name, path);
        self.sort_config();
    }

    /// Appends a search directory, and keeps the order of the paths.
    pub fn add_dir(&mut self, dir: String)
        ensures
            final(self).dirs matches Some(d) && views(d@) == dirs_after_add(*old(self), dir@),
            final(self).open_cmd == old(self).open_cmd,
            final(self).editor == old(self).editor,
            final(self).sort == old(self).sort,
            final(self).exclude_proj_dirs == old(self).exclude_proj_dirs,
            entries_of(final(self).paths) == arranged(*old(self), entries_of(old(self).paths)),
            unique_keys(entries_of(old(self).paths)) ==> unique_keys(entries_of(final(self).paths)),
    {
        let ghost d_view = dirs_after_add(*self, dir@);
        let mut dirs = match self.dirs.take() {
            Some(d) => d,
            None => Vec::new(),
        };
        dirs.push(dir);
        assert(views(dirs@) =~= d_view);
        self.dirs = Some(dirs);
        self.sort_config();
    }
}

} // verus!
