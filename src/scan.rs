//! Turning the listings of the search directories into candidates: named
//! subdirectories that the menu offers beside the registry's own entries.
use crate::paths_map::{entries_of, insert_entry, keys_of, map_get_index, map_insert, map_new, Entry};
use crate::registry::Projects;
use crate::sorting::{sort_seq, sort_strings, views};
use crate::text::{contains_seq, str_contains, str_starts_with};
use indexmap::IndexMap;
use vstd::prelude::*;

verus! {

/// One entry of a directory listing, as the file system reported it.
pub struct DirEntryInfo {
    /// The entry's file name.
    pub name: String,
    /// The entry's full path, when it is valid Unicode.
    pub path: Option<String>,
    /// Whether the entry is a directory; false when its type could not be read.
    pub is_dir: bool,
}

/// The name begins with a dot: a hidden entry.
pub open spec fn is_hidden(name: Seq<char>) -> bool {
    name.len() > 0 && name[0] == '.'
}

/// With exclusion on, a name that occurs inside a project's path or inside a
/// search directory's path is left out.
pub open spec fn excluded_by(p: Projects, name: Seq<char>) -> bool {
    &&& p.exclude_proj_dirs == Some(true)
    &&& {
        ||| exists|i: int|
            0 <= i < entries_of(p.paths).len() && contains_seq(
                #[trigger] entries_of(p.paths)[i].1,
                name,
            )
        ||| (p.dirs is Some && exists|j: int|
            0 <= j < p.dirs->0@.len() && contains_seq(#[trigger] p.dirs->0@[j]@, name))
    }
}

/// An entry becomes a candidate when it is a visible directory with a usable
/// path that exclusion does not remove.
pub open spec fn keeps(p: Projects, e: DirEntryInfo) -> bool {
    &&& e.is_dir
    &&& e.path is Some
    &&& !is_hidden(e.name@)
    &&& !excluded_by(p, e.name@)
}

/// The candidates of one listing, in its order: each name with its path.
pub open spec fn dir_candidates(p: Projects, es: Seq<DirEntryInfo>) -> Seq<Entry>
    decreases es.len(),
{
    if es.len() == 0 {
        Seq::empty()
    } else {
        let rest = dir_candidates(p, es.drop_last());
        let e = es.last();
        if keeps(p, e) {
            rest.push((e.name@, e.path->0@))
        } else {
            rest
        }
    }
}

/// The candidates of all listings, in order; a directory without a listing
/// (one whose own name could not be determined) gives none.
pub open spec fn all_candidates(p: Projects, ls: Seq<Option<Vec<DirEntryInfo>>>) -> Seq<Entry>
    decreases ls.len(),
{
    if ls.len() == 0 {
        Seq::empty()
    } else {
        all_candidates(p, ls.drop_last()) + match ls.last() {
            Some(v) => dir_candidates(p, v@),
            None => Seq::<Entry>::empty(),
        }
    }
}

/// The entries `c` inserted in turn into `e`: a later name replaces the path
/// of an earlier one.
pub open spec fn fill(e: Seq<Entry>, c: Seq<Entry>) -> Seq<Entry>
    decreases c.len(),
{
    if c.len() == 0 {
        e
    } else {
        insert_entry(fill(e, c.drop_last()), c.last().0, c.last().1)
    }
}

/// Every candidate of one listing is a visible name that exclusion keeps.
pub proof fn lemma_dir_candidates_kept(p: Projects, es: Seq<DirEntryInfo>)
    ensures
        forall|k: int|
            0 <= k < dir_candidates(p, es).len() ==> !is_hidden(#[trigger] dir_candidates(p, es)[k].0)
                && !excluded_by(p, dir_candidates(p, es)[k].0),
    decreases es.len(),
{
    if es.len() > 0 {
        let rest = dir_candidates(p, es.drop_last());
        lemma_dir_candidates_kept(p, es.drop_last());
        assert forall|k: int| 0 <= k < dir_candidates(p, es).len() implies !is_hidden(
            #[trigger] dir_candidates(p, es)[k].0,
        ) && !excluded_by(p, dir_candidates(p, es)[k].0) by {
            if k < rest.len() {
                assert(dir_candidates(p, es)[k] == rest[k]);
            }
        }
    }
}

/// No candidate is hidden, and with exclusion on no candidate's name occurs
/// in a project's path or in a search directory's path.
pub proof fn lemma_candidates_kept(p: Projects, ls: Seq<Option<Vec<DirEntryInfo>>>)
    ensures
        forall|k: int|
            0 <= k < all_candidates(p, ls).len() ==> !is_hidden(#[trigger] all_candidates(p, ls)[k].0)
                && !excluded_by(p, all_candidates(p, ls)[k].0),
    decreases ls.len(),
{
    if ls.len() > 0 {
        let rest = all_candidates(p, ls.drop_last());
        lemma_candidates_kept(p, ls.drop_last());
        let last = match ls.last() {
            Some(v) => dir_candidates(p, v@),
            None => Seq::<Entry>::empty(),
        };
        if let Some(v) = ls.last() {
            lemma_dir_candidates_kept(p, v@);
        }
        assert forall|k: int| 0 <= k < all_candidates(p, ls).len() implies !is_hidden(
            #[trigger] all_candidates(p, ls)[k].0,
        ) && !excluded_by(p, all_candidates(p, ls)[k].0) by {
            if k < rest.len() {
                assert(all_candidates(p, ls)[k] == rest[k]);
            } else {
                assert(all_candidates(p, ls)[k] == last[k - rest.len()]);
            }
        }
    }
}

/// Whether exclusion removes `name`.
pub fn is_excluded(config: &Projects, name: &str) -> (r: bool)
    ensures
        r == excluded_by(*config, name@),
{
    match config.exclude_proj_dirs {
        Some(true) => {},
        _ => return false,
    }
    let n = crate::paths_map::map_len(&config.paths);
    for i in 0..n
        invariant
            n == entries_of(config.paths).len(),
            config.exclude_proj_dirs == Some(true),
            forall|k: int| 0 <= k < i ==> !contains_seq(#[trigger] entries_of(config.paths)[k].1, name@),
    {
        if let Some((_k, v)) = map_get_index(&config.paths, i) {
            if str_contains(v.as_str(), name) {
                return true;
            }
        }
    }
    match &config.dirs {
        Some(d) => {
            for j in 0..d.len()
                invariant
                    forall|k: int| 0 <= k < entries_of(config.paths).len() ==> !contains_seq(#[trigger] entries_of(config.paths)[k].1, name@),
                    config.exclude_proj_dirs == Some(true),
                    config.dirs == Some(*d),
                    forall|k: int| 0 <= k < j ==> !contains_seq(#[trigger] d@[k]@, name@),
            {
                if str_contains(d[j].as_str(), name) {
                    assert(contains_seq(d@[j as int]@, name@));
                    assert(config.dirs->0 == *d);
                    return true;
                }
            }
            false
        },
        None => false,
    }
}

/// Whether `e` becomes a candidate.
pub fn keeps_entry(config: &Projects, e: &DirEntryInfo) -> (r: bool)
    ensures
        r == keeps(*config, *e),
{
    if !e.is_dir || e.path.is_none() {
        return false;
    }
    let hidden = str_starts_with(e.name.as_str(), ".");
    proof {
        reveal_strlit(".");
        if e.name@.len() > 0 && e.name@[0] == '.' {
            assert(e.name@.take(1) =~= "."@);
        }
        if e.name@.len() > 0 {
            assert(e.name@.take(1)[0] == e.name@[0]);
        }
    }
    if hidden {
        return false;
    }
    !is_excluded(config, e.name.as_str())
}

/// Collects the candidates of the listings of the search directories: the
/// returned map holds each candidate's name with its path, and the names are
/// added to `options`, which is then sorted. Without search directories
/// nothing is scanned and `options` stays as it was.
pub fn add_options_from_dirs(
    config: &Projects,
    listings: &Vec<Option<Vec<DirEntryInfo>>>,
    options: &mut Vec<String>,
) -> (map: IndexMap<String, String>)
    ensures
        config.dirs is None ==> entries_of(map).len() == 0 && final(options)@ == old(options)@,
        config.dirs is Some ==> entries_of(map) == fill(
            Seq::empty(),
            all_candidates(*config, listings@),
        ),
        config.dirs is Some ==> views(final(options)@) == sort_seq(
            views(old(options)@) + keys_of(all_candidates(*config, listings@)),
        ),
{
    let mut map = map_new();
    if config.dirs.is_none() {
        return map;
    }
    let ghost start = views(options@);
    let mut names: Vec<String> = options.clone();
    assert(views(names@) == start) by {
        assert(views(names@) =~= start);
    }
    let ln = listings.len();
    for i in 0..ln
        invariant
            ln == listings@.len(),
            views(names@) == start + keys_of(all_candidates(*config, listings@.take(i as int))),
            entries_of(map) == fill(Seq::empty(), all_candidates(*config, listings@.take(i as int))),
    {
        let ghost before = all_candidates(*config, listings@.take(i as int));
        assert(listings@.take(i + 1).drop_last() =~= listings@.take(i as int));
        match &listings[i] {
            Some(entries) => {
                let en = entries.len();
                for j in 0..en
                    invariant
                        en == entries@.len(),
                        views(names@) == start + keys_of(before + dir_candidates(*config, entries@.take(j as int))),
                        entries_of(map) == fill(Seq::empty(), before + dir_candidates(*config, entries@.take(j as int))),
                {
                    let ghost cur = before + dir_candidates(*config, entries@.take(j as int));
                    assert(entries@.take(j + 1).drop_last() =~= entries@.take(j as int));
                    let e = &entries[j];
                    if keeps_entry(config, e) {
                        if let Some(path) = &e.path {
                            let ghost pair: Entry = (e.name@, path@);
                            let ghost old_names = names@;
                            names.push(e.name.clone());
                            assert(views(names@) =~= views(old_names).push(pair.0));
                            map_insert(&mut map, e.name.clone(), path.clone());
                            assert(before + dir_candidates(*config, entries@.take(j + 1)) =~= cur.push(pair));
                            assert(cur.push(pair).drop_last() =~= cur);
                            assert(keys_of(cur.push(pair)) =~= keys_of(cur).push(pair.0));
                            assert(views(names@) =~= start + keys_of(cur.push(pair)));
                        }
                    } else {
                        assert(before + dir_candidates(*config, entries@.take(j + 1)) =~= cur);
                    }
                }
                assert(entries@.take(en as int) =~= entries@);
            },
            None => {},
        }
        assert(all_candidates(*config, listings@.take(i + 1)) =~= before + match listings@[i as int] {
            Some(v) => dir_candidates(*config, v@),
            None => Seq::<Entry>::empty(),
        });
    }
    assert(listings@.take(ln as int) =~= listings@);
    *options = sort_strings(&names);
    map
}

} // verus!
