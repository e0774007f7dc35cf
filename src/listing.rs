use vstd::prelude::*;

use crate::paths::{views_of, Location};

verus! {

/// One child of a directory, as a listing of that directory reports it.
#[derive(Debug, Clone)]
pub struct Entry {
    pub name: String,
    pub is_dir: bool,
}

/// The paths of several locations.
pub open spec fn paths_of(v: Seq<Location>) -> Seq<Seq<Seq<char>>> {
    v.map_values(|l: Location| l@)
}

/// The names of the entries that are files, in listing order.
pub open spec fn file_names(entries: Seq<Entry>) -> Seq<Seq<char>>
    decreases entries.len(),
{
    if entries.len() == 0 {
        Seq::empty()
    } else {
        let rest = file_names(entries.drop_last());
        if entries.last().is_dir {
            rest
        } else {
            rest.push(entries.last().name@)
        }
    }
}

/// The names of the entries that are directories, in listing order.
pub open spec fn dir_names(entries: Seq<Entry>) -> Seq<Seq<char>>
    decreases entries.len(),
{
    if entries.len() == 0 {
        Seq::empty()
    } else {
        let rest = dir_names(entries.drop_last());
        if entries.last().is_dir {
            rest.push(entries.last().name@)
        } else {
            rest
        }
    }
}

/// The paths of the children `names` of the directory `dir`.
pub open spec fn children(dir: Seq<Seq<char>>, names: Seq<Seq<char>>) -> Seq<Seq<Seq<char>>> {
    names.map_values(|n: Seq<char>| dir.push(n))
}

/// The child directories of each of `dirs` in turn, where `listings[k]` lists `dirs[k]`.
pub open spec fn all_child_dirs(dirs: Seq<Seq<Seq<char>>>, listings: Seq<Vec<Entry>>) -> Seq<Seq<Seq<char>>>
    decreases dirs.len(),
{
    if dirs.len() == 0 || listings.len() == 0 {
        Seq::empty()
    } else {
        all_child_dirs(dirs.drop_last(), listings.drop_last()) + children(
            dirs.last(),
            dir_names(listings.last()@),
        )
    }
}

/// The path of `dir` with the part `name` added.
pub fn child_of(dir: &Location, name: &String) -> (r: Location)
    ensures
        r@ == dir@.push(name@),
{
    let mut parts: Vec<String> = Vec::new();
    let mut i: usize = 0;
    while i < dir.parts.len()
        invariant
            i <= dir.parts.len(),
            views_of(parts@) == dir@.take(i as int),
        decreases dir.parts.len() - i,
    {
        let ghost before = parts@;
        parts.push(dir.parts[i].clone());
        assert(views_of(parts@) =~= views_of(before).push(dir@[i as int]));
        assert(dir@.take(i + 1) =~= dir@.take(i as int).push(dir@[i as int]));
        i = i + 1;
    }
    let ghost before = parts@;
    parts.push(name.clone());
    assert(views_of(parts@) =~= views_of(before).push(name@));
    assert(dir@.take(i as int) =~= dir@);
    Location { parts }
}

/// Appends to `out` the paths under `dir` of the entries that are files
/// (`want_dirs` false) or directories (`want_dirs` true).
fn collect_children(out: &mut Vec<Location>, dir: &Location, entries: &Vec<Entry>, want_dirs: bool)
    ensures
        paths_of(final(out)@) == paths_of(old(out)@) + children(
            dir@,
            if want_dirs { dir_names(entries@) } else { file_names(entries@) },
        ),
{
    let ghost start = paths_of(out@);
    let mut i: usize = 0;
    while i < entries.len()
        invariant
            i <= entries.len(),
            paths_of(out@) == start + children(
                dir@,
                if want_dirs { dir_names(entries@.take(i as int)) } else { file_names(entries@.take(i as int)) },
            ),
        decreases entries.len() - i,
    {
        let ghost before = out@;
        assert(entries@.take(i + 1).drop_last() =~= entries@.take(i as int));
        if entries[i].is_dir == want_dirs {
            out.push(child_of(dir, &entries[i].name));
            assert(paths_of(out@) =~= paths_of(before).push(dir@.push(entries@[i as int].name@)));
        }
        i = i + 1;
        assert(paths_of(out@) =~= start + children(
            dir@,
            if want_dirs { dir_names(entries@.take(i as int)) } else { file_names(entries@.take(i as int)) },
        ));
    }
    assert(entries@.take(i as int) =~= entries@);
}

/// The names of all the entries, in listing order.
pub open spec fn entry_names(entries: Seq<Entry>) -> Seq<Seq<char>> {
    entries.map_values(|e: Entry| e.name@)
}

/// The paths of every child of `path`, files and directories alike, in
/// listing order, where `entries` lists `path`.
pub fn traverse_files(path: &Location, entries: &Vec<Entry>) -> (r: Vec<Location>)
    ensures
        paths_of(r@) == children(path@, entry_names(entries@)),
{
    let mut r: Vec<Location> = Vec::new();
    let mut i: usize = 0;
    while i < entries.len()
        invariant
            i <= entries.len(),
            paths_of(r@) == children(path@, entry_names(entries@.take(i as int))),
        decreases entries.len() - i,
    {
        let ghost before = r@;
        r.push(child_of(path, &entries[i].name));
        assert(paths_of(r@) =~= paths_of(before).push(path@.push(entries@[i as int].name@)));
        i = i + 1;
        assert(children(path@, entry_names(entries@.take(i as int))) =~= children(
            path@,
            entry_names(entries@.take(i - 1)),
        ).push(path@.push(entries@[i - 1].name@)));
    }
    assert(entries@.take(i as int) =~= entries@);
    r
}

/// The paths of the children of `path` that are files, in listing order,
/// where `entries` lists `path`.
pub(crate) fn file_children(path: &Location, entries: &Vec<Entry>) -> (r: Vec<Location>)
    ensures
        paths_of(r@) == children(path@, file_names(entries@)),
{
    let mut r: Vec<Location> = Vec::new();
    assert(paths_of(r@) =~= Seq::<Seq<Seq<char>>>::empty());
    collect_children(&mut r, path, entries, false);
    assert(paths_of(r@) =~= children(path@, file_names(entries@)));
    r
}

/// The paths of the child directories of each of `paths` in turn, where
/// `listings[k]` lists `paths[k]`.
pub fn traverse_dirs(paths: &Vec<Location>, listings: &Vec<Vec<Entry>>) -> (r: Vec<Location>)
    requires
        paths@.len() == listings@.len(),
    ensures
        paths_of(r@) == all_child_dirs(paths_of(paths@), listings@),
{
    let mut r: Vec<Location> = Vec::new();
    let mut k: usize = 0;
    assert(paths_of(r@) =~= Seq::<Seq<Seq<char>>>::empty());
    assert(paths@.take(0) =~= Seq::<Location>::empty());
    while k < paths.len()
        invariant
            k <= paths.len(),
            paths@.len() == listings@.len(),
            paths_of(r@) == all_child_dirs(paths_of(paths@.take(k as int)), listings@.take(k as int)),
        decreases paths.len() - k,
    {
        collect_children(&mut r, &paths[k], &listings[k], true);
        assert(paths_of(paths@.take(k + 1)).drop_last() =~= paths_of(paths@.take(k as int)));
        assert(paths_of(paths@.take(k + 1)).last() == paths@[k as int]@);
        assert(listings@.take(k + 1).drop_last() =~= listings@.take(k as int));
        k = k + 1;
    }
    assert(paths@.take(k as int) =~= paths@);
    assert(listings@.take(k as int) =~= listings@);
    r
}

} // verus!
