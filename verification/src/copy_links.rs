//! What becomes of the hard links of a directory tree that is copied to another file system.
//!
//! A copy makes things one after the other. [`made_inodes`] tells which inode is at each path then:
//! whatever is made is a file of its own, except for a hard link, which is the file that it is made to.

use vstd::prelude::*;

use crate::copy::{CopyActionOf, CopyActionView, CopyEventView};
use crate::copy_done;
use crate::copy_laws;
use crate::copy_tree;
use crate::copy_tree::Tree;
use crate::inodes::CopyInodesView;
use crate::path::SLASH;
use crate::stat::{FileStat, S_IFDIR, S_IFSOCK};

verus! {

/// The files that are there once a number of things have been made, in order: a number for each inode,
/// by path. Nothing is made where there is something already.
pub open spec fn made_inodes(made: Seq<CopyActionView>) -> Map<Seq<u8>, int>
    decreases made.len(),
{
    if made.len() == 0 {
        Map::empty()
    } else {
        let before = made_inodes(made.drop_last());
        match (made.last(), copy_laws::made_path(made.last())) {
            (_, None) => before,
            (_, Some(path)) if before.contains_key(path) => before,
            (CopyActionOf::Link { old_file, .. }, Some(path)) => if before.contains_key(old_file) {
                before.insert(path, before[old_file])
            } else {
                before
            },
            (_, Some(path)) => before.insert(path, made.len() - 1),
        }
    }
}

/// An entry of a tree and the path that it is copied to.
pub struct Place {
    /// The entry.
    pub tree: Tree,
    /// The path of its copy.
    pub dest: Seq<u8>,
}

/// An entry that is copied into a directory and all that lies below it, in the order in which they are
/// copied.
pub open spec fn tree_places(t: Tree, dir: Seq<u8>) -> Seq<Place>
    decreases t,
{
    let dest = copy_tree::copy_path(t, dir);
    if t.stat.file_type() == S_IFDIR {
        seq![Place { tree: t, dest }] + forest_places(t.children, dest)
    } else {
        seq![Place { tree: t, dest }]
    }
}

/// A list of entries that are copied into a directory and all that lies below them.
pub open spec fn forest_places(list: Seq<Tree>, dir: Seq<u8>) -> Seq<Place>
    decreases list,
{
    if list.len() == 0 {
        Seq::empty()
    } else {
        forest_places(list.drop_last(), dir) + tree_places(list.last(), dir)
    }
}

/// Tells whether an entry has a name, and each directory at or below it shows each name once.
pub open spec fn tree_names_differ(t: Tree) -> bool
    decreases t,
{
    &&& crate::path::file_name_spec(t.path) is Some
    &&& t.stat.file_type() == S_IFDIR ==> forest_names_differ(t.children)
}

/// Tells whether a list of entries shows each name once, and so does each directory below them.
pub open spec fn forest_names_differ(list: Seq<Tree>) -> bool
    decreases list,
{
    list.len() == 0 || {
        &&& forest_names_differ(list.drop_last())
        &&& tree_names_differ(list.last())
        &&& forall|i: int|
            0 <= i < list.len() - 1 ==> crate::path::file_name_spec((#[trigger] list[i]).path)
                != crate::path::file_name_spec(list.last().path)
    }
}

/// Tells whether an entry is copied and is not a directory.
pub open spec fn is_file(p: Place) -> bool {
    p.tree.stat.file_type() != S_IFDIR && p.tree.stat.file_type() != S_IFSOCK
}

/// Tells whether two entries are one file.
pub open spec fn same_file(a: FileStat, b: FileStat) -> bool {
    a.st_dev == b.st_dev && a.st_ino == b.st_ino
}

/// Tells whether the link counts of a list of entries are what they should be: entries that are one
/// file have more than one link.
pub open spec fn links_are_counted(list: Seq<Place>) -> bool {
    forall|i: int, j: int| #![trigger list[i], list[j]]
        0 <= i < list.len() && 0 <= j < list.len() && i != j && is_file(list[i]) && is_file(list[j])
            && same_file(list[i].tree.stat, list[j].tree.stat) ==> list[i].tree.stat.st_nlink > 1
}

/// What is made for a list of entries, one after the other.
spec fn places_made(list: Seq<Place>, inodes: CopyInodesView) -> Seq<CopyActionView>
    decreases list.len(),
{
    if list.len() == 0 {
        Seq::empty()
    } else {
        let p = list.last();
        let before = list.drop_last();
        places_made(before, inodes) + copy_tree::own_made(
            p.tree,
            p.dest,
            places_inodes(before, inodes),
        )
    }
}

/// The inodes that are known once a list of entries has been copied, one after the other.
spec fn places_inodes(list: Seq<Place>, inodes: CopyInodesView) -> CopyInodesView
    decreases list.len(),
{
    if list.len() == 0 {
        inodes
    } else {
        let p = list.last();
        copy_tree::own_inodes(p.tree, p.dest, places_inodes(list.drop_last(), inodes))
    }
}

proof fn places_made_in_parts(first: Seq<Place>, second: Seq<Place>, inodes: CopyInodesView)
    ensures
        places_inodes(first + second, inodes) == places_inodes(
            second,
            places_inodes(first, inodes),
        ),
        places_made(first + second, inodes) == places_made(first, inodes) + places_made(
            second,
            places_inodes(first, inodes),
        ),
    decreases second.len(),
{
    if second.len() == 0 {
        assert(first + second =~= first);
        assert(places_made(first, inodes) + Seq::<CopyActionView>::empty() =~= places_made(
            first,
            inodes,
        ));
    } else {
        places_made_in_parts(first, second.drop_last(), inodes);
        assert((first + second).drop_last() =~= first + second.drop_last());
        assert((first + second).last() == second.last());
        assert(places_made(first + second, inodes) =~= places_made(first, inodes) + places_made(
            second,
            places_inodes(first, inodes),
        ));
    }
}

proof fn one_place_made(p: Place, inodes: CopyInodesView)
    ensures
        places_inodes(seq![p], inodes) == copy_tree::own_inodes(p.tree, p.dest, inodes),
        places_made(seq![p], inodes) == copy_tree::own_made(p.tree, p.dest, inodes),
{
    let none = Seq::<Place>::empty();
    assert(seq![p].drop_last() =~= none);
    assert(places_inodes(none, inodes) == inodes);
    assert(places_made(none, inodes) == Seq::<CopyActionView>::empty());
    assert(places_made(seq![p], inodes) =~= copy_tree::own_made(p.tree, p.dest, inodes));
}

/// What is made for an entry is what is made for it and for all that lies below it, one after the
/// other.
proof fn tree_made_is_places_made(t: Tree, dir: Seq<u8>, inodes: CopyInodesView)
    ensures
        places_inodes(tree_places(t, dir), inodes) == copy_tree::tree_inodes(t, dir, inodes),
        places_made(tree_places(t, dir), inodes) == copy_tree::tree_made(t, dir, inodes),
    decreases t,
{
    let dest = copy_tree::copy_path(t, dir);
    let p = Place { tree: t, dest };
    one_place_made(p, inodes);
    if t.stat.file_type() == S_IFDIR {
        let own = copy_tree::own_inodes(t, dest, inodes);
        forest_made_is_places_made(t.children, dest, own);
        places_made_in_parts(seq![p], forest_places(t.children, dest), inodes);
    }
}

proof fn forest_made_is_places_made(list: Seq<Tree>, dir: Seq<u8>, inodes: CopyInodesView)
    ensures
        places_inodes(forest_places(list, dir), inodes) == copy_tree::forest_inodes(
            list,
            dir,
            inodes,
        ),
        places_made(forest_places(list, dir), inodes) == copy_tree::forest_made(list, dir, inodes),
    decreases list,
{
    if list.len() > 0 {
        let before = list.drop_last();
        forest_made_is_places_made(before, dir, inodes);
        tree_made_is_places_made(list.last(), dir, copy_tree::forest_inodes(before, dir, inodes));
        places_made_in_parts(forest_places(before, dir), tree_places(list.last(), dir), inodes);
    }
}

/// Tells whether one path is another one, or continues it after a slash.
spec fn continues(path: Seq<u8>, base: Seq<u8>) -> bool {
    &&& path.len() >= base.len()
    &&& path.take(base.len() as int) == base
    &&& path.len() > base.len() ==> path[base.len() as int] == SLASH
}

proof fn continues_on(path: Seq<u8>, middle: Seq<u8>, base: Seq<u8>)
    requires
        continues(path, middle),
        continues(middle, base),
    ensures
        continues(path, base),
{
    assert(path.take(base.len() as int) =~= middle.take(base.len() as int));
    if middle.len() > base.len() {
        assert(path[base.len() as int] == path.take(middle.len() as int)[base.len() as int]);
    }
}

/// A directory as the start of the paths of its entries.
spec fn as_start(dir: Seq<u8>) -> Seq<u8> {
    if dir.len() == 0 || dir.last() == SLASH {
        dir
    } else {
        dir.push(SLASH)
    }
}

proof fn copy_path_parts(t: Tree, dir: Seq<u8>)
    requires
        tree_names_differ(t),
    ensures
        ({
            let name = crate::path::file_name_spec(t.path)->0;
            &&& crate::path::file_name_spec(t.path) is Some
            &&& name.len() > 0
            &&& !name.contains(SLASH)
            &&& copy_tree::copy_path(t, dir) == as_start(dir) + name
            &&& copy_tree::copy_path(t, dir).last() != SLASH
        }),
{
    let name = crate::path::file_name_spec(t.path)->0;
    crate::path::names_are_entry_names(t.path);
    assert(name.contains(name[0]));
    assert(name.contains(name.last()));
    assert(copy_tree::copy_path(t, dir).last() == name.last());
}

/// Two entries of one directory with different names have no common paths.
proof fn siblings_differ(dir: Seq<u8>, a: Seq<u8>, b: Seq<u8>, path: Seq<u8>)
    requires
        !a.contains(SLASH),
        !b.contains(SLASH),
        continues(path, dir + a),
        continues(path, dir + b),
    ensures
        a == b,
{
    let n = dir.len();
    let end_a = path.take((n + a.len()) as int);
    let end_b = path.take((n + b.len()) as int);
    if a.len() < b.len() {
        assert(end_b[(n + a.len()) as int] == b[a.len() as int]);
        assert(b.contains(b[a.len() as int]));
    } else if b.len() < a.len() {
        assert(end_a[(n + b.len()) as int] == a[b.len() as int]);
        assert(a.contains(a[b.len() as int]));
    } else {
        assert(end_a.skip(n as int) =~= a);
        assert(end_b.skip(n as int) =~= b);
    }
}

/// The copy of an entry and of all that lies below it is at the path of the copy or continues it.
proof fn tree_places_continue(t: Tree, dir: Seq<u8>)
    requires
        tree_names_differ(t),
    ensures
        forall|i: int|
            0 <= i < tree_places(t, dir).len() ==> continues(
                (#[trigger] tree_places(t, dir)[i]).dest,
                copy_tree::copy_path(t, dir),
            ),
    decreases t,
{
    let dest = copy_tree::copy_path(t, dir);
    let list = tree_places(t, dir);
    assert(dest.take(dest.len() as int) =~= dest);
    if t.stat.file_type() == S_IFDIR {
        let below = forest_places(t.children, dest);
        forest_places_continue(t.children, dest);
        copy_path_parts(t, dir);
        assert forall|i: int| 0 <= i < list.len() implies continues(
            (#[trigger] list[i]).dest,
            dest,
        ) by {
            if i > 0 {
                assert(list[i] == below[i - 1]);
                let k = choose|k: int|
                    0 <= k < t.children.len() && continues(
                        below[i - 1].dest,
                        copy_tree::copy_path(#[trigger] t.children[k], dest),
                    );
                below_continues(t, k, dir);
                continues_on(list[i].dest, copy_tree::copy_path(t.children[k], dest), dest);
            }
        }
    }
}

/// The path of an entry below another entry continues the path of that entry.
proof fn below_continues(t: Tree, k: int, dir: Seq<u8>)
    requires
        tree_names_differ(t),
        t.stat.file_type() == S_IFDIR,
        0 <= k < t.children.len(),
    ensures
        ({
            let dest = copy_tree::copy_path(t, dir);
            let below = copy_tree::copy_path(t.children[k], dest);
            continues(below, dest) && below.len() > dest.len()
        }),
{
    let dest = copy_tree::copy_path(t, dir);
    names_in_parts(t.children, k);
    copy_path_parts(t, dir);
    copy_path_parts(t.children[k], dest);
    let below = copy_tree::copy_path(t.children[k], dest);
    assert(below.take(dest.len() as int) =~= dest);
}

proof fn names_in_parts(list: Seq<Tree>, k: int)
    requires
        forest_names_differ(list),
        0 <= k < list.len(),
    ensures
        tree_names_differ(list[k]),
    decreases list.len(),
{
    if k < list.len() - 1 {
        names_in_parts(list.drop_last(), k);
    }
}

proof fn forest_places_continue(list: Seq<Tree>, dir: Seq<u8>)
    requires
        forest_names_differ(list),
    ensures
        forall|i: int|
            0 <= i < forest_places(list, dir).len() ==> exists|k: int|
                0 <= k < list.len() && continues(
                    (#[trigger] forest_places(list, dir)[i]).dest,
                    copy_tree::copy_path(#[trigger] list[k], dir),
                ),
    decreases list,
{
    if list.len() > 0 {
        let before = list.drop_last();
        let places = forest_places(before, dir);
        forest_places_continue(before, dir);
        tree_places_continue(list.last(), dir);
        assert forall|i: int| 0 <= i < forest_places(list, dir).len() implies exists|k: int|
            0 <= k < list.len() && continues(
                (#[trigger] forest_places(list, dir)[i]).dest,
                copy_tree::copy_path(#[trigger] list[k], dir),
            ) by {
            if i < places.len() {
                let k = choose|k: int|
                    0 <= k < before.len() && continues(
                        places[i].dest,
                        copy_tree::copy_path(#[trigger] before[k], dir),
                    );
                assert(list[k] == before[k]);
            } else {
                assert(forest_places(list, dir)[i] == tree_places(list.last(), dir)[i
                    - places.len()]);
                assert(list[list.len() - 1] == list.last());
            }
        }
    }
}

/// Tells whether no two of a list of entries are copied to one path.
spec fn dests_differ(list: Seq<Place>) -> bool {
    forall|i: int, j: int| #![trigger list[i], list[j]]
        0 <= i < j < list.len() ==> list[i].dest != list[j].dest
}

proof fn tree_dests_differ(t: Tree, dir: Seq<u8>)
    requires
        tree_names_differ(t),
    ensures
        dests_differ(tree_places(t, dir)),
    decreases t,
{
    if t.stat.file_type() == S_IFDIR {
        let dest = copy_tree::copy_path(t, dir);
        let list = tree_places(t, dir);
        let below = forest_places(t.children, dest);
        forest_dests_differ(t.children, dest);
        forest_places_continue(t.children, dest);
        assert forall|i: int, j: int| #![trigger list[i], list[j]]
            0 <= i < j < list.len() implies list[i].dest != list[j].dest by {
            assert(list[j] == below[j - 1]);
            if i == 0 {
                let k = choose|k: int|
                    0 <= k < t.children.len() && continues(
                        below[j - 1].dest,
                        copy_tree::copy_path(#[trigger] t.children[k], dest),
                    );
                below_continues(t, k, dir);
            } else {
                assert(list[i] == below[i - 1]);
            }
        }
    }
}

/// Where each directory shows each name once, no two entries are copied to one path.
proof fn forest_dests_differ(list: Seq<Tree>, dir: Seq<u8>)
    requires
        forest_names_differ(list),
    ensures
        dests_differ(forest_places(list, dir)),
    decreases list,
{
    if list.len() > 0 {
        let before = list.drop_last();
        let last = list.last();
        let first = forest_places(before, dir);
        let second = tree_places(last, dir);
        let all = forest_places(list, dir);
        forest_dests_differ(before, dir);
        tree_dests_differ(last, dir);
        forest_places_continue(before, dir);
        tree_places_continue(last, dir);
        copy_path_parts(last, dir);
        assert forall|i: int, j: int| #![trigger all[i], all[j]]
            0 <= i < j < all.len() implies all[i].dest != all[j].dest by {
            if j < first.len() {
                assert(all[i] == first[i] && all[j] == first[j]);
            } else if i >= first.len() {
                assert(all[i] == second[i - first.len()] && all[j] == second[j - first.len()]);
            } else {
                assert(all[i] == first[i] && all[j] == second[j - first.len()]);
                let k = choose|k: int|
                    0 <= k < before.len() && continues(
                        first[i].dest,
                        copy_tree::copy_path(#[trigger] before[k], dir),
                    );
                assert(list[k] == before[k]);
                names_in_parts(list, k);
                copy_path_parts(list[k], dir);
                assert(continues(all[i].dest, copy_tree::copy_path(list[k], dir)));
                assert(continues(all[j].dest, copy_tree::copy_path(last, dir)));
                let a = crate::path::file_name_spec(list[k].path);
                let b = crate::path::file_name_spec(last.path);
                assert(a is Some && b is Some);
                assert(a != b);
                if all[i].dest == all[j].dest {
                    siblings_differ(as_start(dir), a->0, b->0, all[i].dest);
                }
            }
        }
    }
}

/// Tells whether one of a list of entries is copied to a path.
spec fn has_dest(list: Seq<Place>, path: Seq<u8>) -> bool {
    exists|i: int| 0 <= i < list.len() && (#[trigger] list[i]).dest == path
}

/// Tells whether one of a list of entries is a file with an inode and is copied to a path.
spec fn has_file(list: Seq<Place>, ino: u64, path: Seq<u8>) -> bool {
    exists|i: int|
        0 <= i < list.len() && (#[trigger] list[i]).dest == path && is_file(list[i])
            && list[i].tree.stat.st_ino == ino
}

/// What holds once a list of entries has been copied to another file system: each file is there, and
/// two of them are one file exactly if they have one inode. `known` are the inodes that the copy knows.
spec fn links_kept(
    list: Seq<Place>,
    made: Seq<CopyActionView>,
    known: CopyInodesView,
) -> bool {
    let inodes = made_inodes(made);
    &&& known is SeparateFs
    &&& forall|path: Seq<u8>| #[trigger]
        inodes.contains_key(path) ==> has_dest(list, path) && inodes[path] < made.len()
    &&& forall|ino: u64|
        (#[trigger] known.find(ino)) matches Some(path) ==> has_file(list, ino, path)
    &&& forall|i: int|
        0 <= i < list.len() && is_file(#[trigger] list[i]) ==> {
            &&& inodes.contains_key(list[i].dest)
            &&& list[i].tree.stat.st_nlink > 1 ==> known.find(list[i].tree.stat.st_ino) is Some
        }
    &&& forall|i: int, j: int| #![trigger list[i], list[j]]
        0 <= i < list.len() && 0 <= j < list.len() && is_file(list[i]) && is_file(list[j]) ==> (
        inodes[list[i].dest] == inodes[list[j].dest] <==> list[i].tree.stat.st_ino
            == list[j].tree.stat.st_ino)
}

/// What is asked of a list of entries for its hard links to be kept.
spec fn can_be_kept(list: Seq<Place>, dev: u64) -> bool {
    &&& dests_differ(list)
    &&& links_are_counted(list)
    &&& forall|i: int|
        0 <= i < list.len() ==> {
            &&& (#[trigger] list[i]).tree.refusal is None
            &&& list[i].tree.stat.st_dev == dev
        }
}

/// Tells whether each of a list of entries has a known type or is linked, where they are copied one
/// after the other.
spec fn places_fit(list: Seq<Place>, inodes: CopyInodesView) -> bool
    decreases list.len(),
{
    list.len() == 0 || {
        &&& places_fit(list.drop_last(), inodes)
        &&& place_fits(list.last(), places_inodes(list.drop_last(), inodes))
    }
}

spec fn place_fits(p: Place, inodes: CopyInodesView) -> bool {
    copy_tree::is_known_type(p.tree.stat.file_type()) || copy_tree::is_linked(p.tree, inodes)
}

proof fn one_more_made(made: Seq<CopyActionView>, action: CopyActionView)
    ensures
        ({
            let before = made_inodes(made);
            made_inodes(made + seq![action]) == match (action, copy_laws::made_path(action)) {
                (_, None) => before,
                (_, Some(path)) if before.contains_key(path) => before,
                (CopyActionOf::Link { old_file, .. }, Some(path)) => if before.contains_key(
                    old_file,
                ) {
                    before.insert(path, before[old_file])
                } else {
                    before
                },
                (_, Some(path)) => before.insert(path, made.len() as int),
            }
        }),
{
    assert((made + seq![action]).drop_last() =~= made);
}

/// What is made for one entry of a copy to another file system that refuses no hard links.
proof fn place_made(
    list: Seq<Place>,
    made: Seq<CopyActionView>,
    known: CopyInodesView,
    p: Place,
    dev: u64,
)
    requires
        links_kept(list, made, known),
        can_be_kept(list.push(p), dev),
        place_fits(p, known),
    ensures
        ({
            let before = made_inodes(made);
            let own = copy_tree::own_made(p.tree, p.dest, known);
            let after = made_inodes(made + own);
            &&& !before.contains_key(p.dest)
            &&& own.len() <= 1
            &&& match copy_tree::link_source(p.tree, known) {
                Some(path) => before.contains_key(path) && own.len() == 1 && after == before.insert(
                    p.dest,
                    before[path],
                ),
                None => if p.tree.stat.file_type() == S_IFSOCK {
                    after == before
                } else {
                    own.len() == 1 && after == before.insert(p.dest, made.len() as int)
                },
            }
        }),
{
    let all = list.push(p);
    let before = made_inodes(made);
    let own = copy_tree::own_made(p.tree, p.dest, known);
    let n = list.len() as int;
    assert(all[n] == p);
    if before.contains_key(p.dest) {
        let i = choose|i: int| 0 <= i < list.len() && (#[trigger] list[i]).dest == p.dest;
        assert(all[i] == list[i]);
        assert(all[i].dest != all[n].dest);
    }
    match copy_tree::link_source(p.tree, known) {
        Some(path) => {
            let ino = p.tree.stat.st_ino;
            assert(has_file(list, ino, path));
            let i = choose|i: int|
                0 <= i < list.len() && (#[trigger] list[i]).dest == path && is_file(list[i])
                    && list[i].tree.stat.st_ino == ino;
            assert(before.contains_key(list[i].dest));
        },
        None => {},
    }
    if own.len() == 0 {
        assert(made + own =~= made);
    } else {
        assert(own =~= seq![own[0]]);
        one_more_made(made, own[0]);
    }
}

/// Copying one more entry keeps the hard links.
proof fn place_keeps_links(
    list: Seq<Place>,
    made: Seq<CopyActionView>,
    known: CopyInodesView,
    p: Place,
    dev: u64,
)
    requires
        links_kept(list, made, known),
        can_be_kept(list.push(p), dev),
        place_fits(p, known),
    ensures
        links_kept(
            list.push(p),
            made + copy_tree::own_made(p.tree, p.dest, known),
            copy_tree::own_inodes(p.tree, p.dest, known),
        ),
{
    let all = list.push(p);
    let n = list.len() as int;
    let ino = p.tree.stat.st_ino;
    let before = made_inodes(made);
    let made_after = made + copy_tree::own_made(p.tree, p.dest, known);
    let after = made_inodes(made_after);
    let known_after = copy_tree::own_inodes(p.tree, p.dest, known);
    place_made(list, made, known, p, dev);
    assert(all[n] == p);
    assert forall|path: Seq<u8>| #[trigger] after.contains_key(path) implies has_dest(all, path)
        && after[path] < made_after.len() by {
        if path == p.dest {
            assert(all[n].dest == path);
        } else {
            assert(before.contains_key(path));
            let i = choose|i: int| 0 <= i < list.len() && (#[trigger] list[i]).dest == path;
            assert(all[i].dest == path);
        }
    }
    assert forall|other: u64| (#[trigger] known_after.find(other)) matches Some(path) implies has_file(
        all,
        other,
        known_after.find(other)->0,
    ) by {
        let path = known_after.find(other)->0;
        if known.find(other) == Some(path) {
            let i = choose|i: int|
                0 <= i < list.len() && (#[trigger] list[i]).dest == path && is_file(list[i])
                    && list[i].tree.stat.st_ino == other;
            assert(all[i] == list[i]);
        } else {
            assert(all[n].dest == path);
        }
    }
    // Whatever was there before is where it was.
    assert forall|i: int| 0 <= i < n && is_file(#[trigger] list[i]) implies after.contains_key(
        list[i].dest,
    ) && after[list[i].dest] == before[list[i].dest] by {
        assert(all[i] == list[i]);
        assert(all[i].dest != all[n].dest);
    }
    assert forall|i: int| 0 <= i < all.len() && is_file(#[trigger] all[i]) implies {
        &&& after.contains_key(all[i].dest)
        &&& all[i].tree.stat.st_nlink > 1 ==> known_after.find(all[i].tree.stat.st_ino) is Some
    } by {
        if i < n {
            assert(all[i] == list[i]);
        }
    }
    // The new file is the file that its inode was copied to before, if there is one.
    if is_file(p) {
        assert forall|j: int| 0 <= j < n && is_file(#[trigger] list[j]) implies (after[p.dest]
            == after[list[j].dest] <==> ino == list[j].tree.stat.st_ino) by {
            assert(all[j] == list[j]);
            if ino == list[j].tree.stat.st_ino {
                assert(same_file(all[n].tree.stat, all[j].tree.stat));
                assert(same_file(all[j].tree.stat, all[n].tree.stat));
                assert(known.find(ino) is Some);
            }
            match copy_tree::link_source(p.tree, known) {
                Some(path) => {
                    let i = choose|i: int|
                        0 <= i < list.len() && (#[trigger] list[i]).dest == path && is_file(list[i])
                            && list[i].tree.stat.st_ino == ino;
                    assert(after[p.dest] == before[list[i].dest]);
                },
                None => {
                    assert(before.contains_key(list[j].dest));
                },
            }
        }
    }
    assert forall|i: int, j: int| #![trigger all[i], all[j]]
        0 <= i < all.len() && 0 <= j < all.len() && is_file(all[i]) && is_file(all[j]) implies (
    after[all[i].dest] == after[all[j].dest] <==> all[i].tree.stat.st_ino
        == all[j].tree.stat.st_ino) by {
        if i < n {
            assert(all[i] == list[i]);
        }
        if j < n {
            assert(all[j] == list[j]);
        }
    }
}

proof fn places_keep_links(list: Seq<Place>, dev: u64)
    requires
        can_be_kept(list, dev),
        places_fit(list, CopyInodesView::SeparateFs(Map::empty())),
    ensures
        ({
            let none = CopyInodesView::SeparateFs(Map::empty());
            links_kept(list, places_made(list, none), places_inodes(list, none))
        }),
    decreases list.len(),
{
    let none = CopyInodesView::SeparateFs(Map::empty());
    if list.len() > 0 {
        let before = list.drop_last();
        assert forall|i: int| 0 <= i < before.len() implies #[trigger] before[i] == list[i] by {}
        places_keep_links(before, dev);
        assert(before.push(list.last()) =~= list);
        place_keeps_links(
            before,
            places_made(before, none),
            places_inodes(before, none),
            list.last(),
            dev,
        );
    }
}

proof fn places_fit_in_parts(first: Seq<Place>, second: Seq<Place>, inodes: CopyInodesView)
    ensures
        places_fit(first + second, inodes) == (places_fit(first, inodes) && places_fit(
            second,
            places_inodes(first, inodes),
        )),
    decreases second.len(),
{
    if second.len() == 0 {
        assert(first + second =~= first);
    } else {
        let before = second.drop_last();
        places_fit_in_parts(first, before, inodes);
        places_made_in_parts(first, before, inodes);
        assert((first + second).drop_last() =~= first + before);
        assert((first + second).last() == second.last());
    }
}

proof fn tree_places_fit(t: Tree, dir: Seq<u8>, inodes: CopyInodesView)
    requires
        copy_tree::tree_fits(t, dir, inodes),
    ensures
        places_fit(tree_places(t, dir), inodes),
    decreases t,
{
    let dest = copy_tree::copy_path(t, dir);
    let p = Place { tree: t, dest };
    let none = Seq::<Place>::empty();
    assert(seq![p].drop_last() =~= none);
    assert(places_fit(none, inodes));
    assert(places_inodes(none, inodes) == inodes);
    assert(places_fit(seq![p], inodes));
    if t.stat.file_type() == S_IFDIR {
        one_place_made(p, inodes);
        forest_places_fit(t.children, dest, copy_tree::own_inodes(t, dest, inodes));
        places_fit_in_parts(seq![p], forest_places(t.children, dest), inodes);
    }
}

proof fn forest_places_fit(list: Seq<Tree>, dir: Seq<u8>, inodes: CopyInodesView)
    requires
        copy_tree::forest_fits(list, dir, inodes),
    ensures
        places_fit(forest_places(list, dir), inodes),
    decreases list,
{
    if list.len() > 0 {
        let before = list.drop_last();
        let known = copy_tree::forest_inodes(before, dir, inodes);
        forest_places_fit(before, dir, inodes);
        tree_places_fit(list.last(), dir, known);
        forest_made_is_places_made(before, dir, inodes);
        places_fit_in_parts(forest_places(before, dir), tree_places(list.last(), dir), inodes);
    }
}

/// Copying a directory to another file system keeps hard links: two files of the tree, at any depth,
/// are one file in the copy exactly if they are one file in the source. This takes a source on one
/// file system, in which each directory shows each name once and files with several entries have more
/// than one link, and a destination that refuses no hard link.
pub proof fn copy_dir_keeps_hard_links(
    source: Seq<u8>,
    dest: Seq<u8>,
    events: Seq<CopyEventView>,
    source_stat: FileStat,
    dest_stat: FileStat,
    list: Seq<Tree>,
)
    requires
        copy_done::shows_tree(events, dest, source_stat, dest_stat, list),
        source_stat.st_dev != dest_stat.st_dev,
        forest_names_differ(list),
        links_are_counted(forest_places(list, dest)),
        forall|i: int|
            0 <= i < forest_places(list, dest).len() ==> {
                &&& (#[trigger] forest_places(list, dest)[i]).tree.refusal is None
                &&& forest_places(list, dest)[i].tree.stat.st_dev == source_stat.st_dev
            },
    ensures
        copy_done::ends_well(crate::copy::copy_start(source, dest), events),
        ({
            let places = forest_places(list, dest);
            let made = copy_tree::all_made(crate::copy::copy_start(source, dest), events);
            let inodes = made_inodes(made);
            &&& forall|i: int|
                0 <= i < places.len() && is_file(#[trigger] places[i]) ==> inodes.contains_key(
                    places[i].dest,
                )
            &&& forall|i: int, j: int| #![trigger places[i], places[j]]
                0 <= i < places.len() && 0 <= j < places.len() && is_file(places[i]) && is_file(
                    places[j],
                ) ==> (inodes[places[i].dest] == inodes[places[j].dest] <==> same_file(
                    places[i].tree.stat,
                    places[j].tree.stat,
                ))
        }),
{
    let places = forest_places(list, dest);
    let known = copy_tree::inodes_between(source_stat, dest_stat);
    copy_tree::copy_dir_copies_the_tree(source, dest, source_stat, dest_stat, list);
    assert(events.drop_last() =~= copy_tree::copy_answers(source_stat, dest_stat, list, dest));
    forest_made_is_places_made(list, dest, known);
    forest_dests_differ(list, dest);
    forest_places_fit(list, dest, known);
    places_keep_links(places, source_stat.st_dev);
}

} // verus!
