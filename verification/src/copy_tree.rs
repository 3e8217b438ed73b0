//! What a copy makes of a whole directory tree.
//!
//! A [`Tree`] is what the system shows of an entry and of all that lies below it. If the system
//! answers accordingly, a copy makes exactly what [`forest_made`] says.

use vstd::prelude::*;

use crate::copy::{
    CopyActionOf, CopyActionView, CopyEventOf, CopyEventView, CopyView, CopyWait, Frame, Item,
    MODE_BITS,
};
use crate::copy_laws;
use crate::error::{ErrorKind, ErrorView};
use crate::inodes::CopyInodesView;
use crate::listing::NextEntry;
use crate::stat::{FileStat, S_IFBLK, S_IFCHR, S_IFDIR, S_IFIFO, S_IFLNK, S_IFREG, S_IFSOCK};

verus! {

/// An entry of a directory and all that lies below it.
pub struct Tree {
    /// The path of the entry.
    pub path: Seq<u8>,
    /// Its status.
    pub stat: FileStat,
    /// What it points to, if it is a symbolic link.
    pub target: Seq<u8>,
    /// The error with which the destination refuses a hard link for it, if it does.
    pub refusal: Option<ErrorView>,
    /// Its entries in the order in which they are read, if it is a directory.
    pub children: Seq<Tree>,
}

/// The path of the copy of an entry in a directory.
pub open spec fn copy_path(t: Tree, dir: Seq<u8>) -> Seq<u8> {
    crate::path::join_spec(dir, crate::path::file_name_spec(t.path)->0)
}

/// Tells whether an entry is one of several hard links to a file.
pub open spec fn is_shared(t: Tree) -> bool {
    t.stat.file_type() != S_IFDIR && t.stat.st_nlink > 1
}

/// The file that an entry can be hard linked to, if there is one: within one file system the entry
/// itself, otherwise the first copy of the same inode.
pub open spec fn link_source(t: Tree, inodes: CopyInodesView) -> Option<Seq<u8>> {
    if !is_shared(t) {
        None
    } else if inodes is SameFs {
        Some(t.path)
    } else {
        inodes.find(t.stat.st_ino)
    }
}

/// Tells whether an entry is hard linked, and the destination does not refuse the link.
pub open spec fn is_linked(t: Tree, inodes: CopyInodesView) -> bool {
    link_source(t, inodes) is Some && (inodes is SameFs || t.refusal is None)
}

/// The inodes that are known once an entry itself has been copied to a path.
pub open spec fn own_inodes(t: Tree, path: Seq<u8>, inodes: CopyInodesView) -> CopyInodesView {
    if is_shared(t) && link_source(t, inodes) is None && t.stat.file_type() != S_IFSOCK {
        inodes.with(t.stat.st_ino, path)
    } else {
        inodes
    }
}

/// The inodes that are known once an entry has been copied into a directory, with all that lies below
/// it.
pub open spec fn tree_inodes(t: Tree, dir: Seq<u8>, inodes: CopyInodesView) -> CopyInodesView
    decreases t,
{
    let path = copy_path(t, dir);
    let own = own_inodes(t, path, inodes);
    if t.stat.file_type() == S_IFDIR {
        forest_inodes(t.children, path, own)
    } else {
        own
    }
}

/// The inodes that are known once a list of entries has been copied into a directory.
pub open spec fn forest_inodes(list: Seq<Tree>, dir: Seq<u8>, inodes: CopyInodesView) -> CopyInodesView
    decreases list,
{
    if list.len() == 0 {
        inodes
    } else {
        tree_inodes(list.last(), dir, forest_inodes(list.drop_last(), dir, inodes))
    }
}

/// Tells whether a file type is one of those that there are.
pub open spec fn is_known_type(kind: u32) -> bool {
    ||| kind == S_IFLNK
    ||| kind == S_IFDIR
    ||| kind == S_IFIFO
    ||| kind == S_IFBLK
    ||| kind == S_IFCHR
    ||| kind == S_IFSOCK
    ||| kind == S_IFREG
}

/// Tells whether an entry can be copied into a directory: it has a file name, its type is known unless
/// it is linked, a hard link for it is refused only because it is not permitted, and the same holds of
/// all that lies below it.
pub open spec fn tree_fits(t: Tree, dir: Seq<u8>, inodes: CopyInodesView) -> bool
    decreases t,
{
    let path = copy_path(t, dir);
    let kind = t.stat.file_type();
    &&& crate::path::file_name_spec(t.path) is Some
    &&& t.refusal matches Some(e) ==> e.kind == ErrorKind::NotPermitted
    &&& is_known_type(kind) || is_linked(t, inodes)
    &&& kind == S_IFDIR ==> forest_fits(t.children, path, own_inodes(t, path, inodes))
}

/// Tells whether all of a list of entries can be copied into a directory.
pub open spec fn forest_fits(list: Seq<Tree>, dir: Seq<u8>, inodes: CopyInodesView) -> bool
    decreases list,
{
    list.len() == 0 || {
        &&& forest_fits(list.drop_last(), dir, inodes)
        &&& tree_fits(list.last(), dir, forest_inodes(list.drop_last(), dir, inodes))
    }
}

/// What is made at a path for an entry that is not linked, by its type.
pub open spec fn node_made(t: Tree, path: Seq<u8>) -> Seq<CopyActionView> {
    let mode = t.stat.st_mode;
    let kind = t.stat.file_type();
    if kind == S_IFLNK {
        seq![CopyActionOf::Symlink { source: t.target, dest: path }]
    } else if kind == S_IFDIR {
        seq![CopyActionOf::Mkdir { path, mode: mode & MODE_BITS }]
    } else if kind == S_IFIFO {
        seq![CopyActionOf::Mkfifo { path, mode: mode & MODE_BITS }]
    } else if kind == S_IFBLK || kind == S_IFCHR {
        seq![CopyActionOf::Mknod { path, mode, dev_id: t.stat.st_rdev }]
    } else if kind == S_IFREG {
        seq![CopyActionOf::CopyFile { source: t.path, dest: path }]
    } else {
        Seq::empty()
    }
}

/// What is made at a path for an entry itself. A hard link that the destination refuses is followed by
/// what is made instead.
pub open spec fn own_made(t: Tree, path: Seq<u8>, inodes: CopyInodesView) -> Seq<CopyActionView> {
    match link_source(t, inodes) {
        None => node_made(t, path),
        Some(old_file) => {
            let linked: Seq<CopyActionView> = seq![CopyActionOf::Link { old_file, new_file: path }];
            if is_linked(t, inodes) {
                linked
            } else {
                linked + node_made(t, path)
            }
        },
    }
}

/// What is made for an entry in a directory, with all that lies below it.
pub open spec fn tree_made(t: Tree, dir: Seq<u8>, inodes: CopyInodesView) -> Seq<CopyActionView>
    decreases t,
{
    let path = copy_path(t, dir);
    if t.stat.file_type() == S_IFDIR {
        own_made(t, path, inodes) + forest_made(t.children, path, own_inodes(t, path, inodes))
    } else {
        own_made(t, path, inodes)
    }
}

/// What is made for a list of entries in a directory.
pub open spec fn forest_made(list: Seq<Tree>, dir: Seq<u8>, inodes: CopyInodesView) -> Seq<
    CopyActionView,
>
    decreases list,
{
    if list.len() == 0 {
        Seq::empty()
    } else {
        forest_made(list.drop_last(), dir, inodes) + tree_made(
            list.last(),
            dir,
            forest_inodes(list.drop_last(), dir, inodes),
        )
    }
}

/// What the system answers while an entry is made, rather than linked.
pub open spec fn node_answers(t: Tree) -> Seq<CopyEventView> {
    let kind = t.stat.file_type();
    if kind == S_IFLNK {
        seq![CopyEventOf::Target(Ok(t.target)), CopyEventOf::Made(Ok(()))]
    } else if kind == S_IFDIR {
        seq![CopyEventOf::Made(Ok(())), CopyEventOf::Opened(Ok(()))]
    } else if kind == S_IFIFO || kind == S_IFBLK || kind == S_IFCHR {
        seq![CopyEventOf::Made(Ok(()))]
    } else if kind == S_IFREG {
        seq![CopyEventOf::Copied(Ok(()))]
    } else {
        Seq::empty()
    }
}

/// What the system answers while an entry itself is copied.
pub open spec fn own_answers(t: Tree, inodes: CopyInodesView) -> Seq<CopyEventView> {
    let shown: Seq<CopyEventView> = seq![
        CopyEventOf::Next(NextEntry::Entry(t.path)),
        CopyEventOf::Stat(Ok(t.stat)),
    ];
    if link_source(t, inodes) is None {
        shown + node_answers(t)
    } else if is_linked(t, inodes) {
        shown + seq![CopyEventOf::Made(Ok(()))]
    } else {
        shown + seq![CopyEventOf::Made(Err(t.refusal->0))] + node_answers(t)
    }
}

/// What the system answers while an entry is copied into a directory, with all that lies below it.
pub open spec fn tree_answers(t: Tree, dir: Seq<u8>, inodes: CopyInodesView) -> Seq<CopyEventView>
    decreases t,
{
    let path = copy_path(t, dir);
    if t.stat.file_type() == S_IFDIR {
        own_answers(t, inodes) + forest_answers(t.children, path, own_inodes(t, path, inodes))
            + seq![CopyEventOf::Next(NextEntry::End)]
    } else {
        own_answers(t, inodes)
    }
}

/// What the system answers while a list of entries is copied into a directory.
pub open spec fn forest_answers(list: Seq<Tree>, dir: Seq<u8>, inodes: CopyInodesView) -> Seq<
    CopyEventView,
>
    decreases list,
{
    if list.len() == 0 {
        Seq::empty()
    } else {
        forest_answers(list.drop_last(), dir, inodes) + tree_answers(
            list.last(),
            dir,
            forest_inodes(list.drop_last(), dir, inodes),
        )
    }
}

/// All that a copy makes in the course of a number of events, in order.
pub open spec fn all_made(s: CopyView, events: Seq<CopyEventView>) -> Seq<CopyActionView>
    decreases events.len(),
{
    if events.len() == 0 {
        Seq::empty()
    } else {
        let before = events.drop_last();
        let action = crate::copy::copy_step(copy_laws::copy_run(s, before), events.last()).1;
        if copy_laws::made_path(action) is Some {
            all_made(s, before).push(action)
        } else {
            all_made(s, before)
        }
    }
}

/// Tells whether events take a copy from one state to another, and what it makes on the way.
pub open spec fn leads(
    s: CopyView,
    events: Seq<CopyEventView>,
    after: CopyView,
    made: Seq<CopyActionView>,
) -> bool {
    &&& copy_laws::copy_accepts(s, events)
    &&& copy_laws::copy_run(s, events) == after
    &&& all_made(s, events) == made
}

proof fn leads_nowhere(s: CopyView)
    ensures
        leads(s, Seq::empty(), s, Seq::empty()),
{
}

pub(crate) proof fn leads_one(s: CopyView, event: CopyEventView)
    requires
        s.accepts(event),
    ensures
        ({
            let (after, action) = crate::copy::copy_step(s, event);
            &&& copy_laws::made_path(action) is Some ==> leads(s, seq![event], after, seq![action])
            &&& copy_laws::made_path(action) is None ==> leads(
                s,
                seq![event],
                after,
                Seq::empty(),
            )
        }),
{
    let events = seq![event];
    assert(events.drop_last() =~= Seq::empty());
    let (after, action) = crate::copy::copy_step(s, event);
    leads_nowhere(s);
    if copy_laws::made_path(action) is Some {
        assert(all_made(s, events) =~= seq![action]);
    }
}

pub(crate) proof fn leads_on(
    s: CopyView,
    first: Seq<CopyEventView>,
    middle: CopyView,
    first_made: Seq<CopyActionView>,
    second: Seq<CopyEventView>,
    after: CopyView,
    second_made: Seq<CopyActionView>,
)
    requires
        leads(s, first, middle, first_made),
        leads(middle, second, after, second_made),
    ensures
        leads(s, first + second, after, first_made + second_made),
    decreases second.len(),
{
    if second.len() == 0 {
        assert(first + second =~= first);
        assert(first_made + second_made =~= first_made);
    } else {
        let before = second.drop_last();
        let between = copy_laws::copy_run(middle, before);
        leads_on(s, first, middle, first_made, before, between, all_made(middle, before));
        assert((first + second).drop_last() =~= first + before);
        assert((first + second).last() == second.last());
        assert(all_made(s, first + second) =~= first_made + second_made);
    }
}

/// The state of a copy that is about to get the next entry.
pub open spec fn at_entry(s: CopyView, inodes: CopyInodesView) -> CopyView {
    CopyView { inodes, waiting: CopyWait::Entry, ..s }
}

/// What comes of making an entry that is not a directory, after its first action.
proof fn making_leads_on(s: CopyView, t: Tree, item: Item<Seq<u8>>, dir: Seq<u8>)
    requires
        s.frames.len() > 0,
        is_known_type(t.stat.file_type()),
        t.stat.file_type() != S_IFDIR,
        item.source == t.path,
        item.dest == copy_path(t, dir),
        item.stat == t.stat,
        item.insert ==> s.inodes is SeparateFs,
    ensures
        ({
            let (after, action) = s.make(item);
            let kind = t.stat.file_type();
            leads(
                after,
                node_answers(t),
                at_entry(
                    s,
                    if item.insert && kind != S_IFSOCK {
                        s.inodes.with(item.stat.st_ino, item.dest)
                    } else {
                        s.inodes
                    },
                ),
                if kind == S_IFLNK {
                    seq![CopyActionView::Symlink { source: t.target, dest: item.dest }]
                } else {
                    Seq::empty()
                },
            )
        }),
{
    let (after, action) = s.make(item);
    let kind = t.stat.file_type();
    let answers = node_answers(t);
    if kind == S_IFLNK {
        let target = CopyEventView::Target(Ok(t.target));
        let made = CopyEventView::Made(Ok(()));
        leads_one(after, target);
        let middle = crate::copy::copy_step(after, target).0;
        let symlink = CopyActionView::Symlink { source: t.target, dest: item.dest };
        leads_one(middle, made);
        let last = crate::copy::copy_step(middle, made).0;
        leads_on(after, seq![target], middle, seq![symlink], seq![made], last, Seq::empty());
        assert(seq![target] + seq![made] =~= answers);
        assert(seq![symlink] + Seq::<CopyActionView>::empty() =~= seq![symlink]);
    } else if kind == S_IFIFO || kind == S_IFBLK || kind == S_IFCHR {
        leads_one(after, CopyEventView::Made(Ok(())));
    } else if kind == S_IFREG {
        leads_one(after, CopyEventView::Copied(Ok(())));
    } else {
        leads_nowhere(after);
    }
}

/// An entry that is not a directory leads to what is made for it.
pub(crate) proof fn file_leads(s: CopyView, t: Tree)
    requires
        s.waiting is Entry,
        s.frames.len() > 0,
        tree_fits(t, s.frames.last().dest, s.inodes),
        t.stat.file_type() != S_IFDIR,
    ensures
        leads(
            s,
            tree_answers(t, s.frames.last().dest, s.inodes),
            at_entry(s, tree_inodes(t, s.frames.last().dest, s.inodes)),
            tree_made(t, s.frames.last().dest, s.inodes),
        ),
{
    let dir = s.frames.last().dest;
    let dest = copy_path(t, dir);
    let none = Seq::<CopyActionView>::empty();
    let answers = node_answers(t);
    let shown: Seq<CopyEventView> = seq![
        CopyEventOf::Next(NextEntry::Entry(t.path)),
        CopyEventOf::Stat(Ok(t.stat)),
    ];
    // The entry and its status are shown.
    let e1 = CopyEventView::Next(NextEntry::Entry(t.path));
    let e2 = CopyEventView::Stat(Ok(t.stat));
    leads_one(s, e1);
    let s1 = crate::copy::copy_step(s, e1).0;
    leads_one(s1, e2);
    let (s2, a2) = crate::copy::copy_step(s1, e2);
    let made2 = if copy_laws::made_path(a2) is Some {
        seq![a2]
    } else {
        none
    };
    leads_on(s, seq![e1], s1, none, seq![e2], s2, made2);
    assert(seq![e1] + seq![e2] =~= shown);
    assert(none + made2 =~= made2);
    let item = Item { source: t.path, dest, stat: t.stat, insert: false };
    let last = at_entry(s, tree_inodes(t, dir, s.inodes));
    match link_source(t, s.inodes) {
        None => {
            let item = Item { insert: is_shared(t), ..item };
            assert(crate::copy::copy_step(s1, e2) == s1.make(item));
            making_leads_on(s1, t, item, dir);
            assert(last == at_entry(
                s1,
                if item.insert && t.stat.file_type() != S_IFSOCK {
                    s1.inodes.with(item.stat.st_ino, item.dest)
                } else {
                    s1.inodes
                },
            ));
            let rest = if t.stat.file_type() == S_IFLNK {
                seq![CopyActionView::Symlink { source: t.target, dest }]
            } else {
                none
            };
            leads_on(s, shown, s2, made2, answers, last, rest);
            assert(made2 + rest =~= tree_made(t, dir, s.inodes));
        },
        Some(old_file) => {
            let link = CopyActionView::Link { old_file, new_file: dest };
            assert(a2 == link);
            if is_linked(t, s.inodes) {
                let e3 = CopyEventView::Made(Ok(()));
                leads_one(s2, e3);
                leads_on(s, shown, s2, made2, seq![e3], last, none);
                assert(made2 + none =~= tree_made(t, dir, s.inodes));
            } else {
                let e3 = CopyEventView::Made(Err(t.refusal->0));
                leads_one(s2, e3);
                let (s3, a3) = crate::copy::copy_step(s2, e3);
                assert((s3, a3) == s2.make(item));
                let made3 = if t.stat.file_type() == S_IFLNK {
                    none
                } else {
                    node_made(t, dest)
                };
                assert(leads(s2, seq![e3], s3, made3));
                leads_on(s, shown, s2, made2, seq![e3], s3, made3);
                making_leads_on(s2, t, item, dir);
                let rest = if t.stat.file_type() == S_IFLNK {
                    seq![CopyActionView::Symlink { source: t.target, dest }]
                } else {
                    none
                };
                leads_on(s, shown + seq![e3], s3, made2 + made3, answers, last, rest);
                assert(made2 + made3 + rest =~= tree_made(t, dir, s.inodes));
            }
        },
    }
}

/// A copy that has made and opened a directory and is about to get its first entry.
pub open spec fn inside(s: CopyView, t: Tree) -> CopyView {
    let dest = copy_path(t, s.frames.last().dest);
    CopyView { frames: s.frames.push(Frame { source: t.path, dest }), ..s }
}

/// A directory leads to the directory that is made for it, which is filled next.
pub(crate) proof fn dir_leads(s: CopyView, t: Tree)
    requires
        s.waiting is Entry,
        s.frames.len() > 0,
        t.stat.file_type() == S_IFDIR,
        crate::path::file_name_spec(t.path) is Some,
    ensures
        leads(
            s,
            own_answers(t, s.inodes),
            inside(s, t),
            own_made(t, copy_path(t, s.frames.last().dest), s.inodes),
        ),
        own_inodes(t, copy_path(t, s.frames.last().dest), s.inodes) == s.inodes,
{
    let dest = copy_path(t, s.frames.last().dest);
    let none = Seq::<CopyActionView>::empty();
    let e1 = CopyEventView::Next(NextEntry::Entry(t.path));
    let e2 = CopyEventView::Stat(Ok(t.stat));
    let e3 = CopyEventView::Made(Ok(()));
    let e4 = CopyEventView::Opened(Ok(()));
    let mkdir = CopyActionView::Mkdir { path: dest, mode: t.stat.st_mode & MODE_BITS };
    leads_one(s, e1);
    let s1 = crate::copy::copy_step(s, e1).0;
    leads_one(s1, e2);
    let s2 = crate::copy::copy_step(s1, e2).0;
    leads_one(s2, e3);
    let s3 = crate::copy::copy_step(s2, e3).0;
    leads_one(s3, e4);
    let s4 = crate::copy::copy_step(s3, e4).0;
    leads_on(s, seq![e1], s1, none, seq![e2], s2, seq![mkdir]);
    leads_on(s, seq![e1] + seq![e2], s2, none + seq![mkdir], seq![e3], s3, none);
    leads_on(
        s,
        seq![e1] + seq![e2] + seq![e3],
        s3,
        none + seq![mkdir] + none,
        seq![e4],
        s4,
        none,
    );
    assert(s4 == inside(s, t));
    assert(seq![e1] + seq![e2] + seq![e3] + seq![e4] =~= own_answers(t, s.inodes));
    assert(none + seq![mkdir] + none + none =~= own_made(t, dest, s.inodes));
}

/// An entry leads to what is made for it.
pub(crate) proof fn tree_leads(s: CopyView, t: Tree)
    requires
        s.waiting is Entry,
        s.frames.len() > 0,
        tree_fits(t, s.frames.last().dest, s.inodes),
    ensures
        leads(
            s,
            tree_answers(t, s.frames.last().dest, s.inodes),
            at_entry(s, tree_inodes(t, s.frames.last().dest, s.inodes)),
            tree_made(t, s.frames.last().dest, s.inodes),
        ),
    decreases t,
{
    if t.stat.file_type() != S_IFDIR {
        file_leads(s, t);
    } else {
        let dir = s.frames.last().dest;
        let dest = copy_path(t, dir);
        let none = Seq::<CopyActionView>::empty();
        let end = CopyEventView::Next(NextEntry::End);
        let mkdir = own_made(t, dest, s.inodes);
        let opened = own_answers(t, s.inodes);
        dir_leads(s, t);
        let inner = inside(s, t);
        // It is filled.
        assert(inner.frames == s.frames.push(Frame { source: t.path, dest }));
        assert(inner.frames.last().dest == dest);
        forest_leads(inner, t.children);
        let answers = forest_answers(t.children, dest, s.inodes);
        let made = forest_made(t.children, dest, s.inodes);
        let filled = at_entry(inner, forest_inodes(t.children, dest, s.inodes));
        leads_on(s, opened, inner, mkdir, answers, filled, made);
        // The copy goes back to where it was.
        leads_one(filled, end);
        let after = crate::copy::copy_step(filled, end).0;
        assert(filled.frames.drop_last() =~= s.frames);
        leads_on(
            s,
            opened + answers,
            filled,
            mkdir + made,
            seq![end],
            after,
            none,
        );
        assert(opened + answers + seq![end] =~= tree_answers(t, dir, s.inodes));
        assert(mkdir + made + none =~= tree_made(t, dir, s.inodes));
        assert(after == at_entry(s, tree_inodes(t, dir, s.inodes)));
    }
}

/// A list of entries leads to what is made for it.
proof fn forest_leads(s: CopyView, list: Seq<Tree>)
    requires
        s.waiting is Entry,
        s.frames.len() > 0,
        forest_fits(list, s.frames.last().dest, s.inodes),
    ensures
        leads(
            s,
            forest_answers(list, s.frames.last().dest, s.inodes),
            at_entry(s, forest_inodes(list, s.frames.last().dest, s.inodes)),
            forest_made(list, s.frames.last().dest, s.inodes),
        ),
    decreases list,
{
    let dir = s.frames.last().dest;
    if list.len() == 0 {
        leads_nowhere(s);
        assert(at_entry(s, s.inodes) == s);
    } else {
        let before = list.drop_last();
        forest_leads(s, before);
        let inodes = forest_inodes(before, dir, s.inodes);
        let middle = at_entry(s, inodes);
        tree_leads(middle, list.last());
        leads_on(
            s,
            forest_answers(before, dir, s.inodes),
            middle,
            forest_made(before, dir, s.inodes),
            tree_answers(list.last(), dir, inodes),
            at_entry(s, tree_inodes(list.last(), dir, inodes)),
            tree_made(list.last(), dir, inodes),
        );
    }
}

/// How a copy between two directories treats files with several hard links.
pub open spec fn inodes_between(source: FileStat, dest: FileStat) -> CopyInodesView {
    if source.st_dev == dest.st_dev {
        CopyInodesView::SameFs
    } else {
        CopyInodesView::SeparateFs(Map::empty())
    }
}

/// What the system answers while all entries of a directory are copied into another directory.
pub open spec fn copy_answers(
    source_stat: FileStat,
    dest_stat: FileStat,
    list: Seq<Tree>,
    dest: Seq<u8>,
) -> Seq<CopyEventView> {
    seq![
        CopyEventOf::Stat(Ok(source_stat)),
        CopyEventOf::Stat(Ok(dest_stat)),
        CopyEventOf::Opened(Ok(())),
    ] + forest_answers(list, dest, inodes_between(source_stat, dest_stat))
}

/// Copying a directory makes a copy of the whole tree and ends well: each entry, at any depth, gets
/// its counterpart of the same name in the counterpart of its directory, in the order in which the
/// entries are read. A symbolic link gets one with the same target, a device file one with the same
/// mode and device, a directory or a named pipe one with the low bits of its mode, a regular file a
/// copy, a socket nothing. A file with several hard links is linked: to itself within one file
/// system, otherwise to the first copy of its inode, if there is one and if the destination does not
/// refuse the link.
pub proof fn copy_dir_copies_the_tree(
    source: Seq<u8>,
    dest: Seq<u8>,
    source_stat: FileStat,
    dest_stat: FileStat,
    list: Seq<Tree>,
)
    requires
        source_stat.file_type() == S_IFDIR,
        dest_stat.file_type() == S_IFDIR,
        forest_fits(list, dest, inodes_between(source_stat, dest_stat)),
    ensures
        ({
            let start = crate::copy::copy_start(source, dest);
            let answers = copy_answers(source_stat, dest_stat, list, dest);
            let end = CopyEventView::Next(NextEntry::End);
            &&& copy_laws::copy_accepts(start, answers.push(end))
            &&& all_made(start, answers.push(end)) == forest_made(
                list,
                dest,
                inodes_between(source_stat, dest_stat),
            )
            &&& crate::copy::copy_step(copy_laws::copy_run(start, answers), end).1
                == (CopyActionView::Finish { result: Ok(()) })
        }),
{
    let start = crate::copy::copy_start(source, dest);
    let none = Seq::<CopyActionView>::empty();
    let inodes = inodes_between(source_stat, dest_stat);
    let e1 = CopyEventView::Stat(Ok(source_stat));
    let e2 = CopyEventView::Stat(Ok(dest_stat));
    let e3 = CopyEventView::Opened(Ok(()));
    let end = CopyEventView::Next(NextEntry::End);
    leads_one(start, e1);
    let s1 = crate::copy::copy_step(start, e1).0;
    leads_one(s1, e2);
    let s2 = crate::copy::copy_step(s1, e2).0;
    leads_one(s2, e3);
    let s3 = crate::copy::copy_step(s2, e3).0;
    leads_on(start, seq![e1], s1, none, seq![e2], s2, none);
    leads_on(start, seq![e1] + seq![e2], s2, none + none, seq![e3], s3, none);
    assert(seq![e1] + seq![e2] + seq![e3] =~= seq![e1, e2, e3]);
    assert(none + none + none =~= none);
    assert(s3.frames.last().dest == dest);
    forest_leads(s3, list);
    let filled = forest_answers(list, dest, inodes);
    let made = forest_made(list, dest, inodes);
    let s4 = at_entry(s3, forest_inodes(list, dest, inodes));
    leads_on(start, seq![e1, e2, e3], s3, none, filled, s4, made);
    let answers = copy_answers(source_stat, dest_stat, list, dest);
    assert(none + made =~= made);
    leads_one(s4, end);
    let s5 = crate::copy::copy_step(s4, end).0;
    leads_on(start, answers, s4, made, seq![end], s5, none);
    assert(answers + seq![end] =~= answers.push(end));
    assert(made + none =~= made);
}

} // verus!
