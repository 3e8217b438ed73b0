//! What a copy that has ended has copied, whether it ended well or with an error.

use vstd::prelude::*;

use crate::copy::{CopyActionView, CopyEventOf, CopyEventView, CopyView, CopyWait, Frame, Item};
use crate::copy_laws;
use crate::copy_tree;
use crate::copy_tree::Tree;
use crate::error::ErrorView;
use crate::inodes::CopyInodesView;
use crate::listing::NextEntry;
use crate::stat::{FileStat, S_IFDIR, S_IFLNK, S_IFSOCK};

verus! {

/// Tells whether a number of events take a copy to its end, with a result.
pub open spec fn ends(
    s: CopyView,
    events: Seq<CopyEventView>,
    result: Result<(), ErrorView>,
) -> bool {
    &&& events.len() > 0
    &&& copy_laws::copy_accepts(s, events)
    &&& crate::copy::copy_step(copy_laws::copy_run(s, events.drop_last()), events.last()).1 == (
    CopyActionView::Finish { result })
}

/// Tells whether a number of events take a copy to its end, without an error.
pub open spec fn ends_well(s: CopyView, events: Seq<CopyEventView>) -> bool {
    ends(s, events, Ok(()))
}

/// Tells whether a number of events are what the system answers while a list of entries is copied into
/// a directory.
pub open spec fn shows_tree(
    events: Seq<CopyEventView>,
    dest: Seq<u8>,
    source_stat: FileStat,
    dest_stat: FileStat,
    list: Seq<Tree>,
) -> bool {
    &&& source_stat.file_type() == S_IFDIR
    &&& dest_stat.file_type() == S_IFDIR
    &&& copy_tree::forest_fits(
        list,
        dest,
        copy_tree::inodes_between(source_stat, dest_stat),
    )
    &&& events == copy_tree::copy_answers(source_stat, dest_stat, list, dest).push(
        CopyEventOf::Next(NextEntry::End),
    )
}

/// Tells whether a list of entries can be a part of a tree, with a number of directories that are still
/// open: the last entry, the last entry of that, and so on.
pub open spec fn is_part(list: Seq<Tree>, open: nat) -> bool
    decreases open,
{
    open == 0 || {
        &&& list.len() > 0
        &&& list.last().stat.file_type() == S_IFDIR
        &&& is_part(list.last().children, (open - 1) as nat)
    }
}

/// The directory that the innermost open directory of a part of a tree is copied to.
pub open spec fn part_dir(list: Seq<Tree>, open: nat, dir: Seq<u8>) -> Seq<u8>
    decreases open,
{
    if open == 0 {
        dir
    } else {
        part_dir(
            list.last().children,
            (open - 1) as nat,
            copy_tree::copy_path(list.last(), dir),
        )
    }
}

/// What the system answers while a part of a tree is copied: nothing has been said yet of the end of
/// the directories that are open.
pub open spec fn part_answers(
    list: Seq<Tree>,
    open: nat,
    dir: Seq<u8>,
    inodes: CopyInodesView,
) -> Seq<CopyEventView>
    decreases open,
{
    if open == 0 {
        copy_tree::forest_answers(list, dir, inodes)
    } else {
        let before = list.drop_last();
        let last = list.last();
        let known = copy_tree::forest_inodes(before, dir, inodes);
        let path = copy_tree::copy_path(last, dir);
        copy_tree::forest_answers(before, dir, inodes) + copy_tree::own_answers(last, known)
            + part_answers(
            last.children,
            (open - 1) as nat,
            path,
            copy_tree::own_inodes(last, path, known),
        )
    }
}

/// Tells whether `tried` is what a copy has asked for at the point at which it failed: nothing if an
/// entry could not be read, and otherwise the first of what is made for the entry. `rest` is what the
/// system answered there, `dir` the directory that is filled, `t` the entry.
pub open spec fn fails_at(
    rest: Seq<CopyEventView>,
    dir: Seq<u8>,
    inodes: CopyInodesView,
    t: Tree,
    tried: Seq<CopyActionView>,
) -> bool {
    &&& rest.len() > 0
    &&& match rest[0] {
        CopyEventOf::Next(NextEntry::Failed(_)) => rest.len() == 1 && tried.len() == 0,
        CopyEventOf::Next(NextEntry::Entry(path)) => {
            &&& path == t.path
            &&& rest.len() > 1
            &&& rest[1] matches CopyEventOf::Stat(result) && match result {
                Ok(stat) => stat == t.stat,
                Err(_) => tried.len() == 0,
            }
            &&& tried.is_prefix_of(
                copy_tree::own_made(t, copy_tree::copy_path(t, dir), inodes),
            )
        },
        _ => false,
    }
}

/// Tells whether a number of events are what the system answers while a part of a tree is copied into
/// a directory, and what it answers after that is where the copy fails.
pub open spec fn shows_part(
    events: Seq<CopyEventView>,
    dest: Seq<u8>,
    source_stat: FileStat,
    dest_stat: FileStat,
    part: Part,
) -> bool {
    let inodes = copy_tree::inodes_between(source_stat, dest_stat);
    &&& source_stat.file_type() == S_IFDIR
    &&& dest_stat.file_type() == S_IFDIR
    &&& is_part(part.list, part.open)
    &&& copy_tree::forest_fits(part.list, dest, inodes)
    &&& events == seq![
        CopyEventView::Stat(Ok(source_stat)),
        CopyEventView::Stat(Ok(dest_stat)),
        CopyEventView::Opened(Ok(())),
    ] + part_answers(part.list, part.open, dest, inodes) + part.rest
    &&& fails_at(
        part.rest,
        part_dir(part.list, part.open, dest),
        copy_tree::forest_inodes(part.list, dest, inodes),
        part.failed,
        part.tried,
    )
}

/// The part of a tree that a copy has got to before it failed.
pub struct Part {
    /// The entries that have been copied, with those below them.
    pub list: Seq<Tree>,
    /// How many directories are still open.
    pub open: nat,
    /// What the system answered after that.
    pub rest: Seq<CopyEventView>,
    /// The entry at which the copy failed, if there is one.
    pub failed: Tree,
    /// What was asked for there.
    pub tried: Seq<CopyActionView>,
}

/// The action, if it makes something.
spec fn action_made(action: CopyActionView) -> Seq<CopyActionView> {
    if copy_laws::made_path(action) is Some {
        seq![action]
    } else {
        Seq::empty()
    }
}

proof fn run_from_second(s: CopyView, events: Seq<CopyEventView>)
    requires
        events.len() > 0,
        copy_laws::copy_accepts(s, events),
    ensures
        ({
            let (after, action) = crate::copy::copy_step(s, events[0]);
            let rest = events.drop_first();
            &&& s.accepts(events[0])
            &&& copy_laws::copy_accepts(after, rest)
            &&& copy_laws::copy_run(s, events) == copy_laws::copy_run(after, rest)
            &&& copy_tree::all_made(s, events) == action_made(action) + copy_tree::all_made(
                after,
                rest,
            )
        }),
    decreases events.len(),
{
    let (after, action) = crate::copy::copy_step(s, events[0]);
    let before = events.drop_last();
    let rest = events.drop_first();
    let none = Seq::<CopyEventView>::empty();
    if before.len() == 0 {
        assert(before =~= none);
        assert(rest =~= none);
        assert(copy_laws::copy_run(s, none) == s);
        assert(copy_tree::all_made(s, none) == Seq::<CopyActionView>::empty());
        assert(copy_tree::all_made(after, none) == Seq::<CopyActionView>::empty());
        assert(copy_tree::all_made(s, events) =~= action_made(action) + copy_tree::all_made(
            after,
            rest,
        ));
    } else {
        run_from_second(s, before);
        assert(rest.drop_last() =~= before.drop_first());
        assert(rest.last() == events.last());
        assert(copy_tree::all_made(s, events) =~= action_made(action) + copy_tree::all_made(
            after,
            rest,
        ));
    }
}

/// A copy that ends either ends with its next step or goes on and ends later.
proof fn next_step(s: CopyView, events: Seq<CopyEventView>, result: Result<(), ErrorView>)
    requires
        s.wf(),
        ends(s, events, result),
    ensures
        ({
            let (after, action) = crate::copy::copy_step(s, events[0]);
            &&& s.accepts(events[0])
            &&& after.wf()
            &&& copy_tree::all_made(s, events) == action_made(action) + copy_tree::all_made(
                after,
                events.drop_first(),
            )
            &&& if after.waiting is Finished {
                &&& events.len() == 1
                &&& action == (CopyActionView::Finish { result })
                &&& copy_tree::all_made(s, events) == Seq::<CopyActionView>::empty()
            } else {
                ends(after, events.drop_first(), result)
            }
        }),
{
    let (after, action) = crate::copy::copy_step(s, events[0]);
    let before = events.drop_last();
    let rest = events.drop_first();
    run_from_second(s, events);
    copy_laws::copy_ends_with_finish(s, events[0]);
    if before.len() == 0 {
        assert(before =~= Seq::empty());
        assert(rest =~= Seq::empty());
        assert(copy_laws::copy_run(s, before) == s);
        assert(copy_tree::all_made(after, rest) == Seq::<CopyActionView>::empty());
        assert(copy_tree::all_made(s, events) =~= Seq::<CopyActionView>::empty());
    } else {
        run_from_second(s, before);
        assert(rest.drop_last() =~= before.drop_first());
        assert(rest.last() == events.last());
        run_from_second(after, rest);
    }
}

/// An entry on its own, without what lies below it.
spec fn bare(path: Seq<u8>, stat: FileStat, target: Seq<u8>) -> Tree {
    Tree { path, stat, target, refusal: None, children: Seq::empty() }
}

/// There is only one way to succeed.
proof fn success_is_one(event: CopyEventView)
    ensures
        event matches CopyEventOf::Made(Ok(_)) ==> event == CopyEventView::Made(Ok(())),
        event matches CopyEventOf::Copied(Ok(_)) ==> event == CopyEventView::Copied(Ok(())),
        event matches CopyEventOf::Opened(Ok(_)) ==> event == CopyEventView::Opened(Ok(())),
{
    match event {
        CopyEventOf::Made(Ok(u)) => {
            assert(u == ());
        },
        CopyEventOf::Copied(Ok(u)) => {
            assert(u == ());
        },
        CopyEventOf::Opened(Ok(u)) => {
            assert(u == ());
        },
        _ => {},
    }
}

proof fn split_first(events: Seq<CopyEventView>)
    requires
        events.len() > 0,
    ensures
        events == seq![events[0]] + events.drop_first(),
{
    assert(events =~= seq![events[0]] + events.drop_first());
}

proof fn glue(a: Seq<CopyEventView>, b: Seq<CopyEventView>, c: Seq<CopyEventView>)
    ensures
        a + (b + c) == a + b + c,
{
    assert(a + (b + c) =~= a + b + c);
}

proof fn glue_end(
    opening: Seq<CopyEventView>,
    filled: Seq<CopyEventView>,
    end: CopyEventView,
    rest: Seq<CopyEventView>,
)
    requires
        rest.len() == 0,
    ensures
        opening + (filled + seq![end] + rest) == (opening + filled).push(end),
{
    assert(opening + (filled + seq![end] + rest) =~= (opening + filled).push(end));
}

proof fn glue_made(a: Seq<CopyActionView>, b: Seq<CopyActionView>, c: Seq<CopyActionView>)
    ensures
        a + (b + c) == a + b + c,
{
    assert(a + (b + c) =~= a + b + c);
}

/// How an entry that is not a directory and is being made comes out.
struct NodeOutcome {
    /// Whether it was made.
    made: bool,
    /// What it points to, if it is a symbolic link.
    target: Seq<u8>,
    /// What the system answers after that.
    rest: Seq<CopyEventView>,
}

/// The state of a copy once an entry has been made.
spec fn after_node(s: CopyView, item: Item<Seq<u8>>) -> CopyView {
    copy_tree::at_entry(
        s,
        if item.insert && item.stat.file_type() != S_IFSOCK {
            s.inodes.with(item.stat.st_ino, item.dest)
        } else {
            s.inodes
        },
    )
}

/// An entry that is not a directory and is being made: what the system answers, up to the next entry or
/// to the end of the copy.
proof fn node_is_made(
    s: CopyView,
    item: Item<Seq<u8>>,
    events: Seq<CopyEventView>,
    result: Result<(), ErrorView>,
) -> (r: NodeOutcome)
    requires
        s.frames.len() > 0,
        item.stat.file_type() != S_IFDIR,
        item.insert ==> s.inodes is SeparateFs,
        !(s.make(item).0.waiting is Finished),
        ends(s.make(item).0, events, result),
    ensures
        ({
            let t = bare(item.source, item.stat, r.target);
            &&& copy_tree::is_known_type(item.stat.file_type())
            &&& if r.made {
                &&& events == copy_tree::node_answers(t) + r.rest
                &&& r.rest.len() <= events.len()
                &&& ends(after_node(s, item), r.rest, result)
            } else {
                &&& result is Err
                &&& (action_made(s.make(item).1) + copy_tree::all_made(
                    s.make(item).0,
                    events,
                )).is_prefix_of(copy_tree::node_made(t, item.dest))
            }
        }),
{
    let kind = item.stat.file_type();
    let (after, action) = s.make(item);
    let none = Seq::<u8>::empty();
    if kind == S_IFSOCK {
        assert(events =~= Seq::<CopyEventView>::empty() + events);
        NodeOutcome { made: true, target: none, rest: events }
    } else if kind == S_IFLNK {
        link_is_made(s, item, events, result)
    } else {
        next_step(after, events, result);
        success_is_one(events[0]);
        split_first(events);
        let rest = events.drop_first();
        let made = events[0] == CopyEventView::Made(Ok(())) || events[0] == CopyEventView::Copied(
            Ok(()),
        );
        if !made {
            assert(action_made(action) + Seq::<CopyActionView>::empty() =~= copy_tree::node_made(
                bare(item.source, item.stat, none),
                item.dest,
            ));
        }
        NodeOutcome { made, target: none, rest }
    }
}

/// A symbolic link that is being made.
proof fn link_is_made(
    s: CopyView,
    item: Item<Seq<u8>>,
    events: Seq<CopyEventView>,
    result: Result<(), ErrorView>,
) -> (r: NodeOutcome)
    requires
        s.frames.len() > 0,
        item.stat.file_type() == S_IFLNK,
        item.insert ==> s.inodes is SeparateFs,
        ends(s.make(item).0, events, result),
    ensures
        ({
            let t = bare(item.source, item.stat, r.target);
            if r.made {
                &&& events == copy_tree::node_answers(t) + r.rest
                &&& r.rest.len() <= events.len()
                &&& ends(after_node(s, item), r.rest, result)
            } else {
                &&& result is Err
                &&& (action_made(s.make(item).1) + copy_tree::all_made(
                    s.make(item).0,
                    events,
                )).is_prefix_of(copy_tree::node_made(t, item.dest))
            }
        }),
{
    let nothing = Seq::<CopyActionView>::empty();
    let reading = s.make(item).0;
    next_step(reading, events, result);
    let rest = events.drop_first();
    if crate::copy::copy_step(reading, events[0]).0.waiting is Finished {
        assert(nothing + nothing =~= nothing);
        NodeOutcome { made: false, target: Seq::empty(), rest }
    } else {
        let target = events[0]->Target_0->Ok_0;
        let t = bare(item.source, item.stat, target);
        assert(events[0] == CopyEventView::Target(Ok(target)));
        let (making, symlink) = crate::copy::copy_step(reading, events[0]);
        next_step(making, rest, result);
        success_is_one(rest[0]);
        let last = rest.drop_first();
        split_first(events);
        split_first(rest);
        if rest[0] == CopyEventView::Made(Ok(())) {
            glue(seq![events[0]], seq![rest[0]], last);
            assert(seq![events[0]] + seq![rest[0]] =~= copy_tree::node_answers(t));
            NodeOutcome { made: true, target, rest: last }
        } else {
            assert(nothing + (seq![symlink] + nothing) =~= copy_tree::node_made(t, item.dest));
            NodeOutcome { made: false, target, rest: last }
        }
    }
}

/// How an entry comes out.
enum EntryOutcome {
    /// The copy fails there.
    Failed { t: Tree },
    /// It is not a directory and has been copied. `rest` is what the system answers after that.
    File { t: Tree, rest: Seq<CopyEventView> },
    /// It is a directory, and the copy goes on with its entries.
    Dir { t: Tree, rest: Seq<CopyEventView> },
}

/// What is said of how an entry comes out.
spec fn comes_out(
    s: CopyView,
    events: Seq<CopyEventView>,
    result: Result<(), ErrorView>,
    r: EntryOutcome,
) -> bool {
    let dir = s.frames.last().dest;
    match r {
        EntryOutcome::Failed { t } => {
            &&& result is Err
            &&& fails_at(events, dir, s.inodes, t, copy_tree::all_made(s, events))
        },
        EntryOutcome::File { t, rest } => {
            &&& t.stat.file_type() != S_IFDIR
            &&& copy_tree::tree_fits(t, dir, s.inodes)
            &&& events == copy_tree::tree_answers(t, dir, s.inodes) + rest
            &&& rest.len() < events.len()
            &&& ends(
                copy_tree::at_entry(s, copy_tree::tree_inodes(t, dir, s.inodes)),
                rest,
                result,
            )
        },
        EntryOutcome::Dir { t, rest } => {
            &&& t.stat.file_type() == S_IFDIR
            &&& t.refusal is None
            &&& crate::path::file_name_spec(t.path) is Some
            &&& events == copy_tree::own_answers(t, s.inodes) + rest
            &&& rest.len() < events.len()
            &&& ends(copy_tree::inside(s, t), rest, result)
        },
    }
}

/// What a copy is shown first of an entry.
spec fn first_shown(path: Seq<u8>, stat: FileStat) -> Seq<CopyEventView> {
    seq![CopyEventView::Next(NextEntry::Entry(path)), CopyEventView::Stat(Ok(stat))]
}

/// An entry that is not a directory and is not linked.
proof fn unlinked_comes_out(
    s: CopyView,
    path: Seq<u8>,
    stat: FileStat,
    events: Seq<CopyEventView>,
    result: Result<(), ErrorView>,
) -> (r: EntryOutcome)
    requires
        s.waiting is Entry,
        s.frames.len() > 0,
        stat.file_type() != S_IFDIR,
        crate::path::file_name_spec(path) is Some,
        copy_tree::link_source(bare(path, stat, Seq::empty()), s.inodes) is None,
        ({
            let shown = s.wait(CopyWait::EntryStat { path });
            let (after, action) = crate::copy::copy_step(shown, CopyEventOf::Stat(Ok(stat)));
            &&& !(after.waiting is Finished)
            &&& ends(after, events, result)
            &&& copy_tree::all_made(s, first_shown(path, stat) + events) == action_made(action)
                + copy_tree::all_made(after, events)
        }),
    ensures
        comes_out(s, first_shown(path, stat) + events, result, r),
{
    let dir = s.frames.last().dest;
    let shown = s.wait(CopyWait::EntryStat { path });
    let answered = first_shown(path, stat);
    let some = bare(path, stat, Seq::empty());
    let dest = copy_tree::copy_path(some, dir);
    let item = Item { source: path, dest, stat, insert: copy_tree::is_shared(some) };
    assert(crate::copy::copy_step(shown, CopyEventOf::Stat(Ok(stat))) == shown.make(item));
    let node = node_is_made(shown, item, events, result);
    let t = bare(path, stat, node.target);
    if node.made {
        assert(after_node(shown, item) == copy_tree::at_entry(
            s,
            copy_tree::tree_inodes(t, dir, s.inodes),
        ));
        glue(answered, copy_tree::node_answers(t), node.rest);
        EntryOutcome::File { t, rest: node.rest }
    } else {
        EntryOutcome::Failed { t }
    }
}

/// An entry that is linked, or would be if the destination did not refuse it.
proof fn linked_comes_out(
    s: CopyView,
    path: Seq<u8>,
    stat: FileStat,
    events: Seq<CopyEventView>,
    result: Result<(), ErrorView>,
) -> (r: EntryOutcome)
    requires
        s.waiting is Entry,
        s.frames.len() > 0,
        stat.file_type() != S_IFDIR,
        crate::path::file_name_spec(path) is Some,
        copy_tree::link_source(bare(path, stat, Seq::empty()), s.inodes) is Some,
        ({
            let shown = s.wait(CopyWait::EntryStat { path });
            let (after, action) = crate::copy::copy_step(shown, CopyEventOf::Stat(Ok(stat)));
            &&& ends(after, events, result)
            &&& copy_tree::all_made(s, first_shown(path, stat) + events) == action_made(action)
                + copy_tree::all_made(after, events)
        }),
    ensures
        comes_out(s, first_shown(path, stat) + events, result, r),
{
    let dir = s.frames.last().dest;
    let shown = s.wait(CopyWait::EntryStat { path });
    let answered = first_shown(path, stat);
    let nothing = Seq::<CopyActionView>::empty();
    let some = bare(path, stat, Seq::empty());
    let dest = copy_tree::copy_path(some, dir);
    let item = Item { source: path, dest, stat, insert: false };
    let (linking, link) = crate::copy::copy_step(shown, CopyEventOf::Stat(Ok(stat)));
    assert(action_made(link) =~= copy_tree::own_made(some, dest, s.inodes));
    next_step(linking, events, result);
    success_is_one(events[0]);
    split_first(events);
    let rest = events.drop_first();
    let (after, action) = crate::copy::copy_step(linking, events[0]);
    if events[0] == CopyEventView::Made(Ok(())) {
        assert(after == copy_tree::at_entry(s, s.inodes));
        glue(answered, seq![events[0]], rest);
        EntryOutcome::File { t: some, rest }
    } else {
        let e = events[0]->Made_0->Err_0;
        assert(events[0] == CopyEventView::Made(Err(e)));
        let refused = Tree { refusal: Some(e), ..some };
        if after.waiting is Finished {
            assert(action_made(link) + nothing =~= action_made(link));
            EntryOutcome::Failed { t: some }
        } else {
            assert((after, action) == linking.make(item));
            let node = node_is_made(linking, item, rest, result);
            let t = Tree { target: node.target, ..refused };
            assert(copy_tree::node_answers(t) == copy_tree::node_answers(
                bare(path, stat, node.target),
            ));
            assert(copy_tree::node_made(t, dest) == copy_tree::node_made(
                bare(path, stat, node.target),
                dest,
            ));
            if node.made {
                assert(after_node(linking, item) == copy_tree::at_entry(s, s.inodes));
                glue(seq![events[0]], copy_tree::node_answers(t), node.rest);
                glue(answered, seq![events[0]] + copy_tree::node_answers(t), node.rest);
                glue(answered, seq![events[0]], copy_tree::node_answers(t));
                EntryOutcome::File { t, rest: node.rest }
            } else {
                let tried = action_made(action) + copy_tree::all_made(after, rest);
                let node_made = copy_tree::node_made(t, dest);
                assert(copy_tree::own_made(t, dest, s.inodes) == action_made(link) + node_made);
                assert((action_made(link) + node_made).subrange(
                    0,
                    (action_made(link) + tried).len() as int,
                ) =~= action_made(link) + node_made.subrange(0, tried.len() as int));
                EntryOutcome::Failed { t }
            }
        }
    }
}

/// A directory that is being made and opened: gives what the system answers after that, unless the copy
/// fails.
proof fn dir_is_opened(
    s: CopyView,
    item: Item<Seq<u8>>,
    events: Seq<CopyEventView>,
    result: Result<(), ErrorView>,
) -> (r: Option<Seq<CopyEventView>>)
    requires
        s.frames.len() > 0,
        s.waiting == (CopyWait::Dir { item }),
        ends(s, events, result),
    ensures
        match r {
            None => {
                &&& result is Err
                &&& copy_tree::all_made(s, events) == Seq::<CopyActionView>::empty()
            },
            Some(rest) => {
                let frame = Frame { source: item.source, dest: item.dest };
                &&& events == seq![CopyEventView::Made(Ok(())), CopyEventView::Opened(Ok(()))]
                    + rest
                &&& ends(
                    CopyView { frames: s.frames.push(frame), waiting: CopyWait::Entry, ..s },
                    rest,
                    result,
                )
            },
        },
{
    let nothing = Seq::<CopyActionView>::empty();
    next_step(s, events, result);
    success_is_one(events[0]);
    let rest = events.drop_first();
    if events[0] != CopyEventView::Made(Ok(())) {
        None
    } else {
        let opening = crate::copy::copy_step(s, events[0]).0;
        next_step(opening, rest, result);
        success_is_one(rest[0]);
        if rest[0] != CopyEventView::Opened(Ok(())) {
            assert(nothing + nothing =~= nothing);
            None
        } else {
            assert(events =~= seq![events[0], rest[0]] + rest.drop_first());
            Some(rest.drop_first())
        }
    }
}

/// A directory.
proof fn dir_comes_out(
    s: CopyView,
    path: Seq<u8>,
    stat: FileStat,
    events: Seq<CopyEventView>,
    result: Result<(), ErrorView>,
) -> (r: EntryOutcome)
    requires
        s.waiting is Entry,
        s.frames.len() > 0,
        stat.file_type() == S_IFDIR,
        crate::path::file_name_spec(path) is Some,
        ({
            let shown = s.wait(CopyWait::EntryStat { path });
            let (after, action) = crate::copy::copy_step(shown, CopyEventOf::Stat(Ok(stat)));
            &&& ends(after, events, result)
            &&& copy_tree::all_made(s, first_shown(path, stat) + events) == action_made(action)
                + copy_tree::all_made(after, events)
        }),
    ensures
        comes_out(s, first_shown(path, stat) + events, result, r),
{
    let t = bare(path, stat, Seq::empty());
    let dest = copy_tree::copy_path(t, s.frames.last().dest);
    let shown = s.wait(CopyWait::EntryStat { path });
    let item = Item { source: path, dest, stat, insert: false };
    let (making, mkdir) = crate::copy::copy_step(shown, CopyEventOf::Stat(Ok(stat)));
    assert(making == s.wait(CopyWait::Dir { item }));
    match dir_is_opened(making, item, events, result) {
        None => {
            let made = copy_tree::own_made(t, dest, s.inodes);
            assert(action_made(mkdir) + Seq::<CopyActionView>::empty() =~= made);
            assert(made.subrange(0, made.len() as int) =~= made);
            EntryOutcome::Failed { t }
        },
        Some(rest) => {
            glue(first_shown(path, stat), copy_tree::node_answers(t), rest);
            EntryOutcome::Dir { t, rest }
        },
    }
}

/// An entry: what the system answers, up to the next entry or to the end of the copy.
proof fn entry_comes_out(
    s: CopyView,
    events: Seq<CopyEventView>,
    result: Result<(), ErrorView>,
) -> (r: EntryOutcome)
    requires
        s.waiting is Entry,
        s.frames.len() > 0,
        ends(s, events, result),
        events[0] is Next,
        events[0]->Next_0 is Entry,
    ensures
        comes_out(s, events, result, r),
{
    let path = events[0]->Next_0->Entry_0;
    let nothing = Seq::<CopyActionView>::empty();
    let shown = s.wait(CopyWait::EntryStat { path });
    let rest = events.drop_first();
    next_step(s, events, result);
    assert(crate::copy::copy_step(s, events[0]).0 == shown);
    next_step(shown, rest, result);
    let (after, action) = crate::copy::copy_step(shown, rest[0]);
    assert(nothing + copy_tree::all_made(shown, rest) =~= copy_tree::all_made(shown, rest));
    match rest[0] {
        CopyEventOf::Stat(Ok(stat)) => {
            let t = bare(path, stat, Seq::empty());
            let answers = rest.drop_first();
            assert(events =~= first_shown(path, stat) + answers);
            if after.waiting is Finished {
                EntryOutcome::Failed { t }
            } else if stat.file_type() == S_IFDIR {
                dir_comes_out(s, path, stat, answers, result)
            } else if copy_tree::link_source(t, s.inodes) is None {
                unlinked_comes_out(s, path, stat, answers, result)
            } else {
                linked_comes_out(s, path, stat, answers, result)
            }
        },
        _ => EntryOutcome::Failed { t: bare(path, arbitrary(), Seq::empty()) },
    }
}

/// A list of entries is copied entry by entry.
proof fn forest_in_parts(t: Tree, list: Seq<Tree>, dir: Seq<u8>, inodes: CopyInodesView)
    ensures
        ({
            let all = seq![t] + list;
            let after = copy_tree::tree_inodes(t, dir, inodes);
            &&& copy_tree::forest_inodes(all, dir, inodes) == copy_tree::forest_inodes(
                list,
                dir,
                after,
            )
            &&& copy_tree::forest_answers(all, dir, inodes) == copy_tree::tree_answers(
                t,
                dir,
                inodes,
            ) + copy_tree::forest_answers(list, dir, after)
            &&& copy_tree::forest_made(all, dir, inodes) == copy_tree::tree_made(t, dir, inodes)
                + copy_tree::forest_made(list, dir, after)
            &&& copy_tree::forest_fits(all, dir, inodes) == (copy_tree::tree_fits(t, dir, inodes)
                && copy_tree::forest_fits(list, dir, after))
        }),
    decreases list.len(),
{
    let all = seq![t] + list;
    let after = copy_tree::tree_inodes(t, dir, inodes);
    let none = Seq::<Tree>::empty();
    assert(copy_tree::forest_inodes(none, dir, inodes) == inodes);
    assert(copy_tree::forest_answers(none, dir, inodes) == Seq::<CopyEventView>::empty());
    assert(copy_tree::forest_made(none, dir, inodes) == Seq::<CopyActionView>::empty());
    assert(copy_tree::forest_fits(none, dir, inodes));
    assert(copy_tree::forest_fits(none, dir, after));
    if list.len() == 0 {
        assert(all.drop_last() =~= none);
        assert(list =~= none);
        assert(copy_tree::forest_inodes(none, dir, after) == after);
        assert(copy_tree::forest_answers(none, dir, after) == Seq::<CopyEventView>::empty());
        assert(copy_tree::forest_made(none, dir, after) == Seq::<CopyActionView>::empty());
    } else {
        forest_in_parts(t, list.drop_last(), dir, inodes);
        assert(all.drop_last() =~= seq![t] + list.drop_last());
        assert(all.last() == list.last());
    }
    assert(copy_tree::forest_answers(all, dir, inodes) =~= copy_tree::tree_answers(
        t,
        dir,
        inodes,
    ) + copy_tree::forest_answers(list, dir, after));
    assert(copy_tree::forest_made(all, dir, inodes) =~= copy_tree::tree_made(t, dir, inodes)
        + copy_tree::forest_made(list, dir, after));
}

/// A part of a tree is copied entry by entry.
proof fn part_in_parts(
    t: Tree,
    list: Seq<Tree>,
    open: nat,
    dir: Seq<u8>,
    inodes: CopyInodesView,
)
    requires
        is_part(list, open),
    ensures
        ({
            let all = seq![t] + list;
            let after = copy_tree::tree_inodes(t, dir, inodes);
            &&& is_part(all, open)
            &&& part_dir(all, open, dir) == part_dir(list, open, dir)
            &&& part_answers(all, open, dir, inodes) == copy_tree::tree_answers(t, dir, inodes)
                + part_answers(list, open, dir, after)
        }),
{
    let all = seq![t] + list;
    let after = copy_tree::tree_inodes(t, dir, inodes);
    if open == 0 {
        forest_in_parts(t, list, dir, inodes);
    } else {
        let before = list.drop_last();
        let last = list.last();
        forest_in_parts(t, before, dir, inodes);
        assert(all.drop_last() =~= seq![t] + before);
        assert(all.last() == last);
        let known = copy_tree::forest_inodes(before, dir, after);
        let path = copy_tree::copy_path(last, dir);
        let first = copy_tree::tree_answers(t, dir, inodes);
        let others = copy_tree::forest_answers(before, dir, after);
        let own = copy_tree::own_answers(last, known);
        let below = part_answers(
            last.children,
            (open - 1) as nat,
            path,
            copy_tree::own_inodes(last, path, known),
        );
        glue(first, others, own);
        glue(first, others + own, below);
    }
}

/// A directory is copied by making it and then copying its entries.
proof fn dir_in_parts(t: Tree, dir: Seq<u8>, inodes: CopyInodesView)
    requires
        t.stat.file_type() == S_IFDIR,
        t.refusal is None,
        crate::path::file_name_spec(t.path) is Some,
    ensures
        ({
            let dest = copy_tree::copy_path(t, dir);
            &&& copy_tree::own_inodes(t, dest, inodes) == inodes
            &&& copy_tree::tree_inodes(t, dir, inodes) == copy_tree::forest_inodes(
                t.children,
                dest,
                inodes,
            )
            &&& copy_tree::tree_answers(t, dir, inodes) == copy_tree::own_answers(t, inodes)
                + copy_tree::forest_answers(t.children, dest, inodes) + seq![
                CopyEventView::Next(NextEntry::End),
            ]
            &&& copy_tree::tree_made(t, dir, inodes) == copy_tree::own_made(t, dest, inodes)
                + copy_tree::forest_made(t.children, dest, inodes)
            &&& copy_tree::tree_fits(t, dir, inodes) == copy_tree::forest_fits(
                t.children,
                dest,
                inodes,
            )
        }),
{
    let dest = copy_tree::copy_path(t, dir);
    assert(copy_tree::own_inodes(t, dest, inodes) == inodes);
}

/// A directory that is still open is the last of a part of a tree.
proof fn open_dir_in_parts(t: Tree, open: nat, dir: Seq<u8>, inodes: CopyInodesView)
    requires
        t.stat.file_type() == S_IFDIR,
        t.refusal is None,
        crate::path::file_name_spec(t.path) is Some,
        is_part(t.children, open),
        copy_tree::forest_fits(t.children, copy_tree::copy_path(t, dir), inodes),
    ensures
        ({
            let list = seq![t];
            let dest = copy_tree::copy_path(t, dir);
            &&& is_part(list, open + 1)
            &&& copy_tree::forest_fits(list, dir, inodes)
            &&& part_dir(list, open + 1, dir) == part_dir(t.children, open, dest)
            &&& part_answers(list, open + 1, dir, inodes) == copy_tree::own_answers(t, inodes)
                + part_answers(t.children, open, dest, inodes)
            &&& copy_tree::forest_inodes(list, dir, inodes) == copy_tree::forest_inodes(
                t.children,
                dest,
                inodes,
            )
            &&& copy_tree::forest_made(list, dir, inodes) == copy_tree::own_made(t, dest, inodes)
                + copy_tree::forest_made(t.children, dest, inodes)
        }),
{
    let list = seq![t];
    let none = Seq::<Tree>::empty();
    let dest = copy_tree::copy_path(t, dir);
    dir_in_parts(t, dir, inodes);
    assert(list.drop_last() =~= none);
    assert(copy_tree::forest_inodes(none, dir, inodes) == inodes);
    assert(copy_tree::forest_answers(none, dir, inodes) == Seq::<CopyEventView>::empty());
    assert(copy_tree::forest_made(none, dir, inodes) == Seq::<CopyActionView>::empty());
    assert(copy_tree::forest_fits(none, dir, inodes));
    let own = copy_tree::own_answers(t, inodes);
    assert(Seq::<CopyEventView>::empty() + own =~= own);
    let made = copy_tree::tree_made(t, dir, inodes);
    assert(Seq::<CopyActionView>::empty() + made =~= made);
}

/// How the rest of a directory comes out.
enum DirOutcome {
    /// All of it has been copied. `rest` is what the system answers after that.
    Done { list: Seq<Tree>, rest: Seq<CopyEventView> },
    /// The copy fails before that.
    Failed { part: Part },
}

/// What is said of how the rest of a directory comes out.
spec fn dir_comes_to(
    s: CopyView,
    events: Seq<CopyEventView>,
    result: Result<(), ErrorView>,
    r: DirOutcome,
) -> bool {
    let dir = s.frames.last().dest;
    match r {
        DirOutcome::Done { list, rest } => {
            let outer = CopyView { frames: s.frames.drop_last(), ..s };
            let end = CopyEventView::Next(NextEntry::End);
            &&& copy_tree::forest_fits(list, dir, s.inodes)
            &&& events == copy_tree::forest_answers(list, dir, s.inodes) + seq![end] + rest
            &&& if s.frames.len() == 1 {
                result is Ok && rest.len() == 0
            } else {
                ends(
                    copy_tree::at_entry(outer, copy_tree::forest_inodes(list, dir, s.inodes)),
                    rest,
                    result,
                )
            }
        },
        DirOutcome::Failed { part } => {
            &&& result is Err
            &&& is_part(part.list, part.open)
            &&& copy_tree::forest_fits(part.list, dir, s.inodes)
            &&& events == part_answers(part.list, part.open, dir, s.inodes) + part.rest
            &&& copy_tree::all_made(s, events) == copy_tree::forest_made(part.list, dir, s.inodes)
                + part.tried
            &&& fails_at(
                part.rest,
                part_dir(part.list, part.open, dir),
                copy_tree::forest_inodes(part.list, dir, s.inodes),
                part.failed,
                part.tried,
            )
        },
    }
}

/// A directory whose entries are all copied, or at one of whose entries the copy fails at once.
proof fn dir_stops(s: CopyView, events: Seq<CopyEventView>, result: Result<(), ErrorView>, t: Tree) -> (r:
    DirOutcome)
    requires
        s.waiting is Entry,
        s.frames.len() > 0,
        ends(s, events, result),
        events[0] is Next,
        events[0]->Next_0 is Entry ==> comes_out(s, events, result, EntryOutcome::Failed { t }),
    ensures
        dir_comes_to(s, events, result, r),
{
    let dir = s.frames.last().dest;
    let none = Seq::<Tree>::empty();
    let made = copy_tree::all_made(s, events);
    assert(copy_tree::forest_fits(none, dir, s.inodes));
    assert(copy_tree::forest_inodes(none, dir, s.inodes) == s.inodes);
    assert(copy_tree::forest_answers(none, dir, s.inodes) == Seq::<CopyEventView>::empty());
    assert(copy_tree::forest_made(none, dir, s.inodes) == Seq::<CopyActionView>::empty());
    next_step(s, events, result);
    if events[0] == CopyEventView::Next(NextEntry::End) {
        let rest = events.drop_first();
        split_first(events);
        assert(Seq::<CopyEventView>::empty() + seq![events[0]] =~= seq![events[0]]);
        assert(crate::copy::copy_step(s, events[0]) == s.leave());
        DirOutcome::Done { list: none, rest }
    } else {
        let part = Part { list: none, open: 0, rest: events, failed: t, tried: made };
        assert(Seq::<CopyEventView>::empty() + events =~= events);
        assert(Seq::<CopyActionView>::empty() + made =~= made);
        DirOutcome::Failed { part }
    }
}

/// A directory of which the first entry has been copied, and how the others come out.
proof fn dir_goes_on(
    s: CopyView,
    events: Seq<CopyEventView>,
    result: Result<(), ErrorView>,
    t: Tree,
    answers: Seq<CopyEventView>,
    others: DirOutcome,
) -> (r: DirOutcome)
    requires
        s.waiting is Entry,
        s.frames.len() > 0,
        ends(s, events, result),
        copy_tree::tree_fits(t, s.frames.last().dest, s.inodes),
        events == copy_tree::tree_answers(t, s.frames.last().dest, s.inodes) + answers,
        ({
            let after = copy_tree::at_entry(
                s,
                copy_tree::tree_inodes(t, s.frames.last().dest, s.inodes),
            );
            ends(after, answers, result) && dir_comes_to(after, answers, result, others)
        }),
    ensures
        dir_comes_to(s, events, result, r),
{
    let dir = s.frames.last().dest;
    let inodes = copy_tree::tree_inodes(t, dir, s.inodes);
    let after = copy_tree::at_entry(s, inodes);
    let first = copy_tree::tree_answers(t, dir, s.inodes);
    match others {
        DirOutcome::Done { list, rest } => {
            let end = CopyEventView::Next(NextEntry::End);
            let next = copy_tree::forest_answers(list, dir, inodes);
            forest_in_parts(t, list, dir, s.inodes);
            glue(next, seq![end], rest);
            glue(first, next, seq![end] + rest);
            glue(first + next, seq![end], rest);
            let outer = CopyView { frames: s.frames.drop_last(), ..s };
            let known = copy_tree::forest_inodes(list, dir, inodes);
            assert(copy_tree::at_entry(
                CopyView { frames: after.frames.drop_last(), ..after },
                known,
            ) == copy_tree::at_entry(outer, known));
            DirOutcome::Done { list: seq![t] + list, rest }
        },
        DirOutcome::Failed { part } => {
            let made = copy_tree::tree_made(t, dir, s.inodes);
            let next_made = copy_tree::forest_made(part.list, dir, inodes);
            copy_tree::tree_leads(s, t);
            copy_tree::leads_on(
                s,
                first,
                after,
                made,
                answers,
                copy_laws::copy_run(after, answers),
                copy_tree::all_made(after, answers),
            );
            forest_in_parts(t, part.list, dir, s.inodes);
            part_in_parts(t, part.list, part.open, dir, s.inodes);
            glue(first, part_answers(part.list, part.open, dir, inodes), part.rest);
            glue_made(made, next_made, part.tried);
            DirOutcome::Failed { part: Part { list: seq![t] + part.list, ..part } }
        },
    }
}

/// A directory at whose first entry, a directory, the copy fails further in.
proof fn dir_fails_inside(
    s: CopyView,
    events: Seq<CopyEventView>,
    result: Result<(), ErrorView>,
    t: Tree,
    answers: Seq<CopyEventView>,
    inner: Part,
) -> (r: DirOutcome)
    requires
        s.waiting is Entry,
        s.frames.len() > 0,
        comes_out(s, events, result, EntryOutcome::Dir { t, rest: answers }),
        dir_comes_to(copy_tree::inside(s, t), answers, result, DirOutcome::Failed { part: inner }),
    ensures
        dir_comes_to(s, events, result, r),
{
    let dir = s.frames.last().dest;
    let dest = copy_tree::copy_path(t, dir);
    let inside = copy_tree::inside(s, t);
    let whole = Tree { children: inner.list, ..t };
    assert(copy_tree::copy_path(whole, dir) == dest);
    assert(inside.frames.last().dest == dest);
    assert(copy_tree::own_answers(whole, s.inodes) == copy_tree::own_answers(t, s.inodes));
    assert(copy_tree::own_made(whole, dest, s.inodes) == copy_tree::own_made(t, dest, s.inodes));
    open_dir_in_parts(whole, inner.open, dir, s.inodes);
    copy_tree::dir_leads(s, t);
    copy_tree::leads_on(
        s,
        copy_tree::own_answers(t, s.inodes),
        inside,
        copy_tree::own_made(t, dest, s.inodes),
        answers,
        copy_laws::copy_run(inside, answers),
        copy_tree::all_made(inside, answers),
    );
    glue(
        copy_tree::own_answers(t, s.inodes),
        part_answers(inner.list, inner.open, dest, s.inodes),
        inner.rest,
    );
    glue_made(
        copy_tree::own_made(t, dest, s.inodes),
        copy_tree::forest_made(inner.list, dest, s.inodes),
        inner.tried,
    );
    DirOutcome::Failed { part: Part { list: seq![whole], open: inner.open + 1, ..inner } }
}

/// A directory whose first entry, a directory, has been copied with all that lies below it.
proof fn inner_dir_is_done(
    s: CopyView,
    events: Seq<CopyEventView>,
    result: Result<(), ErrorView>,
    t: Tree,
    answers: Seq<CopyEventView>,
    children: Seq<Tree>,
    rest: Seq<CopyEventView>,
) -> (whole: Tree)
    requires
        s.waiting is Entry,
        s.frames.len() > 0,
        comes_out(s, events, result, EntryOutcome::Dir { t, rest: answers }),
        dir_comes_to(
            copy_tree::inside(s, t),
            answers,
            result,
            DirOutcome::Done { list: children, rest },
        ),
    ensures
        ({
            let dir = s.frames.last().dest;
            &&& copy_tree::tree_fits(whole, dir, s.inodes)
            &&& events == copy_tree::tree_answers(whole, dir, s.inodes) + rest
            &&& rest.len() < events.len()
            &&& ends(
                copy_tree::at_entry(s, copy_tree::tree_inodes(whole, dir, s.inodes)),
                rest,
                result,
            )
        }),
{
    let dir = s.frames.last().dest;
    let dest = copy_tree::copy_path(t, dir);
    let inside = copy_tree::inside(s, t);
    let end = CopyEventView::Next(NextEntry::End);
    let whole = Tree { children, ..t };
    assert(copy_tree::copy_path(whole, dir) == dest);
    assert(inside.frames.last().dest == dest);
    assert(inside.frames.drop_last() =~= s.frames);
    let own = copy_tree::own_answers(t, s.inodes);
    assert(copy_tree::own_answers(whole, s.inodes) == own);
    dir_in_parts(whole, dir, s.inodes);
    let below = copy_tree::forest_answers(children, dest, s.inodes);
    glue(below, seq![end], rest);
    glue(own, below, seq![end] + rest);
    glue(own + below, seq![end], rest);
    let known = copy_tree::forest_inodes(children, dest, s.inodes);
    assert(copy_tree::at_entry(CopyView { frames: inside.frames.drop_last(), ..inside }, known)
        == copy_tree::at_entry(s, known));
    whole
}

/// What is left of the innermost directory of a copy that ends.
proof fn dir_comes_out_whole(
    s: CopyView,
    events: Seq<CopyEventView>,
    result: Result<(), ErrorView>,
) -> (r: DirOutcome)
    requires
        s.waiting is Entry,
        s.frames.len() > 0,
        ends(s, events, result),
    ensures
        dir_comes_to(s, events, result, r),
    decreases events.len(),
{
    let dir = s.frames.last().dest;
    run_from_second(s, events);
    if !(events[0]->Next_0 is Entry) {
        dir_stops(s, events, result, arbitrary())
    } else {
        match entry_comes_out(s, events, result) {
            EntryOutcome::Failed { t } => dir_stops(s, events, result, t),
            EntryOutcome::File { t, rest } => {
                let after = copy_tree::at_entry(s, copy_tree::tree_inodes(t, dir, s.inodes));
                let others = dir_comes_out_whole(after, rest, result);
                dir_goes_on(s, events, result, t, rest, others)
            },
            EntryOutcome::Dir { t, rest: answers } => {
                let inside = copy_tree::inside(s, t);
                match dir_comes_out_whole(inside, answers, result) {
                    DirOutcome::Failed { part } => dir_fails_inside(
                        s,
                        events,
                        result,
                        t,
                        answers,
                        part,
                    ),
                    DirOutcome::Done { list, rest } => {
                        let whole = inner_dir_is_done(
                            s,
                            events,
                            result,
                            t,
                            answers,
                            list,
                            rest,
                        );
                        let inodes = copy_tree::tree_inodes(whole, dir, s.inodes);
                        let after = copy_tree::at_entry(s, inodes);
                        let others = dir_comes_out_whole(after, rest, result);
                        dir_goes_on(s, events, result, whole, rest, others)
                    },
                }
            },
        }
    }
}

/// A copy that is about to get the first entry of the source.
spec fn at_first_entry(
    source: Seq<u8>,
    dest: Seq<u8>,
    source_stat: FileStat,
    dest_stat: FileStat,
) -> CopyView {
    copy_tree::at_entry(
        crate::copy::copy_start(source, dest),
        copy_tree::inodes_between(source_stat, dest_stat),
    )
}

/// What the system answers before it shows the first entry of the source.
spec fn opening(source_stat: FileStat, dest_stat: FileStat) -> Seq<CopyEventView> {
    seq![
        CopyEventView::Stat(Ok(source_stat)),
        CopyEventView::Stat(Ok(dest_stat)),
        CopyEventView::Opened(Ok(())),
    ]
}

/// A copy that ends ends before it has got to the entries of the source, with an error and without
/// having made anything, or has been shown that source and destination are directories.
proof fn start_comes_out(
    source: Seq<u8>,
    dest: Seq<u8>,
    events: Seq<CopyEventView>,
    result: Result<(), ErrorView>,
) -> (r: Option<(FileStat, FileStat)>)
    requires
        ends(crate::copy::copy_start(source, dest), events, result),
    ensures
        ({
            let start = crate::copy::copy_start(source, dest);
            match r {
                None => {
                    &&& result is Err
                    &&& events.len() <= 3
                    &&& copy_tree::all_made(start, events) == Seq::<CopyActionView>::empty()
                },
                Some((source_stat, dest_stat)) => {
                    let opened = at_first_entry(source, dest, source_stat, dest_stat);
                    &&& source_stat.file_type() == S_IFDIR
                    &&& dest_stat.file_type() == S_IFDIR
                    &&& events.len() >= 3
                    &&& events == opening(source_stat, dest_stat) + events.skip(3)
                    &&& ends(opened, events.skip(3), result)
                    &&& copy_tree::all_made(start, events) == copy_tree::all_made(
                        opened,
                        events.skip(3),
                    )
                },
            }
        }),
{
    let start = crate::copy::copy_start(source, dest);
    let none = Seq::<CopyActionView>::empty();
    next_step(start, events, result);
    let s1 = crate::copy::copy_step(start, events[0]).0;
    let rest1 = events.drop_first();
    if s1.waiting is Finished {
        None
    } else {
        let source_stat = events[0]->Stat_0->Ok_0;
        assert(events[0] == CopyEventView::Stat(Ok(source_stat)));
        next_step(s1, rest1, result);
        let s2 = crate::copy::copy_step(s1, rest1[0]).0;
        let rest2 = rest1.drop_first();
        assert(none + copy_tree::all_made(s1, rest1) =~= copy_tree::all_made(s1, rest1));
        if s2.waiting is Finished {
            None
        } else {
            let dest_stat = rest1[0]->Stat_0->Ok_0;
            assert(rest1[0] == CopyEventView::Stat(Ok(dest_stat)));
            next_step(s2, rest2, result);
            success_is_one(rest2[0]);
            let s3 = crate::copy::copy_step(s2, rest2[0]).0;
            let rest3 = rest2.drop_first();
            assert(none + copy_tree::all_made(s2, rest2) =~= copy_tree::all_made(s2, rest2));
            if s3.waiting is Finished {
                None
            } else {
                assert(none + copy_tree::all_made(s3, rest3) =~= copy_tree::all_made(s3, rest3));
                assert(rest2[0] == CopyEventView::Opened(Ok(())));
                assert(rest3 =~= events.skip(3));
                assert(events =~= seq![events[0], rest1[0], rest2[0]] + rest3);
                Some((source_stat, dest_stat))
            }
        }
    }
}

/// A copy that has ended well has copied a whole tree: whatever the system answered, it has shown two
/// directories and a list of entries with all that lies below them, and nothing else. What has been
/// made for them is what [`copy_tree::forest_made`] says.
pub proof fn copy_that_ends_well_copied_a_tree(
    source: Seq<u8>,
    dest: Seq<u8>,
    events: Seq<CopyEventView>,
)
    requires
        ends_well(crate::copy::copy_start(source, dest), events),
    ensures
        exists|source_stat: FileStat, dest_stat: FileStat, list: Seq<Tree>|
            #![trigger shows_tree(events, dest, source_stat, dest_stat, list)]
            shows_tree(events, dest, source_stat, dest_stat, list) && copy_tree::all_made(
                crate::copy::copy_start(source, dest),
                events,
            ) == copy_tree::forest_made(
                list,
                dest,
                copy_tree::inodes_between(source_stat, dest_stat),
            ),
{
    let end = CopyEventView::Next(NextEntry::End);
    let shown = start_comes_out(source, dest, events, Ok(()));
    let (source_stat, dest_stat) = shown->0;
    let opened = at_first_entry(source, dest, source_stat, dest_stat);
    assert(opened.frames.last().dest == dest);
    match dir_comes_out_whole(opened, events.skip(3), Ok(())) {
        DirOutcome::Done { list, rest } => {
            let filled = copy_tree::forest_answers(list, dest, opened.inodes);
            glue_end(opening(source_stat, dest_stat), filled, end, rest);
            assert(shows_tree(events, dest, source_stat, dest_stat, list));
            copy_tree::copy_dir_copies_the_tree(source, dest, source_stat, dest_stat, list);
        },
        DirOutcome::Failed { .. } => {},
    }
}

/// A copy that has ended with an error has copied a part of a tree. Either it has not got to the
/// entries of the source, and has made nothing. Or the system has shown some entries, the last of them
/// perhaps in directories that are still open, and then something failed. The copy has made what
/// [`copy_tree::forest_made`] says for those entries, and after that only what it tried for the entry
/// at which it failed.
pub proof fn copy_that_fails_copied_a_part(
    source: Seq<u8>,
    dest: Seq<u8>,
    events: Seq<CopyEventView>,
    error: ErrorView,
)
    requires
        ends(crate::copy::copy_start(source, dest), events, Err(error)),
    ensures
        ({
            let made = copy_tree::all_made(crate::copy::copy_start(source, dest), events);
            ||| events.len() <= 3 && made == Seq::<CopyActionView>::empty()
            ||| exists|source_stat: FileStat, dest_stat: FileStat, part: Part|
                #![trigger shows_part(events, dest, source_stat, dest_stat, part)]
                shows_part(events, dest, source_stat, dest_stat, part) && made
                    == copy_tree::forest_made(
                    part.list,
                    dest,
                    copy_tree::inodes_between(source_stat, dest_stat),
                ) + part.tried
        }),
{
    match start_comes_out(source, dest, events, Err(error)) {
        None => {},
        Some((source_stat, dest_stat)) => {
            let opened = at_first_entry(source, dest, source_stat, dest_stat);
            assert(opened.frames.last().dest == dest);
            match dir_comes_out_whole(opened, events.skip(3), Err(error)) {
                DirOutcome::Done { .. } => {},
                DirOutcome::Failed { part } => {
                    glue(
                        opening(source_stat, dest_stat),
                        part_answers(part.list, part.open, dest, opened.inodes),
                        part.rest,
                    );
                    assert(shows_part(events, dest, source_stat, dest_stat, part));
                },
            }
        },
    }
}

} // verus!
