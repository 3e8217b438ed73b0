//! What holds of copies as a whole.

use vstd::prelude::*;

use crate::copy::{
    CopyActionOf, CopyActionView, CopyEventOf, CopyEventView, CopyView, CopyWait, Frame, Item,
};
use crate::listing::NextEntry;

verus! {

/// A copy after a number of events.
pub open spec fn copy_run(s: CopyView, events: Seq<CopyEventView>) -> CopyView
    decreases events.len(),
{
    if events.len() == 0 {
        s
    } else {
        crate::copy::copy_step(copy_run(s, events.drop_last()), events.last()).0
    }
}

/// Tells whether each of a number of events is an answer to what the copy waits for.
pub open spec fn copy_accepts(s: CopyView, events: Seq<CopyEventView>) -> bool
    decreases events.len(),
{
    events.len() == 0 || (copy_accepts(s, events.drop_last()) && copy_run(
        s,
        events.drop_last(),
    ).accepts(events.last()))
}

/// The path that an action makes something at, if it makes anything.
pub open spec fn made_path(action: CopyActionView) -> Option<Seq<u8>> {
    match action {
        CopyActionOf::Link { new_file, .. } => Some(new_file),
        CopyActionOf::Symlink { dest, .. } => Some(dest),
        CopyActionOf::Mkdir { path, .. } => Some(path),
        CopyActionOf::Mkfifo { path, .. } => Some(path),
        CopyActionOf::Mknod { path, .. } => Some(path),
        CopyActionOf::CopyFile { dest, .. } => Some(dest),
        _ => None,
    }
}

/// Tells whether a path lies below a directory, and is not the directory itself.
pub open spec fn is_below(path: Seq<u8>, dir: Seq<u8>) -> bool {
    &&& crate::path::starts_with_spec(path, dir)
    &&& crate::path::components_spec(path).len() > crate::path::components_spec(dir).len()
}

/// The entries that lead to the innermost of a list of nested directories, the outermost of which is
/// not an entry.
pub open spec fn frame_way(frames: Seq<Frame<Seq<u8>>>) -> Seq<Seq<u8>> {
    if frames.len() == 0 {
        Seq::empty()
    } else {
        Seq::new((frames.len() - 1) as nat, |i: int| frames[i + 1].source)
    }
}

/// The entry that a copy is at, if it is at one.
pub open spec fn current_entry(s: CopyView) -> Option<Seq<u8>> {
    match s.waiting {
        CopyWait::EntryStat { path } => Some(path),
        CopyWait::LinkCopy { item } => Some(item.source),
        CopyWait::Target { item } => Some(item.source),
        CopyWait::Dir { item } => Some(item.source),
        CopyWait::Node { item } => Some(item.source),
        CopyWait::File { item } => Some(item.source),
        _ => None,
    }
}

/// A directory followed by the names of a number of entries.
pub open spec fn placed(root: Seq<u8>, way: Seq<Seq<u8>>) -> Seq<u8>
    decreases way.len(),
{
    if way.len() == 0 {
        root
    } else {
        crate::path::join_spec(
            placed(root, way.drop_last()),
            crate::path::file_name_spec(way.last())->0,
        )
    }
}

/// What holds of an entry that is being copied into the destination `root`: its copy has the name of
/// the entry and is in the counterpart of its directory, and its inode is only kept if it is one of
/// several hard links to a file that is not yet known.
pub open spec fn item_inv(s: CopyView, item: Item<Seq<u8>>, root: Seq<u8>) -> bool {
    &&& is_below(item.dest, root)
    &&& crate::path::file_name_spec(item.source) is Some
    &&& item.dest == placed(root, frame_way(s.frames).push(item.source))
    &&& item.insert ==> {
        &&& s.inodes is SeparateFs
        &&& s.inodes.find(item.stat.st_ino) is None
        &&& item.stat.file_type() != crate::stat::S_IFDIR
        &&& item.stat.st_nlink > 1
    }
}

/// What holds of each copy into the destination `root`: it fills the destination and the counterparts
/// of the directories that lead to where it is, knows inodes by paths below the destination, and keeps
/// an inode only if it is not yet known.
pub open spec fn copy_inv(s: CopyView, root: Seq<u8>) -> bool {
    &&& s.wf()
    &&& forall|i: int|
        0 <= i < s.frames.len() ==> {
            &&& crate::path::starts_with_spec((#[trigger] s.frames[i]).dest, root)
            &&& s.frames[i].dest == placed(root, frame_way(s.frames).take(i))
            &&& i > 0 ==> crate::path::file_name_spec(s.frames[i].source) is Some
        }
    &&& forall|ino: u64|
        (#[trigger] s.inodes.find(ino)) matches Some(path) ==> is_below(path, root)
    &&& match s.waiting {
        CopyWait::SourceStat | CopyWait::DestStat { .. } => s.inodes is SameFs,
        CopyWait::LinkCopy { item } => item_inv(s, item, root) && !item.insert,
        CopyWait::Target { item } => item_inv(s, item, root),
        CopyWait::Dir { item } => item_inv(s, item, root) && !item.insert,
        CopyWait::Node { item } => item_inv(s, item, root),
        CopyWait::File { item } => item_inv(s, item, root),
        _ => true,
    }
}

proof fn make_keeps_inv(s: CopyView, item: Item<Seq<u8>>, root: Seq<u8>)
    requires
        copy_inv(s, root),
        s.frames.len() > 0,
        item_inv(s, item, root),
    ensures
        copy_inv(s.make(item).0, root),
        made_path(s.make(item).1) matches Some(path) ==> path == item.dest,
        s.make(item).0.inodes == s.inodes,
{
    let after = s.make(item).0;
    assert(after.frames == s.frames);
    assert(after.inodes == s.inodes);
}

proof fn made_keeps_inv(s: CopyView, item: Item<Seq<u8>>, root: Seq<u8>)
    requires
        copy_inv(s, root),
        s.frames.len() > 0,
        item_inv(s, item, root),
    ensures
        copy_inv(s.made(item).0, root),
        s.made(item) == (CopyView {
            inodes: if item.insert {
                s.inodes.with(item.stat.st_ino, item.dest)
            } else {
                s.inodes
            },
            ..s
        }).next_entry(),
        forall|ino: u64|
            (#[trigger] s.inodes.find(ino)) is Some ==> s.made(item).0.inodes.find(ino)
                == s.inodes.find(ino),
{
    let after = s.made(item).0;
    assert(after.frames == s.frames);
    assert forall|ino: u64| (#[trigger] after.inodes.find(ino)) matches Some(path) implies is_below(
        after.inodes.find(ino)->0,
        root,
    ) by {
        if ino != item.stat.st_ino || !item.insert {
            assert(after.inodes.find(ino) == s.inodes.find(ino));
        }
    }
}

proof fn entry_path_is_below(dir: Seq<u8>, path: Seq<u8>, root: Seq<u8>)
    requires
        crate::path::starts_with_spec(dir, root),
        crate::path::file_name_spec(path) is Some,
    ensures
        is_below(crate::path::join_spec(dir, crate::path::file_name_spec(path)->0), root),
{
    let name = crate::path::file_name_spec(path)->0;
    crate::path::names_are_entry_names(path);
    crate::path::join_adds_the_name(dir, name);
    crate::path::join_is_below(dir, name);
    crate::path::starts_with_is_transitive(crate::path::join_spec(dir, name), dir, root);
}

/// One step of a copy keeps what holds of each copy, makes the counterpart of the entry that the copy
/// is at or nothing, and leaves the path of each known inode as it was.
pub proof fn copy_step_keeps_inv(s: CopyView, event: CopyEventView, root: Seq<u8>)
    requires
        copy_inv(s, root),
        s.accepts(event),
    ensures
        copy_inv(crate::copy::copy_step(s, event).0, root),
        made_path(crate::copy::copy_step(s, event).1) matches Some(path) ==> {
            &&& is_below(path, root)
            &&& current_entry(s) matches Some(entry) && crate::path::file_name_spec(entry) is Some
                && path == placed(root, frame_way(s.frames).push(entry))
        },
        forall|ino: u64|
            (#[trigger] s.inodes.find(ino)) is Some ==> crate::copy::copy_step(
                s,
                event,
            ).0.inodes.find(ino) == s.inodes.find(ino),
{
    let (after, action) = crate::copy::copy_step(s, event);
    let dir = s.frames.last();
    let way = frame_way(s.frames);
    assert(s.frames[s.frames.len() - 1] == dir);
    assert(way.take(way.len() as int) =~= way);
    match (s.waiting, event) {
        (CopyWait::EntryStat { path }, CopyEventOf::Stat(Ok(stat))) => {
            if crate::path::file_name_spec(path) is Some {
                let name = crate::path::file_name_spec(path)->0;
                entry_path_is_below(dir.dest, path, root);
                let dest = crate::path::join_spec(dir.dest, name);
                assert(way.push(path).drop_last() =~= way);
                let item = Item { source: path, dest, stat, insert: false };
                if stat.file_type() == crate::stat::S_IFDIR || stat.st_nlink <= 1 {
                    make_keeps_inv(s, item, root);
                } else if s.inodes is SeparateFs && s.inodes.find(stat.st_ino) is None {
                    make_keeps_inv(s, Item { insert: true, ..item }, root);
                }
            }
        },
        (CopyWait::LinkCopy { item }, CopyEventOf::Made(Err(e))) => {
            if e.kind == crate::error::ErrorKind::NotPermitted {
                make_keeps_inv(s, item, root);
            }
        },
        (CopyWait::Dir { item }, CopyEventOf::Made(Ok(_))) => {
            assert(frame_way(after.frames) =~= way.push(item.source));
            assert forall|i: int| 0 <= i < after.frames.len() implies {
                &&& crate::path::starts_with_spec((#[trigger] after.frames[i]).dest, root)
                &&& after.frames[i].dest == placed(root, frame_way(after.frames).take(i))
                &&& i > 0 ==> crate::path::file_name_spec(after.frames[i].source) is Some
            } by {
                if i < s.frames.len() {
                    assert(after.frames[i] == s.frames[i]);
                    assert(frame_way(after.frames).take(i) =~= way.take(i));
                } else {
                    assert(frame_way(after.frames).take(i) =~= frame_way(after.frames));
                }
            }
        },
        (CopyWait::Entry, CopyEventOf::Next(NextEntry::End)) => {
            assert forall|i: int| 0 <= i < after.frames.len() implies {
                &&& crate::path::starts_with_spec((#[trigger] after.frames[i]).dest, root)
                &&& after.frames[i].dest == placed(root, frame_way(after.frames).take(i))
                &&& i > 0 ==> crate::path::file_name_spec(after.frames[i].source) is Some
            } by {
                assert(after.frames[i] == s.frames[i]);
                assert(frame_way(after.frames).take(i) =~= way.take(i));
            }
        },
        (CopyWait::Node { item }, _) => {
            made_keeps_inv(s, item, root);
        },
        (CopyWait::File { item }, _) => {
            made_keeps_inv(s, item, root);
        },
        _ => {},
    }
}

proof fn copy_start_has_inv(source: Seq<u8>, dest: Seq<u8>)
    ensures
        copy_inv(crate::copy::copy_start(source, dest), dest),
{
    crate::path::starts_with_itself(dest);
    let start = crate::copy::copy_start(source, dest);
    assert(frame_way(start.frames).take(0) =~= Seq::empty());
}

/// What holds of each copy holds after any number of events.
pub proof fn copy_run_keeps_inv(source: Seq<u8>, dest: Seq<u8>, events: Seq<CopyEventView>)
    requires
        copy_accepts(crate::copy::copy_start(source, dest), events),
    ensures
        copy_inv(copy_run(crate::copy::copy_start(source, dest), events), dest),
    decreases events.len(),
{
    let start = crate::copy::copy_start(source, dest);
    if events.len() == 0 {
        copy_start_has_inv(source, dest);
    } else {
        copy_run_keeps_inv(source, dest, events.drop_last());
        copy_step_keeps_inv(copy_run(start, events.drop_last()), events.last(), dest);
    }
}

/// Tells whether the system has shown an entry in the course of a number of events, as one of the
/// innermost directory that the entries `dirs` lead to.
pub open spec fn is_listed(
    start: CopyView,
    events: Seq<CopyEventView>,
    dirs: Seq<Seq<u8>>,
    entry: Seq<u8>,
) -> bool {
    exists|k: int|
        0 <= k < events.len() && events[k] == CopyEventView::Next(NextEntry::Entry(entry))
            && frame_way((#[trigger] copy_run(start, events.take(k))).frames) == dirs
}

/// Tells whether the system has shown a number of entries, each in the directory before it, and
/// whether all of them have names.
pub open spec fn way_is_listed(
    start: CopyView,
    events: Seq<CopyEventView>,
    way: Seq<Seq<u8>>,
) -> bool {
    forall|i: int|
        0 <= i < way.len() ==> crate::path::file_name_spec(#[trigger] way[i]) is Some && is_listed(
            start,
            events,
            way.take(i),
            way[i],
        )
}

proof fn is_listed_stays(
    start: CopyView,
    events: Seq<CopyEventView>,
    event: CopyEventView,
    dirs: Seq<Seq<u8>>,
    entry: Seq<u8>,
)
    requires
        is_listed(start, events, dirs, entry),
    ensures
        is_listed(start, events.push(event), dirs, entry),
{
    let k = choose|k: int|
        0 <= k < events.len() && events[k] == CopyEventView::Next(NextEntry::Entry(entry))
            && frame_way((#[trigger] copy_run(start, events.take(k))).frames) == dirs;
    assert(events.push(event).take(k) =~= events.take(k));
    assert(events.push(event)[k] == events[k]);
    assert(frame_way(copy_run(start, events.push(event).take(k)).frames) == dirs);
}

/// The system has shown the entries that lead to where a copy is, and the entry that it is at.
proof fn ways_were_listed(source: Seq<u8>, dest: Seq<u8>, events: Seq<CopyEventView>)
    requires
        copy_accepts(crate::copy::copy_start(source, dest), events),
    ensures
        ({
            let start = crate::copy::copy_start(source, dest);
            let s = copy_run(start, events);
            &&& way_is_listed(start, events, frame_way(s.frames))
            &&& current_entry(s) matches Some(entry) ==> is_listed(
                start,
                events,
                frame_way(s.frames),
                entry,
            )
        }),
    decreases events.len(),
{
    let start = crate::copy::copy_start(source, dest);
    if events.len() > 0 {
        let before = events.drop_last();
        let event = events.last();
        let s = copy_run(start, before);
        let after = copy_run(start, events);
        let way = frame_way(s.frames);
        let after_way = frame_way(after.frames);
        ways_were_listed(source, dest, before);
        copy_run_keeps_inv(source, dest, before);
        copy_nests_directories(s, event);
        assert(before.push(event) =~= events);
        if current_entry(s) is Some {
            is_listed_stays(start, before, event, way, current_entry(s)->0);
        }
        if s.waiting is Entry {
            assert(events.take(before.len() as int) =~= before);
            assert(events[before.len() as int] == event);
            assert(frame_way(copy_run(start, events.take(before.len() as int)).frames) == way);
        }
        if s.waiting is Dir && event == CopyEventView::Made(Ok(())) {
            assert(after.frames =~= s.frames.push(after.frames.last()));
            assert(after_way =~= way.push(current_entry(s)->0));
        }
        assert forall|i: int| 0 <= i < after_way.len() implies crate::path::file_name_spec(
            #[trigger] after_way[i],
        ) is Some && is_listed(start, events, after_way.take(i), after_way[i]) by {
            assert(after_way.take(i) =~= way.take(i));
            if i < way.len() {
                assert(after_way[i] == way[i]);
                is_listed_stays(start, before, event, way.take(i), way[i]);
            } else {
                assert(way.take(i) =~= way);
            }
        }
    }
}

/// Whatever the system answers, all that a copy makes lies below the destination directory: its path
/// is the destination followed by the names of the entries that lead to the entry that is being
/// copied, which the system has shown one in the other.
pub proof fn copy_makes_below_the_destination(
    source: Seq<u8>,
    dest: Seq<u8>,
    events: Seq<CopyEventView>,
    event: CopyEventView,
)
    requires
        copy_accepts(crate::copy::copy_start(source, dest), events.push(event)),
    ensures
        ({
            let start = crate::copy::copy_start(source, dest);
            let s = copy_run(start, events);
            made_path(crate::copy::copy_step(s, event).1) matches Some(path) ==> {
                &&& is_below(path, dest)
                &&& current_entry(s) matches Some(entry) && {
                    let way = frame_way(s.frames).push(entry);
                    &&& path == placed(dest, way)
                    &&& way_is_listed(start, events, way)
                }
            }
        }),
{
    let start = crate::copy::copy_start(source, dest);
    let s = copy_run(start, events);
    assert(events.push(event).drop_last() =~= events);
    copy_run_keeps_inv(source, dest, events);
    copy_step_keeps_inv(s, event, dest);
    ways_were_listed(source, dest, events);
    if made_path(crate::copy::copy_step(s, event).1) is Some {
        let dirs = frame_way(s.frames);
        let way = dirs.push(current_entry(s)->0);
        assert forall|i: int| 0 <= i < way.len() implies crate::path::file_name_spec(
            #[trigger] way[i],
        ) is Some && is_listed(start, events, way.take(i), way[i]) by {
            assert(way.take(i) =~= dirs.take(i));
            if i < dirs.len() {
                assert(way[i] == dirs[i]);
            } else {
                assert(dirs.take(i) =~= dirs);
            }
        }
    }
}

/// Tells whether a copy has made something at a path in the course of a number of events.
pub open spec fn has_made(start: CopyView, events: Seq<CopyEventView>, path: Seq<u8>) -> bool {
    exists|k: int|
        0 <= k < events.len() && made_path(
            crate::copy::copy_step(#[trigger] copy_run(start, events.take(k)), events[k]).1,
        ) == Some(path)
}

proof fn has_made_stays(
    start: CopyView,
    events: Seq<CopyEventView>,
    event: CopyEventView,
    path: Seq<u8>,
)
    requires
        has_made(start, events, path),
    ensures
        has_made(start, events.push(event), path),
{
    let k = choose|k: int|
        0 <= k < events.len() && made_path(
            crate::copy::copy_step(#[trigger] copy_run(start, events.take(k)), events[k]).1,
        ) == Some(path);
    assert(events.push(event).take(k) =~= events.take(k));
    assert(events.push(event)[k] == events[k]);
    assert(made_path(
        crate::copy::copy_step(
            copy_run(start, events.push(event).take(k)),
            events.push(event)[k],
        ).1,
    ) == Some(path));
}

/// A copy has made something at the path of each inode that it knows, and at that of each entry that
/// it may be about to keep the inode of.
proof fn known_inodes_were_made(source: Seq<u8>, dest: Seq<u8>, events: Seq<CopyEventView>)
    requires
        copy_accepts(crate::copy::copy_start(source, dest), events),
    ensures
        ({
            let start = crate::copy::copy_start(source, dest);
            let s = copy_run(start, events);
            &&& forall|ino: u64|
                (#[trigger] s.inodes.find(ino)) matches Some(path) ==> has_made(start, events, path)
            &&& s.waiting matches CopyWait::Node { item } ==> has_made(start, events, item.dest)
            &&& s.waiting matches CopyWait::File { item } ==> has_made(start, events, item.dest)
        }),
    decreases events.len(),
{
    let start = crate::copy::copy_start(source, dest);
    if events.len() > 0 {
        let before = events.drop_last();
        let event = events.last();
        let s = copy_run(start, before);
        let (after, action) = crate::copy::copy_step(s, event);
        known_inodes_were_made(source, dest, before);
        copy_run_keeps_inv(source, dest, before);
        assert(before.push(event) =~= events);
        assert(events.take(before.len() as int) =~= before);
        assert(events[before.len() as int] == event);
        // What this step makes has been made.
        if made_path(action) is Some {
            assert(made_path(
                crate::copy::copy_step(
                    copy_run(start, events.take(before.len() as int)),
                    events[before.len() as int],
                ).1,
            ) == Some(made_path(action)->0));
            assert(has_made(start, events, made_path(action)->0));
        }
        // What was kept before stays, and what is kept now has been made.
        assert forall|ino: u64| (#[trigger] after.inodes.find(ino)) matches Some(path) implies has_made(
            start,
            events,
            after.inodes.find(ino)->0,
        ) by {
            let path = after.inodes.find(ino)->0;
            if s.inodes.find(ino) == Some(path) {
                has_made_stays(start, before, event, path);
            } else {
                match s.waiting {
                    CopyWait::Node { item } => {
                        has_made_stays(start, before, event, item.dest);
                    },
                    CopyWait::File { item } => {
                        has_made_stays(start, before, event, item.dest);
                    },
                    _ => {},
                }
            }
        }
    }
}

/// Between two file systems, a hard link is only ever made to a file that the copy has made before,
/// and that lies below the destination. Within one file system it is made to the entry that is being
/// copied.
pub proof fn copy_links_to_copies_or_the_source(
    source: Seq<u8>,
    dest: Seq<u8>,
    events: Seq<CopyEventView>,
    event: CopyEventView,
)
    requires
        copy_accepts(crate::copy::copy_start(source, dest), events.push(event)),
    ensures
        ({
            let start = crate::copy::copy_start(source, dest);
            let s = copy_run(start, events);
            crate::copy::copy_step(s, event).1 matches CopyActionOf::Link { old_file, .. } ==> {
                &&& s.inodes is SeparateFs ==> has_made(start, events, old_file) && is_below(
                    old_file,
                    dest,
                )
                &&& s.inodes is SameFs ==> (s.waiting matches CopyWait::EntryStat { path }
                    && old_file == path)
            }
        }),
{
    assert(events.push(event).drop_last() =~= events);
    copy_run_keeps_inv(source, dest, events);
    known_inodes_were_made(source, dest, events);
}

/// Once a copy knows the path of an inode, the path stays: the first copy of a file is the one that
/// all later ones are linked to.
pub proof fn copy_keeps_the_first_path(
    source: Seq<u8>,
    dest: Seq<u8>,
    events: Seq<CopyEventView>,
    later: Seq<CopyEventView>,
    ino: u64,
)
    requires
        copy_accepts(crate::copy::copy_start(source, dest), events + later),
        copy_run(crate::copy::copy_start(source, dest), events).inodes.find(ino) is Some,
    ensures
        copy_run(crate::copy::copy_start(source, dest), events + later).inodes.find(ino)
            == copy_run(crate::copy::copy_start(source, dest), events).inodes.find(ino),
    decreases later.len(),
{
    let start = crate::copy::copy_start(source, dest);
    if later.len() == 0 {
        assert(events + later =~= events);
    } else {
        assert((events + later).drop_last() =~= events + later.drop_last());
        assert((events + later).last() == later.last());
        copy_keeps_the_first_path(source, dest, events, later.drop_last(), ino);
        copy_run_keeps_inv(source, dest, events + later.drop_last());
        copy_step_keeps_inv(copy_run(start, events + later.drop_last()), later.last(), dest);
    }
}

/// A copy goes on after each thing that was made: it never finds itself without a place to keep an
/// inode.
pub proof fn copy_goes_on_after_success(
    source: Seq<u8>,
    dest: Seq<u8>,
    events: Seq<CopyEventView>,
    event: CopyEventView,
)
    requires
        copy_accepts(crate::copy::copy_start(source, dest), events.push(event)),
        event == CopyEventView::Made(Ok(())) || event == CopyEventView::Copied(Ok(())),
    ensures
        !(crate::copy::copy_step(
            copy_run(crate::copy::copy_start(source, dest), events),
            event,
        ).1 is Finish),
{
    assert(events.push(event).drop_last() =~= events);
    copy_run_keeps_inv(source, dest, events);
}

/// A copy is over exactly when it says so, and then takes no more events.
pub proof fn copy_ends_with_finish(s: CopyView, event: CopyEventView)
    requires
        s.wf(),
        s.accepts(event),
    ensures
        crate::copy::copy_step(s, event).0.wf(),
        crate::copy::copy_step(s, event).1 is Finish <==> crate::copy::copy_step(
            s,
            event,
        ).0.waiting is Finished,
        crate::copy::copy_step(s, event).1 is Finish ==> forall|next: CopyEventView|
            !(#[trigger] crate::copy::copy_step(s, event).0.accepts(next)),
{
}

/// Tells whether an event can come of an action.
pub open spec fn copy_answers_to(action: CopyActionView, event: CopyEventView) -> bool {
    match action {
        CopyActionOf::Stat { .. } | CopyActionOf::Lstat { .. } => event is Stat,
        CopyActionOf::ReadDir { .. } => event is Opened,
        CopyActionOf::NextEntry => event is Next,
        CopyActionOf::ReadLink { .. } => event is Target,
        CopyActionOf::Link { .. }
        | CopyActionOf::Symlink { .. }
        | CopyActionOf::Mkdir { .. }
        | CopyActionOf::Mkfifo { .. }
        | CopyActionOf::Mknod { .. } => event is Made,
        CopyActionOf::CopyFile { .. } => event is Copied,
        CopyActionOf::Finish { .. } => false,
    }
}

/// A copy takes whatever can come of the action that it gave back last, and nothing else.
pub proof fn copy_takes_any_answer(s: CopyView, event: CopyEventView, next: CopyEventView)
    requires
        s.wf(),
        s.accepts(event),
    ensures
        crate::copy::copy_step(s, event).0.accepts(next) <==> copy_answers_to(
            crate::copy::copy_step(s, event).1,
            next,
        ),
{
}

/// At its start, a copy takes whatever can come of getting the status of the source, and nothing
/// else.
pub proof fn copy_start_takes_any_answer(source: Seq<u8>, dest: Seq<u8>, next: CopyEventView)
    ensures
        crate::copy::copy_start(source, dest).accepts(next) <==> copy_answers_to(
            CopyActionOf::Stat { path: source },
            next,
        ),
{
}

/// The directories that are being copied nest: a directory below the innermost one becomes the
/// innermost one when it has been made, and the one around it does so again when it has no more
/// entries. It is always the innermost one that is opened.
pub proof fn copy_nests_directories(s: CopyView, event: CopyEventView)
    requires
        s.wf(),
        s.accepts(event),
    ensures
        ({
            let (after, action) = crate::copy::copy_step(s, event);
            &&& match (s.waiting, event) {
                (CopyWait::Dir { item }, CopyEventOf::Made(Ok(_))) => {
                    &&& after.frames.drop_last() == s.frames
                    &&& after.frames.last().source == item.source
                    &&& after.frames.last().dest == item.dest
                },
                (_, CopyEventOf::Next(NextEntry::End)) => after.frames == s.frames.drop_last(),
                _ => after.frames == s.frames,
            }
            &&& action matches CopyActionOf::ReadDir { path } ==> after.frames.len() > 0
                && after.frames.last().source == path
        }),
{
    let (after, action) = crate::copy::copy_step(s, event);
    if s.waiting is Dir && event == CopyEventView::Made(Ok(())) {
        assert(after.frames.drop_last() =~= s.frames);
    }
}

/// Tells whether an event reports that something failed.
pub open spec fn is_failure(event: CopyEventView) -> bool {
    match event {
        CopyEventOf::Stat(result) => result is Err,
        CopyEventOf::Opened(result) => result is Err,
        CopyEventOf::Next(next) => next is Failed,
        CopyEventOf::Target(result) => result is Err,
        CopyEventOf::Made(result) => result is Err,
        CopyEventOf::Copied(result) => result is Err,
    }
}

/// The first failure ends a copy, with the error that was reported, or with one of the kind
/// `Upstream` that holds what failed. The one exception is a destination that does not permit
/// a hard link to an earlier copy: the copy then does what it does for a file that has no other
/// link.
pub proof fn copy_ends_at_the_first_failure(s: CopyView, event: CopyEventView)
    requires
        s.wf(),
        s.accepts(event),
        is_failure(event),
    ensures
        ({
            let (after, action) = crate::copy::copy_step(s, event);
            match (s.waiting, event) {
                (CopyWait::LinkCopy { item }, CopyEventOf::Made(Err(e))) => if e.kind
                    == crate::error::ErrorKind::NotPermitted {
                    (after, action) == s.make(item)
                } else {
                    action == (CopyActionView::Finish { result: Err(e) })
                },
                (_, CopyEventOf::Stat(Err(e))) => action == (CopyActionView::Finish {
                    result: Err(e),
                }),
                (_, CopyEventOf::Made(Err(e))) => action == (CopyActionView::Finish {
                    result: Err(e),
                }),
                (_, CopyEventOf::Opened(Err(failure))) => ends_upstream(action, failure),
                (_, CopyEventOf::Next(NextEntry::Failed(failure))) => ends_upstream(
                    action,
                    failure,
                ),
                (_, CopyEventOf::Target(Err(failure))) => ends_upstream(action, failure),
                (_, CopyEventOf::Copied(Err(failure))) => ends_upstream(action, failure),
                _ => false,
            }
        }),
{
}

/// Tells whether an action ends a copy with an error that something underneath is to blame for.
pub open spec fn ends_upstream(action: CopyActionView, failure: crate::error::IoFailure) -> bool {
    action matches CopyActionOf::Finish { result } && result matches Err(e) && e.kind
        == crate::error::ErrorKind::Upstream && e.cause == Some(failure.as_cause())
}

/// The mode that a directory or a named pipe is made with has the type and the permissions of the
/// mode that it is taken from.
pub proof fn made_mode_keeps_type_and_permissions(mode: u32)
    ensures
        (mode & crate::copy::MODE_BITS) & crate::stat::S_IFMT == mode & crate::stat::S_IFMT,
        (mode & crate::copy::MODE_BITS) & 0o7777 == mode & 0o7777,
{
    assert((mode & 0xFFFF) & 0o170000 == mode & 0o170000) by (bit_vector);
    assert((mode & 0xFFFF) & 0o7777 == mode & 0o7777) by (bit_vector);
}

} // verus!
