//! What a copy asks for, in terms of what it has asked for and been answered before.
//!
//! Nothing here speaks of the state of a copy: each law gives the next action from the paths that the
//! copy was started with, the actions so far and their answers.

use vstd::prelude::*;

use crate::copy::{
    copy_dir, CopyAction, CopyActionOf, CopyActionView, CopyDir, CopyEvent, CopyEventOf,
    CopyEventView, CopyWait, Frame, Item,
};
use crate::copy_laws;
use crate::error::{Cause, ErrorKind, ErrorView, IoFailure};
use crate::inodes::CopyInodesView;
use crate::listing::NextEntry;
use crate::stat::FileStat;
use crate::text;

verus! {

/// The last action of a copy after a number of events.
pub open spec fn action_after(
    source: Seq<u8>,
    dest: Seq<u8>,
    events: Seq<CopyEventView>,
) -> CopyActionView {
    if events.len() == 0 {
        CopyActionOf::Stat { path: source }
    } else {
        crate::copy::copy_step(
            copy_laws::copy_run(crate::copy::copy_start(source, dest), events.drop_last()),
            events.last(),
        ).1
    }
}

/// The entry that the copy has last looked at: the path that it has last asked the status of, without
/// following a symbolic link.
pub open spec fn looked_at(source: Seq<u8>, dest: Seq<u8>, events: Seq<CopyEventView>) -> Seq<u8>
    decreases events.len(),
{
    if events.len() == 0 {
        Seq::empty()
    } else {
        match action_after(source, dest, events) {
            CopyActionOf::Lstat { path } => path,
            _ => looked_at(source, dest, events.drop_last()),
        }
    }
}

/// The last status that was shown.
pub open spec fn shown_stat(events: Seq<CopyEventView>) -> FileStat
    decreases events.len(),
{
    if events.len() == 0 {
        arbitrary()
    } else {
        match events.last() {
            CopyEventOf::Stat(Ok(stat)) => stat,
            _ => shown_stat(events.drop_last()),
        }
    }
}

/// The directories that are being copied, the innermost last: source and destination, and then each
/// directory that was opened after it had been made, until its end was reported.
pub open spec fn open_dirs(
    source: Seq<u8>,
    dest: Seq<u8>,
    events: Seq<CopyEventView>,
) -> Seq<Frame<Seq<u8>>>
    decreases events.len(),
{
    if events.len() == 0 {
        seq![Frame { source, dest }]
    } else {
        let before = open_dirs(source, dest, events.drop_last());
        match (
            action_after(source, dest, events.drop_last()),
            events.last(),
            action_after(source, dest, events),
        ) {
            (
                CopyActionOf::Mkdir { path: made, .. },
                CopyEventOf::Made(Ok(_)),
                CopyActionOf::ReadDir { path },
            ) => before.push(Frame { source: path, dest: made }),
            (_, CopyEventOf::Next(NextEntry::End), _) => before.drop_last(),
            _ => before,
        }
    }
}

/// Where the files with several hard links have been copied to first, by inode: the path of what was
/// made, rather than linked, for an entry with that inode and more than one link.
pub open spec fn first_copies(
    source: Seq<u8>,
    dest: Seq<u8>,
    events: Seq<CopyEventView>,
) -> Map<u64, Seq<u8>>
    decreases events.len(),
{
    if events.len() == 0 {
        Map::empty()
    } else {
        let before = first_copies(source, dest, events.drop_last());
        let stat = shown_stat(events);
        match (action_after(source, dest, events.drop_last()), events.last()) {
            (CopyActionOf::Symlink { dest: path, .. }, CopyEventOf::Made(Ok(_))) => with_first(
                before,
                stat,
                path,
            ),
            (CopyActionOf::Mkfifo { path, .. }, CopyEventOf::Made(Ok(_))) => with_first(
                before,
                stat,
                path,
            ),
            (CopyActionOf::Mknod { path, .. }, CopyEventOf::Made(Ok(_))) => with_first(
                before,
                stat,
                path,
            ),
            (CopyActionOf::CopyFile { dest: path, .. }, CopyEventOf::Copied(Ok(_))) => with_first(
                before,
                stat,
                path,
            ),
            _ => before,
        }
    }
}

/// The same with the path of one more file, if it has several links and is the first with its inode.
pub open spec fn with_first(
    before: Map<u64, Seq<u8>>,
    stat: FileStat,
    path: Seq<u8>,
) -> Map<u64, Seq<u8>> {
    if stat.st_nlink > 1 && !before.contains_key(stat.st_ino) {
        before.insert(stat.st_ino, path)
    } else {
        before
    }
}

/// Tells whether the system has shown source and destination to be on one device.
pub open spec fn on_one_device(events: Seq<CopyEventView>) -> bool {
    &&& events.len() >= 2
    &&& events[0] matches CopyEventOf::Stat(Ok(source))
    &&& events[1] matches CopyEventOf::Stat(Ok(dest))
    &&& source.st_dev == dest.st_dev
}

/// The path that the entry that was last looked at is copied to: its name in the destination of the
/// innermost directory.
pub open spec fn new_path(source: Seq<u8>, dest: Seq<u8>, events: Seq<CopyEventView>) -> Seq<u8> {
    crate::path::join_spec(
        open_dirs(source, dest, events).last().dest,
        crate::path::file_name_spec(looked_at(source, dest, events))->0,
    )
}

/// Tells whether an action ends the copy with an error that nothing underneath is to blame for.
pub open spec fn ends_with_error(action: CopyActionView, kind: ErrorKind, message: Seq<char>) -> bool {
    action == (CopyActionView::Finish { result: Err(ErrorView { kind, message, cause: None }) })
}

/// Tells whether an action ends the copy with the error of a file operation that failed.
pub open spec fn ends_with_failure(
    action: CopyActionView,
    message: Seq<char>,
    failure: IoFailure,
) -> bool {
    &&& action matches CopyActionOf::Finish { result: Err(e) }
    &&& e.kind == ErrorKind::Upstream
    &&& e.message == message
    &&& match failure {
        IoFailure::Os(errno) => e.cause == Some(Cause::Os(errno)),
        IoFailure::Other(io) => e.cause == Some(Cause::Io(io)),
    }
}

/// Tells whether an action is the first one that makes the copy of an entry at `new`, for the type that
/// its status shows. `dir` is the directory that the entry is in.
pub open spec fn makes_by_type(
    action: CopyActionView,
    entry: Seq<u8>,
    stat: FileStat,
    new: Seq<u8>,
    dir: Seq<u8>,
) -> bool {
    let mode = stat.st_mode;
    let kind = mode & 0o170000;
    if kind == 0o120000 {
        action == (CopyActionView::ReadLink { path: entry })
    } else if kind == 0o040000 {
        action == (CopyActionView::Mkdir { path: new, mode: mode & 0xffff })
    } else if kind == 0o010000 {
        action == (CopyActionView::Mkfifo { path: new, mode: mode & 0xffff })
    } else if kind == 0o060000 || kind == 0o020000 {
        action == (CopyActionView::Mknod { path: new, mode, dev_id: stat.st_rdev })
    } else if kind == 0o140000 {
        action == CopyActionView::NextEntry
    } else if kind == 0o100000 {
        action == (CopyActionView::CopyFile { source: entry, dest: new })
    } else {
        ends_with_error(
            action,
            ErrorKind::InvParam,
            "Encountered invalid source file mode 0x"@ + text::hex_digits(mode as nat, 8)
                + " for  '"@ + text::lossy_text(dir) + "'"@,
        )
    }
}

/// What an item says of the entry that was last looked at.
spec fn item_tied(
    item: Item<Seq<u8>>,
    source: Seq<u8>,
    dest: Seq<u8>,
    events: Seq<CopyEventView>,
) -> bool {
    let known = first_copies(source, dest, events);
    &&& item.source == looked_at(source, dest, events)
    &&& item.stat == shown_stat(events)
    &&& item.dest == new_path(source, dest, events)
    &&& item.stat.file_type() != crate::stat::S_IFDIR ==> (item.insert <==> item.stat.st_nlink > 1
        && !known.contains_key(item.stat.st_ino))
}

/// How the state of a copy goes with what it has asked for and been answered.
spec fn tied(source: Seq<u8>, dest: Seq<u8>, events: Seq<CopyEventView>) -> bool {
    let s = copy_laws::copy_run(crate::copy::copy_start(source, dest), events);
    let action = action_after(source, dest, events);
    let known = first_copies(source, dest, events);
    &&& s.wf()
    &&& s.frames == open_dirs(source, dest, events)
    &&& events.len() >= 2 && !(s.waiting is Finished) ==> s.inodes == if on_one_device(events) {
        CopyInodesView::SameFs
    } else {
        CopyInodesView::SeparateFs(known)
    }
    &&& match s.waiting {
        CopyWait::SourceStat => events.len() == 0,
        CopyWait::DestStat { source_dev } => {
            &&& events.len() == 1
            &&& events[0] matches CopyEventOf::Stat(Ok(stat))
            &&& stat.st_dev == source_dev
            &&& action == (CopyActionView::Stat { path: dest })
        },
        CopyWait::Open => action == (CopyActionView::ReadDir { path: s.frames.last().source })
            && events.len() >= 2,
        CopyWait::Entry => action == CopyActionView::NextEntry && events.len() >= 2,
        CopyWait::EntryStat { path } => action == (CopyActionView::Lstat { path }) && events.len()
            >= 2,
        CopyWait::LinkSource => action is Link && on_one_device(events) && events.len() >= 2,
        CopyWait::LinkCopy { item } => {
            &&& action is Link
            &&& events.len() >= 2
            &&& !on_one_device(events)
            &&& item_tied(item, source, dest, events)
            &&& !item.insert
            &&& item.stat.file_type() != crate::stat::S_IFDIR
        },
        CopyWait::Target { item } => {
            &&& action == (CopyActionView::ReadLink { path: item.source })
            &&& events.len() >= 2
            &&& item_tied(item, source, dest, events)
            &&& item.stat.file_type() != crate::stat::S_IFDIR
            &&& on_one_device(events) ==> !item.insert
        },
        CopyWait::Dir { item } => {
            &&& action matches CopyActionOf::Mkdir { path, .. }
            &&& path == item.dest
            &&& events.len() >= 2
            &&& item_tied(item, source, dest, events)
        },
        CopyWait::Node { item } => {
            &&& action is Symlink || action is Mkfifo || action is Mknod
            &&& copy_laws::made_path(action) == Some(item.dest)
            &&& events.len() >= 2
            &&& item_tied(item, source, dest, events)
            &&& item.stat.file_type() != crate::stat::S_IFDIR
            &&& on_one_device(events) ==> !item.insert
        },
        CopyWait::File { item } => {
            &&& action == (CopyActionView::CopyFile { source: item.source, dest: item.dest })
            &&& events.len() >= 2
            &&& item_tied(item, source, dest, events)
            &&& item.stat.file_type() != crate::stat::S_IFDIR
            &&& on_one_device(events) ==> !item.insert
        },
        CopyWait::Finished => action is Finish,
    }
}

proof fn run_is_tied(source: Seq<u8>, dest: Seq<u8>, events: Seq<CopyEventView>)
    requires
        copy_laws::copy_accepts(crate::copy::copy_start(source, dest), events),
    ensures
        tied(source, dest, events),
    decreases events.len(),
{
    if events.len() > 0 {
        let before = events.drop_last();
        run_is_tied(source, dest, before);
        assert(before.push(events.last()) =~= events);
        step_is_tied(source, dest, before, events.last());
    }
}

proof fn step_is_tied(
    source: Seq<u8>,
    dest: Seq<u8>,
    before: Seq<CopyEventView>,
    event: CopyEventView,
)
    requires
        tied(source, dest, before),
        copy_laws::copy_accepts(crate::copy::copy_start(source, dest), before.push(event)),
    ensures
        tied(source, dest, before.push(event)),
{
    let events = before.push(event);
    let start = crate::copy::copy_start(source, dest);
    let s = copy_laws::copy_run(start, before);
    assert(events.drop_last() =~= before);
    assert(events.last() == event);
    let after = copy_laws::copy_run(start, events);
    assert(s.accepts(event));
    assert((after, action_after(source, dest, events)) == crate::copy::copy_step(s, event));
    if before.len() >= 2 {
        assert(events[0] == before[0] && events[1] == before[1]);
        assert(on_one_device(events) == on_one_device(before));
    }
    match (s.waiting, event) {
        (CopyWait::SourceStat, CopyEventOf::Stat(Ok(stat))) => {
            assert(events[0] == event);
        },
        (CopyWait::DestStat { source_dev }, CopyEventOf::Stat(Ok(stat))) => {
            assert(events[0] == before[0] && events[1] == event);
            assert(first_copies(source, dest, before) =~= Map::empty()) by {
                assert(before.drop_last() =~= Seq::empty());
                assert(first_copies(source, dest, before.drop_last()) == Map::<u64, Seq<u8>>::empty());
            }
            assert(first_copies(source, dest, events) =~= Map::empty());
        },
        (CopyWait::EntryStat { path }, CopyEventOf::Stat(Ok(stat))) => {
            entry_is_tied(source, dest, before, path, stat);
        },
        _ => {},
    }
}

proof fn entry_is_tied(
    source: Seq<u8>,
    dest: Seq<u8>,
    before: Seq<CopyEventView>,
    path: Seq<u8>,
    stat: FileStat,
)
    requires
        tied(source, dest, before),
        copy_laws::copy_run(crate::copy::copy_start(source, dest), before).waiting == (
        CopyWait::EntryStat { path }),
        copy_laws::copy_accepts(
            crate::copy::copy_start(source, dest),
            before.push(CopyEventOf::Stat(Ok(stat))),
        ),
    ensures
        tied(source, dest, before.push(CopyEventOf::Stat(Ok(stat)))),
{
    let event = CopyEventView::Stat(Ok(stat));
    let events = before.push(event);
    assert(events.drop_last() =~= before);
    assert(events.last() == event);
    assert(events[0] == before[0] && events[1] == before[1]);
    assert(on_one_device(events) == on_one_device(before));
    assert(looked_at(source, dest, before) == path);
    assert(first_copies(source, dest, events) == first_copies(source, dest, before));
}

/// A copy starts by asking for the status of the source, and each step goes on from there: the action
/// that it gives back is the next one.
pub proof fn steps_give_the_next_action(
    source: &[u8],
    dest: &[u8],
    events: Seq<CopyEventView>,
    copy: CopyDir,
    event: CopyEvent,
    first: (CopyDir, CopyAction),
    r: (CopyDir, CopyAction),
)
    requires
        call_ensures(copy_dir, (source, dest), first),
        copy@ == copy_laws::copy_run(first.0@, events),
        call_ensures(CopyDir::step, (copy, event), r),
    ensures
        first.1@ == (CopyActionView::Stat { path: source@ }),
        first.1@ == action_after(source@, dest@, Seq::empty()),
        r.1@ == action_after(source@, dest@, events.push(event@)),
        r.0@ == copy_laws::copy_run(first.0@, events.push(event@)),
{
    assert(events.push(event@).drop_last() =~= events);
}

/// The answer to the status of the source decides: a directory is followed by the status of the
/// destination, anything else ends the copy.
pub proof fn source_is_followed_by_the_destination(
    source: Seq<u8>,
    dest: Seq<u8>,
    event: CopyEventView,
)
    requires
        copy_laws::copy_accepts(crate::copy::copy_start(source, dest), seq![event]),
    ensures
        ({
            let next = action_after(source, dest, seq![event]);
            match event {
                CopyEventOf::Stat(Ok(stat)) => if stat.st_mode & 0o170000 == 0o040000 {
                    next == (CopyActionView::Stat { path: dest })
                } else {
                    ends_with_error(
                        next,
                        ErrorKind::InvParam,
                        "Source '"@ + text::lossy_text(source) + "' is not a directory"@,
                    )
                },
                CopyEventOf::Stat(Err(e)) => next == (CopyActionView::Finish { result: Err(e) }),
                _ => false,
            }
        }),
{
    let none = Seq::<CopyEventView>::empty();
    assert(seq![event].drop_last() =~= none);
    run_is_tied(source, dest, none);
}

/// The answer to the status of the destination decides: a directory is followed by the opening of the
/// source, anything else ends the copy.
pub proof fn destination_is_followed_by_the_entries(
    source: Seq<u8>,
    dest: Seq<u8>,
    first: CopyEventView,
    event: CopyEventView,
)
    requires
        copy_laws::copy_accepts(crate::copy::copy_start(source, dest), seq![first, event]),
    ensures
        ({
            let next = action_after(source, dest, seq![first, event]);
            match event {
                CopyEventOf::Stat(Ok(stat)) => if stat.st_mode & 0o170000 == 0o040000 {
                    next == (CopyActionView::ReadDir { path: source })
                } else {
                    ends_with_error(
                        next,
                        ErrorKind::InvParam,
                        "Dest '"@ + text::lossy_text(dest) + "' is not a directory"@,
                    )
                },
                CopyEventOf::Stat(Err(e)) => next == (CopyActionView::Finish { result: Err(e) }),
                _ => false,
            }
        }),
{
    let start = crate::copy::copy_start(source, dest);
    let events = seq![first, event];
    assert(events.drop_last() =~= seq![first]);
    assert(seq![first].drop_last() =~= Seq::empty());
    run_is_tied(source, dest, seq![first]);
    let s = copy_laws::copy_run(start, seq![first]);
    assert(copy_laws::copy_run(start, Seq::empty()) == start);
    assert(s.waiting is DestStat || s.waiting is Finished);
    assert(s.accepts(event));
    assert(open_dirs(source, dest, Seq::empty()) == seq![Frame { source, dest }]);
    assert(s.frames == seq![Frame { source, dest }]);
}

/// A directory that was opened is followed by its first entry. One that could not be opened ends the
/// copy, with an error that tells the directory.
pub proof fn opened_directories_are_read(
    source: Seq<u8>,
    dest: Seq<u8>,
    events: Seq<CopyEventView>,
    event: CopyEventView,
    path: Seq<u8>,
)
    requires
        copy_laws::copy_accepts(crate::copy::copy_start(source, dest), events.push(event)),
        action_after(source, dest, events) == (CopyActionView::ReadDir { path }),
    ensures
        ({
            let next = action_after(source, dest, events.push(event));
            match event {
                CopyEventOf::Opened(Ok(_)) => next == CopyActionView::NextEntry,
                CopyEventOf::Opened(Err(failure)) => ends_with_failure(
                    next,
                    "Failed to read directory contents for '"@ + text::lossy_text(path) + "'"@,
                    failure,
                ),
                _ => false,
            }
        }),
{
    assert(events.push(event).drop_last() =~= events);
    run_is_tied(source, dest, events);
}

/// An entry that is shown is looked at. The end of a directory is followed by the next entry of the one
/// around it, or ends the copy if there is none. An entry that could not be read ends the copy, with an
/// error that tells the directory.
pub proof fn shown_entries_are_looked_at(
    source: Seq<u8>,
    dest: Seq<u8>,
    events: Seq<CopyEventView>,
    event: CopyEventView,
)
    requires
        copy_laws::copy_accepts(crate::copy::copy_start(source, dest), events.push(event)),
        action_after(source, dest, events) is NextEntry,
    ensures
        ({
            let next = action_after(source, dest, events.push(event));
            let dirs = open_dirs(source, dest, events);
            match event {
                CopyEventOf::Next(NextEntry::Entry(path)) => next == (CopyActionView::Lstat {
                    path,
                }),
                CopyEventOf::Next(NextEntry::End) => if dirs.len() == 1 {
                    next == (CopyActionView::Finish { result: Ok(()) })
                } else {
                    next == CopyActionView::NextEntry
                },
                CopyEventOf::Next(NextEntry::Failed(failure)) => ends_with_failure(
                    next,
                    "Failed to read directory entry for path: '"@ + text::lossy_text(
                        dirs.last().source,
                    ) + "'"@,
                    failure,
                ),
                _ => false,
            }
        }),
{
    assert(events.push(event).drop_last() =~= events);
    run_is_tied(source, dest, events);
}

/// The status of an entry decides what is done with it. One of several hard links, other than to a
/// directory, is linked: to itself on one device, otherwise to the first copy of its inode if there is
/// one. All else is made by its type.
pub proof fn entries_are_made_by_their_status(
    source: Seq<u8>,
    dest: Seq<u8>,
    events: Seq<CopyEventView>,
    event: CopyEventView,
    path: Seq<u8>,
)
    requires
        copy_laws::copy_accepts(crate::copy::copy_start(source, dest), events.push(event)),
        action_after(source, dest, events) == (CopyActionView::Lstat { path }),
    ensures
        ({
            let next = action_after(source, dest, events.push(event));
            let dir = open_dirs(source, dest, events).last();
            let known = first_copies(source, dest, events);
            match (event, crate::path::file_name_spec(path)) {
                (CopyEventOf::Stat(Err(e)), _) => next == (CopyActionView::Finish {
                    result: Err(e),
                }),
                (CopyEventOf::Stat(Ok(_)), None) => ends_with_error(
                    next,
                    ErrorKind::Upstream,
                    "Failed to extract filename from '"@ + text::lossy_text(path) + "'"@,
                ),
                (CopyEventOf::Stat(Ok(stat)), Some(name)) => {
                    let new = crate::path::join_spec(dir.dest, name);
                    if stat.st_mode & 0o170000 != 0o040000 && stat.st_nlink > 1 && on_one_device(
                        events,
                    ) {
                        next == (CopyActionView::Link { old_file: path, new_file: new })
                    } else if stat.st_mode & 0o170000 != 0o040000 && stat.st_nlink > 1
                        && known.contains_key(stat.st_ino) {
                        next == (CopyActionView::Link {
                            old_file: known[stat.st_ino],
                            new_file: new,
                        })
                    } else {
                        makes_by_type(next, path, stat, new, dir.source)
                    }
                },
                _ => false,
            }
        }),
{
    assert(events.push(event).drop_last() =~= events);
    run_is_tied(source, dest, events);
    match event {
        CopyEventOf::Stat(Ok(stat)) => {
            type_message(stat.st_mode, open_dirs(source, dest, events).last().source);
        },
        _ => {},
    }
}

proof fn type_message(mode: u32, dir: Seq<u8>)
    ensures
        crate::copy::mode_message(mode, dir) == "Encountered invalid source file mode 0x"@
            + text::hex_digits(mode as nat, 8) + " for  '"@ + text::lossy_text(dir) + "'"@,
{
}

/// A hard link that was made is followed by the next entry. One that is refused ends the copy with that
/// error, except between devices where it is not permitted: the entry is then made by its type.
pub proof fn refused_links_are_made_by_type(
    source: Seq<u8>,
    dest: Seq<u8>,
    events: Seq<CopyEventView>,
    event: CopyEventView,
)
    requires
        copy_laws::copy_accepts(crate::copy::copy_start(source, dest), events.push(event)),
        action_after(source, dest, events) is Link,
    ensures
        ({
            let next = action_after(source, dest, events.push(event));
            match event {
                CopyEventOf::Made(Ok(_)) => next == CopyActionView::NextEntry,
                CopyEventOf::Made(Err(e)) => if e.kind == ErrorKind::NotPermitted
                    && !on_one_device(events) {
                    makes_by_type(
                        next,
                        looked_at(source, dest, events),
                        shown_stat(events),
                        new_path(source, dest, events),
                        open_dirs(source, dest, events).last().source,
                    )
                } else {
                    next == (CopyActionView::Finish { result: Err(e) })
                },
                _ => false,
            }
        }),
{
    assert(events.push(event).drop_last() =~= events);
    run_is_tied(source, dest, events);
    type_message(
        shown_stat(events).st_mode,
        open_dirs(source, dest, events).last().source,
    );
}

/// What a symbolic link points to becomes what its copy points to. A link that could not be read ends
/// the copy, with an error that tells the directory.
pub proof fn links_keep_their_target(
    source: Seq<u8>,
    dest: Seq<u8>,
    events: Seq<CopyEventView>,
    event: CopyEventView,
)
    requires
        copy_laws::copy_accepts(crate::copy::copy_start(source, dest), events.push(event)),
        action_after(source, dest, events) is ReadLink,
    ensures
        action_after(source, dest, events) == (CopyActionView::ReadLink {
            path: looked_at(source, dest, events),
        }),
        ({
            let next = action_after(source, dest, events.push(event));
            match event {
                CopyEventOf::Target(Ok(target)) => next == (CopyActionView::Symlink {
                    source: target,
                    dest: new_path(source, dest, events),
                }),
                CopyEventOf::Target(Err(failure)) => ends_with_failure(
                    next,
                    "Failed to read link '"@ + text::lossy_text(
                        open_dirs(source, dest, events).last().source,
                    ) + "'"@,
                    failure,
                ),
                _ => false,
            }
        }),
{
    assert(events.push(event).drop_last() =~= events);
    run_is_tied(source, dest, events);
}

/// A directory that was made is filled with the entries of the directory that was last looked at. One
/// that could not be made ends the copy with that error.
pub proof fn made_directories_are_filled(
    source: Seq<u8>,
    dest: Seq<u8>,
    events: Seq<CopyEventView>,
    event: CopyEventView,
)
    requires
        copy_laws::copy_accepts(crate::copy::copy_start(source, dest), events.push(event)),
        action_after(source, dest, events) is Mkdir,
    ensures
        ({
            let next = action_after(source, dest, events.push(event));
            match event {
                CopyEventOf::Made(Ok(_)) => {
                    let dirs = open_dirs(source, dest, events.push(event));
                    &&& next == (CopyActionView::ReadDir { path: looked_at(source, dest, events) })
                    &&& dirs.drop_last() == open_dirs(source, dest, events)
                    &&& dirs.last() == (Frame {
                        source: looked_at(source, dest, events),
                        dest: new_path(source, dest, events),
                    })
                },
                CopyEventOf::Made(Err(e)) => next == (CopyActionView::Finish { result: Err(e) }),
                _ => false,
            }
        }),
{
    assert(events.push(event).drop_last() =~= events);
    run_is_tied(source, dest, events);
    if event is Made && event->Made_0 is Ok {
        let dirs = open_dirs(source, dest, events.push(event));
        assert(dirs.drop_last() =~= open_dirs(source, dest, events));
    }
}

/// A symbolic link, a named pipe or a device file that was made is followed by the next entry. One that
/// could not be made ends the copy with that error.
pub proof fn made_nodes_are_followed_by_the_next_entry(
    source: Seq<u8>,
    dest: Seq<u8>,
    events: Seq<CopyEventView>,
    event: CopyEventView,
)
    requires
        copy_laws::copy_accepts(crate::copy::copy_start(source, dest), events.push(event)),
        ({
            let action = action_after(source, dest, events);
            action is Symlink || action is Mkfifo || action is Mknod
        }),
    ensures
        ({
            let next = action_after(source, dest, events.push(event));
            match event {
                CopyEventOf::Made(Ok(_)) => next == CopyActionView::NextEntry,
                CopyEventOf::Made(Err(e)) => next == (CopyActionView::Finish { result: Err(e) }),
                _ => false,
            }
        }),
{
    assert(events.push(event).drop_last() =~= events);
    run_is_tied(source, dest, events);
}

/// A regular file that was copied is followed by the next entry. One that could not be copied ends the
/// copy, with an error that tells both paths.
pub proof fn copied_files_are_followed_by_the_next_entry(
    source: Seq<u8>,
    dest: Seq<u8>,
    events: Seq<CopyEventView>,
    event: CopyEventView,
    from: Seq<u8>,
    to: Seq<u8>,
)
    requires
        copy_laws::copy_accepts(crate::copy::copy_start(source, dest), events.push(event)),
        action_after(source, dest, events) == (CopyActionView::CopyFile { source: from, dest: to }),
    ensures
        ({
            let next = action_after(source, dest, events.push(event));
            match event {
                CopyEventOf::Copied(Ok(_)) => next == CopyActionView::NextEntry,
                CopyEventOf::Copied(Err(failure)) => ends_with_failure(
                    next,
                    "Failed to copy '"@ + text::lossy_text(from) + "' to '"@ + text::lossy_text(to)
                        + "'"@,
                    failure,
                ),
                _ => false,
            }
        }),
{
    assert(events.push(event).drop_last() =~= events);
    run_is_tied(source, dest, events);
}

/// Each part of an action is seen as what it holds.
pub proof fn actions_are_seen_as_they_are(action: CopyAction)
    ensures
        match (action, action@) {
            (CopyActionOf::Stat { path: a }, CopyActionOf::Stat { path: b }) => a@ == b,
            (CopyActionOf::ReadDir { path: a }, CopyActionOf::ReadDir { path: b }) => a@ == b,
            (CopyActionOf::NextEntry, CopyActionOf::NextEntry) => true,
            (CopyActionOf::Lstat { path: a }, CopyActionOf::Lstat { path: b }) => a@ == b,
            (
                CopyActionOf::Link { old_file: a, new_file: c },
                CopyActionOf::Link { old_file: b, new_file: d },
            ) => a@ == b && c@ == d,
            (CopyActionOf::ReadLink { path: a }, CopyActionOf::ReadLink { path: b }) => a@ == b,
            (
                CopyActionOf::Symlink { source: a, dest: c },
                CopyActionOf::Symlink { source: b, dest: d },
            ) => a@ == b && c@ == d,
            (CopyActionOf::Mkdir { path: a, mode: m }, CopyActionOf::Mkdir { path: b, mode: n }) => {
                a@ == b && m == n
            },
            (
                CopyActionOf::Mkfifo { path: a, mode: m },
                CopyActionOf::Mkfifo { path: b, mode: n },
            ) => a@ == b && m == n,
            (
                CopyActionOf::Mknod { path: a, mode: m, dev_id: x },
                CopyActionOf::Mknod { path: b, mode: n, dev_id: y },
            ) => a@ == b && m == n && x == y,
            (
                CopyActionOf::CopyFile { source: a, dest: c },
                CopyActionOf::CopyFile { source: b, dest: d },
            ) => a@ == b && c@ == d,
            (
                CopyActionOf::Finish { result: Ok(_) },
                CopyActionOf::Finish { result: Ok(_) },
            ) => true,
            (
                CopyActionOf::Finish { result: Err(a) },
                CopyActionOf::Finish { result: Err(b) },
            ) => a@ == b,
            _ => false,
        },
{
}

/// Each part of an event is seen as what it holds.
pub proof fn events_are_seen_as_they_are(event: CopyEvent)
    ensures
        match (event, event@) {
            (CopyEventOf::Stat(Ok(a)), CopyEventOf::Stat(Ok(b))) => a == b,
            (CopyEventOf::Stat(Err(a)), CopyEventOf::Stat(Err(b))) => a@ == b,
            (CopyEventOf::Opened(a), CopyEventOf::Opened(b)) => a == b,
            (
                CopyEventOf::Next(NextEntry::Entry(a)),
                CopyEventOf::Next(NextEntry::Entry(b)),
            ) => a@ == b,
            (
                CopyEventOf::Next(NextEntry::Failed(a)),
                CopyEventOf::Next(NextEntry::Failed(b)),
            ) => a == b,
            (CopyEventOf::Next(NextEntry::End), CopyEventOf::Next(NextEntry::End)) => true,
            (CopyEventOf::Target(Ok(a)), CopyEventOf::Target(Ok(b))) => a@ == b,
            (CopyEventOf::Target(Err(a)), CopyEventOf::Target(Err(b))) => a == b,
            (CopyEventOf::Made(Ok(_)), CopyEventOf::Made(Ok(_))) => true,
            (CopyEventOf::Made(Err(a)), CopyEventOf::Made(Err(b))) => a@ == b,
            (CopyEventOf::Copied(a), CopyEventOf::Copied(b)) => a == b,
            _ => false,
        },
{
}

} // verus!
