//! What a search asks for, in terms of what it has asked for and been answered before.
//!
//! Nothing here speaks of the state of a search: each law gives the next action from the path and the
//! signal that the search was started with, the actions so far and their answers.

use vstd::prelude::*;

use crate::error::{Cause, ErrorKind, ErrorView, IoFailure};
use crate::fuser::{
    fuser, Fuser, FuserAction, FuserActionOf, FuserActionView, FuserEvent, FuserEventOf,
    FuserEventView, FuserWait,
};
use crate::fuser_laws;
use crate::listing::NextEntry;
use crate::number::PathNumber;
use crate::text;

verus! {

/// The last action of a search after a number of events.
pub open spec fn action_after(
    path: Seq<u8>,
    signal: i32,
    events: Seq<FuserEventView>,
) -> FuserActionView {
    if events.len() == 0 {
        FuserActionOf::ReadProc { path: seq![47u8, 112u8, 114u8, 111u8, 99u8] }
    } else {
        crate::fuser::fuser_step(
            fuser_laws::fuser_run(crate::fuser::fuser_start(path, signal), events.drop_last()),
            events.last(),
        ).1
    }
}

/// The entry of the directory of all processes that was shown last.
pub open spec fn last_process(path: Seq<u8>, signal: i32, events: Seq<FuserEventView>) -> Seq<u8>
    decreases events.len(),
{
    if events.len() == 0 {
        Seq::empty()
    } else {
        match (action_after(path, signal, events.drop_last()), events.last()) {
            (FuserActionOf::NextProcess, FuserEventOf::Next(NextEntry::Entry(entry))) => entry,
            _ => last_process(path, signal, events.drop_last()),
        }
    }
}

/// The processes that a signal could be sent to, in order.
pub open spec fn sent_to(path: Seq<u8>, signal: i32, events: Seq<FuserEventView>) -> Seq<i32>
    decreases events.len(),
{
    if events.len() == 0 {
        Seq::empty()
    } else {
        let before = sent_to(path, signal, events.drop_last());
        match (action_after(path, signal, events.drop_last()), events.last()) {
            (FuserActionOf::Kill { pid, .. }, FuserEventOf::Killed(true)) => before.push(pid),
            _ => before,
        }
    }
}

/// How many answers there have been since the wait, and how many of them say that a process is gone, if
/// there has been a wait.
pub open spec fn answers_since_the_wait(events: Seq<FuserEventView>) -> Option<(nat, nat)>
    decreases events.len(),
{
    if events.len() == 0 {
        None
    } else if events.last() is Slept {
        Some((0, 0))
    } else {
        match (answers_since_the_wait(events.drop_last()), events.last()) {
            (Some((all, gone)), FuserEventOf::Exists(Ok(false))) => Some((all + 1, gone + 1)),
            (Some((all, gone)), _) => Some((all + 1, gone)),
            (None, _) => None,
        }
    }
}

/// The directory of the open files of a process.
pub open spec fn fd_path(process: Seq<u8>) -> Seq<u8> {
    crate::path::join_spec(process, seq![102u8, 100u8])
}

/// The directory of the process with a number.
pub open spec fn process_path(pid: i32) -> Seq<u8> {
    seq![47u8, 112u8, 114u8, 111u8, 99u8, 47u8] + crate::number::decimal_spec(pid as int)
}

/// Tells whether an action ends the search with an error of the kind `Upstream`.
pub open spec fn ends_upstream(action: FuserActionView, message: Seq<char>, cause: Cause) -> bool {
    action == (FuserActionView::Finish {
        result: Err(ErrorView { kind: ErrorKind::Upstream, message, cause: Some(cause) }),
    })
}

/// Tells whether an action ends the search with the error of a file operation that failed.
pub open spec fn ends_with_failure(
    action: FuserActionView,
    message: Seq<char>,
    failure: IoFailure,
) -> bool {
    match failure {
        IoFailure::Os(errno) => ends_upstream(action, message, Cause::Os(errno)),
        IoFailure::Other(io) => ends_upstream(action, message, Cause::Io(io)),
    }
}

/// What a state says of the process that was shown last.
spec fn process_tied(
    pid: i32,
    fd_dir: Seq<u8>,
    path: Seq<u8>,
    signal: i32,
    events: Seq<FuserEventView>,
) -> bool {
    &&& crate::number::path_number_spec(last_process(path, signal, events)) == PathNumber::Number(
        pid,
    )
    &&& fd_dir == fd_path(last_process(path, signal, events))
}

/// How the state of a search goes with what it has asked for and been answered.
spec fn tied(path: Seq<u8>, signal: i32, events: Seq<FuserEventView>) -> bool {
    let s = fuser_laws::fuser_run(crate::fuser::fuser_start(path, signal), events);
    let action = action_after(path, signal, events);
    let since = answers_since_the_wait(events);
    &&& s.wf()
    &&& s.path == path
    &&& s.signal == signal
    &&& s.sent == sent_to(path, signal, events)
    &&& since is Some ==> s.waiting is Alive || s.waiting is Finished
    &&& match s.waiting {
        FuserWait::ProcOpen => events.len() == 0,
        FuserWait::Process => action == FuserActionView::NextProcess,
        FuserWait::FdDir { pid, fd_dir } => {
            &&& action == (FuserActionView::DirExists { path: fd_dir })
            &&& process_tied(pid, fd_dir, path, signal, events)
        },
        FuserWait::FdsOpen { pid, fd_dir } => {
            &&& action == (FuserActionView::ReadFds { path: fd_dir })
            &&& process_tied(pid, fd_dir, path, signal, events)
        },
        FuserWait::Fd { pid, fd_dir } => {
            &&& action == FuserActionView::NextFd
            &&& process_tied(pid, fd_dir, path, signal, events)
        },
        FuserWait::FdStat { pid, fd_dir, fd_path } => {
            &&& action == (FuserActionView::Lstat { path: fd_path })
            &&& process_tied(pid, fd_dir, path, signal, events)
        },
        FuserWait::FdTarget { pid, fd_dir, fd_path } => {
            &&& action == (FuserActionView::ReadLink { path: fd_path })
            &&& process_tied(pid, fd_dir, path, signal, events)
        },
        FuserWait::Kill { pid } => action == (FuserActionView::Kill { pid, signal }),
        FuserWait::Sleep => action is Sleep && since is None,
        FuserWait::Alive { index, gone } => {
            &&& since == Some((index, gone))
            &&& action == (FuserActionView::DirExists { path: process_path(s.sent[index as int]) })
        },
        FuserWait::Finished => action is Finish,
    }
}

proof fn process_paths_agree(pid: i32)
    ensures
        crate::number::proc_path_spec(pid) == process_path(pid),
{
    crate::number::process_paths_are_joined(pid);
}

proof fn run_is_tied(path: Seq<u8>, signal: i32, events: Seq<FuserEventView>)
    requires
        fuser_laws::fuser_accepts(crate::fuser::fuser_start(path, signal), events),
    ensures
        tied(path, signal, events),
    decreases events.len(),
{
    if events.len() > 0 {
        let before = events.drop_last();
        run_is_tied(path, signal, before);
        assert(before.push(events.last()) =~= events);
        step_is_tied(path, signal, before, events.last());
    }
}

proof fn step_is_tied(
    path: Seq<u8>,
    signal: i32,
    before: Seq<FuserEventView>,
    event: FuserEventView,
)
    requires
        tied(path, signal, before),
        fuser_laws::fuser_accepts(crate::fuser::fuser_start(path, signal), before.push(event)),
    ensures
        tied(path, signal, before.push(event)),
{
    let events = before.push(event);
    let start = crate::fuser::fuser_start(path, signal);
    let s = fuser_laws::fuser_run(start, before);
    assert(events.drop_last() =~= before);
    assert(events.last() == event);
    let after = fuser_laws::fuser_run(start, events);
    assert(s.accepts(event));
    assert((after, action_after(path, signal, events)) == crate::fuser::fuser_step(s, event));
    match after.waiting {
        FuserWait::Alive { index, .. } => {
            process_paths_agree(after.sent[index as int]);
        },
        _ => {},
    }
}

/// A search starts by opening the directory of all processes, and each step goes on from there: the
/// action that it gives back is the next one.
pub proof fn steps_give_the_next_action(
    path: &[u8],
    signal: i32,
    events: Seq<FuserEventView>,
    search: Fuser,
    event: FuserEvent,
    first: (Fuser, FuserAction),
    r: (Fuser, FuserAction),
)
    requires
        call_ensures(fuser, (path, signal), first),
        search@ == fuser_laws::fuser_run(first.0@, events),
        call_ensures(Fuser::step, (search, event), r),
    ensures
        first.1@ == (FuserActionView::ReadProc { path: seq![47u8, 112u8, 114u8, 111u8, 99u8] }),
        first.1@ == action_after(path@, signal, Seq::empty()),
        r.1@ == action_after(path@, signal, events.push(event@)),
        r.0@ == fuser_laws::fuser_run(first.0@, events.push(event@)),
{
    assert(events.push(event@).drop_last() =~= events);
}

/// The directory of all processes is read once it has been opened. If it cannot be, the search ends.
pub proof fn processes_are_read(path: Seq<u8>, signal: i32, event: FuserEventView)
    requires
        fuser_laws::fuser_accepts(crate::fuser::fuser_start(path, signal), seq![event]),
    ensures
        ({
            let next = action_after(path, signal, seq![event]);
            match event {
                FuserEventOf::Opened(Ok(_)) => next == FuserActionView::NextProcess,
                FuserEventOf::Opened(Err(failure)) => ends_with_failure(
                    next,
                    "Failed to read directory '/proc'"@,
                    failure,
                ),
                _ => false,
            }
        }),
{
    let none = Seq::<FuserEventView>::empty();
    assert(seq![event].drop_last() =~= none);
    run_is_tied(path, signal, none);
}

/// An entry of the directory of all processes that ends in a number is looked into, one that does not is
/// passed over, and one whose number cannot be read ends the search. At the end of the list the search
/// waits half a second if a signal could be sent to somebody, and ends with nobody gone otherwise.
pub proof fn processes_are_looked_into(
    path: Seq<u8>,
    signal: i32,
    events: Seq<FuserEventView>,
    event: FuserEventView,
)
    requires
        fuser_laws::fuser_accepts(crate::fuser::fuser_start(path, signal), events.push(event)),
        action_after(path, signal, events) is NextProcess,
    ensures
        ({
            let next = action_after(path, signal, events.push(event));
            match event {
                FuserEventOf::Next(NextEntry::Entry(entry)) => match crate::number::path_number_spec(
                    entry,
                ) {
                    PathNumber::Absent => next == FuserActionView::NextProcess,
                    PathNumber::Unreadable(failure) => ends_upstream(
                        next,
                        "Failed to parse pid from path '"@ + text::lossy_text(entry) + "'"@,
                        Cause::Parse(failure),
                    ),
                    PathNumber::Number(_) => next == (FuserActionView::DirExists {
                        path: fd_path(entry),
                    }),
                },
                FuserEventOf::Next(NextEntry::End) => if sent_to(path, signal, events).len() == 0 {
                    next == (FuserActionView::Finish { result: Ok(0) })
                } else {
                    next == (FuserActionView::Sleep { millis: 500 })
                },
                FuserEventOf::Next(NextEntry::Failed(failure)) => ends_with_failure(
                    next,
                    "Failed to read directory entry for '/proc'"@,
                    failure,
                ),
                _ => false,
            }
        }),
{
    assert(events.push(event).drop_last() =~= events);
    run_is_tied(path, signal, events);
}

/// Before the wait, a directory that exists is opened, and one that does not is passed over: it is that
/// of the open files of the process that was shown last.
pub proof fn directories_of_open_files_are_opened(
    path: Seq<u8>,
    signal: i32,
    events: Seq<FuserEventView>,
    event: FuserEventView,
)
    requires
        fuser_laws::fuser_accepts(crate::fuser::fuser_start(path, signal), events.push(event)),
        action_after(path, signal, events) is DirExists,
        answers_since_the_wait(events) is None,
    ensures
        action_after(path, signal, events) == (FuserActionView::DirExists {
            path: fd_path(last_process(path, signal, events)),
        }),
        ({
            let next = action_after(path, signal, events.push(event));
            match event {
                FuserEventOf::Exists(Ok(true)) => next == (FuserActionView::ReadFds {
                    path: fd_path(last_process(path, signal, events)),
                }),
                FuserEventOf::Exists(Ok(false)) => next == FuserActionView::NextProcess,
                FuserEventOf::Exists(Err(e)) => next == (FuserActionView::Finish { result: Err(e) }),
                _ => false,
            }
        }),
{
    assert(events.push(event).drop_last() =~= events);
    run_is_tied(path, signal, events);
}

/// The directory of open files is read once it has been opened. If it cannot be, the search ends, with an
/// error that tells the directory.
pub proof fn open_files_are_read(
    path: Seq<u8>,
    signal: i32,
    events: Seq<FuserEventView>,
    event: FuserEventView,
    dir: Seq<u8>,
)
    requires
        fuser_laws::fuser_accepts(crate::fuser::fuser_start(path, signal), events.push(event)),
        action_after(path, signal, events) == (FuserActionView::ReadFds { path: dir }),
    ensures
        ({
            let next = action_after(path, signal, events.push(event));
            match event {
                FuserEventOf::Opened(Ok(_)) => next == FuserActionView::NextFd,
                FuserEventOf::Opened(Err(failure)) => ends_with_failure(
                    next,
                    "Failed to read directory '"@ + text::lossy_text(dir) + "'"@,
                    failure,
                ),
                _ => false,
            }
        }),
{
    assert(events.push(event).drop_last() =~= events);
    run_is_tied(path, signal, events);
}

/// An entry for an open file that ends in a number is looked at, one that does not is passed over, and
/// one whose number cannot be read ends the search. After the last comes the next process.
pub proof fn open_files_are_looked_at(
    path: Seq<u8>,
    signal: i32,
    events: Seq<FuserEventView>,
    event: FuserEventView,
)
    requires
        fuser_laws::fuser_accepts(crate::fuser::fuser_start(path, signal), events.push(event)),
        action_after(path, signal, events) is NextFd,
    ensures
        ({
            let next = action_after(path, signal, events.push(event));
            match event {
                FuserEventOf::Next(NextEntry::Entry(entry)) => match crate::number::path_number_spec(
                    entry,
                ) {
                    PathNumber::Absent => next == FuserActionView::NextFd,
                    PathNumber::Unreadable(failure) => ends_upstream(
                        next,
                        "Failed to parse fd from path '"@ + text::lossy_text(entry) + "'"@,
                        Cause::Parse(failure),
                    ),
                    PathNumber::Number(_) => next == (FuserActionView::Lstat { path: entry }),
                },
                FuserEventOf::Next(NextEntry::End) => next == FuserActionView::NextProcess,
                FuserEventOf::Next(NextEntry::Failed(failure)) => ends_with_failure(
                    next,
                    "Failed to read directory entry for '"@ + text::lossy_text(
                        fd_path(last_process(path, signal, events)),
                    ) + "'"@,
                    failure,
                ),
                _ => false,
            }
        }),
{
    assert(events.push(event).drop_last() =~= events);
    run_is_tied(path, signal, events);
}

/// An entry for an open file is read if it is a symbolic link. Otherwise the search ends, with an error
/// that tells the entry.
pub proof fn open_files_must_be_links(
    path: Seq<u8>,
    signal: i32,
    events: Seq<FuserEventView>,
    event: FuserEventView,
    entry: Seq<u8>,
)
    requires
        fuser_laws::fuser_accepts(crate::fuser::fuser_start(path, signal), events.push(event)),
        action_after(path, signal, events) == (FuserActionView::Lstat { path: entry }),
    ensures
        ({
            let next = action_after(path, signal, events.push(event));
            match event {
                FuserEventOf::Stat(Ok(stat)) => if stat.st_mode & 0o170000 == 0o120000 {
                    next == (FuserActionView::ReadLink { path: entry })
                } else {
                    next == (FuserActionView::Finish {
                        result: Err(
                            ErrorView {
                                kind: ErrorKind::InvState,
                                message: "file '"@ + text::lossy_text(entry) + "' is not a link"@,
                                cause: None,
                            },
                        ),
                    })
                },
                FuserEventOf::Stat(Err(e)) => next == (FuserActionView::Finish { result: Err(e) }),
                _ => false,
            }
        }),
{
    assert(events.push(event).drop_last() =~= events);
    run_is_tied(path, signal, events);
}

/// A process that has a file at or below the path of the search open is sent the signal of the search:
/// it is the process that was shown last. Otherwise its next open file is looked at.
pub proof fn users_are_sent_the_signal(
    path: Seq<u8>,
    signal: i32,
    events: Seq<FuserEventView>,
    event: FuserEventView,
    entry: Seq<u8>,
)
    requires
        fuser_laws::fuser_accepts(crate::fuser::fuser_start(path, signal), events.push(event)),
        action_after(path, signal, events) == (FuserActionView::ReadLink { path: entry }),
    ensures
        ({
            let next = action_after(path, signal, events.push(event));
            let process = last_process(path, signal, events);
            match event {
                FuserEventOf::Target(Ok(target)) => if crate::path::starts_with_spec(target, path) {
                    &&& next matches FuserActionOf::Kill { pid, signal: sent }
                    &&& sent == signal
                    &&& crate::number::path_number_spec(process) == PathNumber::Number(pid)
                } else {
                    next == FuserActionView::NextFd
                },
                FuserEventOf::Target(Err(failure)) => ends_with_failure(
                    next,
                    "Failed to read link '"@ + text::lossy_text(entry) + "'"@,
                    failure,
                ),
                _ => false,
            }
        }),
{
    assert(events.push(event).drop_last() =~= events);
    run_is_tied(path, signal, events);
}

/// Whatever the system answers, no other signal is ever sent than the one that the search was started
/// with.
pub proof fn no_other_signal_is_sent(
    path: Seq<u8>,
    signal: i32,
    events: Seq<FuserEventView>,
    event: FuserEventView,
)
    requires
        fuser_laws::fuser_accepts(crate::fuser::fuser_start(path, signal), events.push(event)),
    ensures
        crate::fuser::fuser_step(
            fuser_laws::fuser_run(crate::fuser::fuser_start(path, signal), events),
            event,
        ).1 matches FuserActionOf::Kill { signal: sent, .. } ==> sent == signal,
{
    assert(events.push(event).drop_last() =~= events);
    run_is_tied(path, signal, events);
}

/// After a signal comes the next process, whether the signal could be sent or not.
pub proof fn one_signal_for_each_process(
    path: Seq<u8>,
    signal: i32,
    events: Seq<FuserEventView>,
    event: FuserEventView,
)
    requires
        fuser_laws::fuser_accepts(crate::fuser::fuser_start(path, signal), events.push(event)),
        action_after(path, signal, events) is Kill,
    ensures
        event is Killed,
        action_after(path, signal, events.push(event)) == FuserActionView::NextProcess,
{
    assert(events.push(event).drop_last() =~= events);
    run_is_tied(path, signal, events);
}

/// After the wait the first process that a signal could be sent to is looked for.
pub proof fn the_first_is_looked_for_after_the_wait(
    path: Seq<u8>,
    signal: i32,
    events: Seq<FuserEventView>,
    event: FuserEventView,
)
    requires
        fuser_laws::fuser_accepts(crate::fuser::fuser_start(path, signal), events.push(event)),
        action_after(path, signal, events) is Sleep,
    ensures
        event is Slept,
        sent_to(path, signal, events).len() > 0,
        action_after(path, signal, events.push(event)) == (FuserActionView::DirExists {
            path: process_path(sent_to(path, signal, events)[0]),
        }),
{
    assert(events.push(event).drop_last() =~= events);
    run_is_tied(path, signal, events);
    process_paths_agree(sent_to(path, signal, events)[0]);
}

/// After the wait each process that a signal could be sent to is looked for in its turn, so that each
/// answer is about the next of them. The search ends with the number of answers that say that the
/// process is gone.
pub proof fn each_is_looked_for_in_turn(
    path: Seq<u8>,
    signal: i32,
    events: Seq<FuserEventView>,
    event: FuserEventView,
)
    requires
        fuser_laws::fuser_accepts(crate::fuser::fuser_start(path, signal), events.push(event)),
        answers_since_the_wait(events) is Some,
    ensures
        ({
            let next = action_after(path, signal, events.push(event));
            let sent = sent_to(path, signal, events);
            let (all, gone) = answers_since_the_wait(events)->0;
            &&& all < sent.len()
            &&& action_after(path, signal, events) == (FuserActionView::DirExists {
                path: process_path(sent[all as int]),
            })
            &&& match event {
                FuserEventOf::Exists(Ok(there)) => {
                    let count: nat = if there {
                        gone
                    } else {
                        gone + 1
                    };
                    if all + 1 < sent.len() {
                        next == (FuserActionView::DirExists {
                            path: process_path(sent[all as int + 1]),
                        })
                    } else {
                        next == (FuserActionView::Finish { result: Ok(count) })
                    }
                },
                FuserEventOf::Exists(Err(e)) => next == (FuserActionView::Finish { result: Err(e) }),
                _ => false,
            }
        }),
{
    assert(events.push(event).drop_last() =~= events);
    run_is_tied(path, signal, events);
    let sent = sent_to(path, signal, events);
    let all = (answers_since_the_wait(events)->0).0;
    if all + 1 < sent.len() {
        process_paths_agree(sent[all as int + 1]);
    }
}

/// Each part of an action is seen as what it holds.
pub proof fn actions_are_seen_as_they_are(action: FuserAction)
    ensures
        match (action, action@) {
            (FuserActionOf::ReadProc { path: a }, FuserActionOf::ReadProc { path: b }) => a@ == b,
            (FuserActionOf::NextProcess, FuserActionOf::NextProcess) => true,
            (FuserActionOf::DirExists { path: a }, FuserActionOf::DirExists { path: b }) => a@ == b,
            (FuserActionOf::ReadFds { path: a }, FuserActionOf::ReadFds { path: b }) => a@ == b,
            (FuserActionOf::NextFd, FuserActionOf::NextFd) => true,
            (FuserActionOf::Lstat { path: a }, FuserActionOf::Lstat { path: b }) => a@ == b,
            (FuserActionOf::ReadLink { path: a }, FuserActionOf::ReadLink { path: b }) => a@ == b,
            (
                FuserActionOf::Kill { pid: a, signal: c },
                FuserActionOf::Kill { pid: b, signal: d },
            ) => a == b && c == d,
            (FuserActionOf::Sleep { millis: a }, FuserActionOf::Sleep { millis: b }) => a == b,
            (
                FuserActionOf::Finish { result: Ok(a) },
                FuserActionOf::Finish { result: Ok(b) },
            ) => a == b,
            (
                FuserActionOf::Finish { result: Err(a) },
                FuserActionOf::Finish { result: Err(b) },
            ) => a@ == b,
            _ => false,
        },
{
}

/// Each part of an event is seen as what it holds.
pub proof fn events_are_seen_as_they_are(event: FuserEvent)
    ensures
        match (event, event@) {
            (FuserEventOf::Opened(a), FuserEventOf::Opened(b)) => a == b,
            (
                FuserEventOf::Next(NextEntry::Entry(a)),
                FuserEventOf::Next(NextEntry::Entry(b)),
            ) => a@ == b,
            (
                FuserEventOf::Next(NextEntry::Failed(a)),
                FuserEventOf::Next(NextEntry::Failed(b)),
            ) => a == b,
            (FuserEventOf::Next(NextEntry::End), FuserEventOf::Next(NextEntry::End)) => true,
            (FuserEventOf::Exists(Ok(a)), FuserEventOf::Exists(Ok(b))) => a == b,
            (FuserEventOf::Exists(Err(a)), FuserEventOf::Exists(Err(b))) => a@ == b,
            (FuserEventOf::Stat(Ok(a)), FuserEventOf::Stat(Ok(b))) => a == b,
            (FuserEventOf::Stat(Err(a)), FuserEventOf::Stat(Err(b))) => a@ == b,
            (FuserEventOf::Target(Ok(a)), FuserEventOf::Target(Ok(b))) => a@ == b,
            (FuserEventOf::Target(Err(a)), FuserEventOf::Target(Err(b))) => a == b,
            (FuserEventOf::Killed(a), FuserEventOf::Killed(b)) => a == b,
            (FuserEventOf::Slept, FuserEventOf::Slept) => true,
            _ => false,
        },
{
}

} // verus!
