//! What a search that has ended well has found.

use vstd::prelude::*;

use crate::fuser::{FuserActionView, FuserEventOf, FuserEventView, FuserView, FuserWait};
use crate::fuser_laws;
use crate::fuser_laws::{OpenFile, Process};
use crate::listing::NextEntry;
use crate::number::PathNumber;
use crate::stat::{FileStat, S_IFLNK};

verus! {

/// Tells whether a number of events take a search to its end, with a number of processes that are gone.
pub open spec fn ends_with(s: FuserView, events: Seq<FuserEventView>, count: nat) -> bool {
    &&& events.len() > 0
    &&& fuser_laws::fuser_accepts(s, events)
    &&& crate::fuser::fuser_step(fuser_laws::fuser_run(s, events.drop_last()), events.last()).1 == (
    FuserActionView::Finish { result: Ok(count) })
}

/// Tells whether a number of events are what the system answers when it shows a list of processes and,
/// for those that were signalled, which of them are gone after the wait.
pub open spec fn shows_search(
    events: Seq<FuserEventView>,
    path: Seq<u8>,
    list: Seq<Process>,
    gone: Seq<bool>,
) -> bool {
    let found = fuser_laws::search_answers(list, path).push(FuserEventOf::Next(NextEntry::End));
    &&& forall|i: int| 0 <= i < list.len() ==> fuser_laws::process_fits(#[trigger] list[i], path)
    &&& gone.len() == fuser_laws::signalled(list, path).len()
    &&& events == if gone.len() == 0 {
        found
    } else {
        found.push(FuserEventOf::Slept) + fuser_laws::gone_answers(gone)
    }
}

/// A search that ends well either ends with its next step or goes on and ends well.
proof fn next_step(s: FuserView, events: Seq<FuserEventView>, count: nat)
    requires
        s.wf(),
        ends_with(s, events, count),
    ensures
        ({
            let (after, action) = crate::fuser::fuser_step(s, events[0]);
            &&& s.accepts(events[0])
            &&& after.wf()
            &&& if after.waiting is Finished {
                events.len() == 1 && action == (FuserActionView::Finish { result: Ok(count) })
            } else {
                ends_with(after, events.drop_first(), count)
            }
        }),
{
    let (after, action) = crate::fuser::fuser_step(s, events[0]);
    let first = seq![events[0]];
    let rest = events.drop_first();
    let before = events.drop_last();
    let none = Seq::<FuserEventView>::empty();
    assert(first + rest =~= events);
    fuser_laws::run_in_parts(s, first, rest);
    assert(first.drop_last() =~= none);
    assert(fuser_laws::fuser_run(s, none) == s);
    assert(fuser_laws::fuser_run(s, first) == after);
    fuser_laws::fuser_ends_with_finish(s, events[0]);
    if rest.len() == 0 {
        assert(before =~= none);
    } else {
        assert(first + rest.drop_last() =~= before);
        fuser_laws::run_in_parts(s, first, rest.drop_last());
        let second = seq![rest[0]];
        assert(second + rest.drop_first() =~= rest);
        fuser_laws::run_in_parts(after, second, rest.drop_first());
        assert(second.drop_last() =~= none);
        assert(fuser_laws::fuser_run(after, none) == after);
        assert(after.accepts(rest[0]));
    }
}

proof fn glue(a: Seq<FuserEventView>, b: Seq<FuserEventView>, c: Seq<FuserEventView>)
    ensures
        a + (b + c) == a + b + c,
{
    assert(a + (b + c) =~= a + b + c);
}

proof fn split_first(events: Seq<FuserEventView>)
    requires
        events.len() > 0,
    ensures
        events == seq![events[0]] + events.drop_first(),
{
    assert(events =~= seq![events[0]] + events.drop_first());
}

/// The next entry for an open file, or the end of them.
proof fn fd_is_shown(
    s: FuserView,
    events: Seq<FuserEventView>,
    count: nat,
    pid: i32,
    fd_dir: Seq<u8>,
)
    requires
        s.wf(),
        s.waiting == (FuserWait::<Seq<u8>, nat>::Fd { pid, fd_dir }),
        ends_with(s, events, count),
    ensures
        match events[0] {
            FuserEventOf::Next(NextEntry::End) => ends_with(
                fuser_laws::at_process(s, s.sent),
                events.drop_first(),
                count,
            ),
            FuserEventOf::Next(NextEntry::Entry(entry)) => crate::number::path_number_spec(
                entry,
            ) is Absent ==> ends_with(s, events.drop_first(), count),
            _ => false,
        },
{
    next_step(s, events, count);
    assert(s.wait(s.waiting) == s);
}

/// The outcome of a signal.
proof fn signal_is_sent(s: FuserView, events: Seq<FuserEventView>, count: nat, pid: i32)
    requires
        s.wf(),
        s.waiting == (FuserWait::<Seq<u8>, nat>::Kill { pid }),
        ends_with(s, events, count),
    ensures
        events[0] matches FuserEventOf::Killed(killable) && ends_with(
            fuser_laws::at_process(s, fuser_laws::with_sent(s.sent, true, killable, pid)),
            events.drop_first(),
            count,
        ),
{
    next_step(s, events, count);
}

/// What the system shows of an open file.
spec fn file_shown(file: OpenFile) -> Seq<FuserEventView> {
    let shown = FuserEventView::Next(NextEntry::Entry(file.path));
    if crate::number::path_number_spec(file.path) is Number {
        seq![
            shown,
            FuserEventView::Stat(Ok(file.stat)),
            FuserEventView::Target(Ok(file.target)),
        ]
    } else {
        seq![shown]
    }
}

/// An open file that is not at or below the path, before others.
proof fn file_is_passed(
    file: OpenFile,
    files: Seq<OpenFile>,
    path: Seq<u8>,
    killable: bool,
    last: Seq<FuserEventView>,
)
    requires
        fuser_laws::file_fits(file),
        !fuser_laws::file_is_below(file, path),
        fuser_laws::files_fit(files, path),
    ensures
        ({
            let all = seq![file] + files;
            &&& fuser_laws::files_fit(all, path)
            &&& fuser_laws::files_use(all, path) == fuser_laws::files_use(files, path)
            &&& file_shown(file) + (fuser_laws::files_answers(files, path, killable) + last)
                == fuser_laws::files_answers(all, path, killable) + last
        }),
{
    let all = seq![file] + files;
    assert(all.drop_first() =~= files);
    assert(all[0] == file);
    fuser_laws::files_use_in_parts(all, path);
    glue(file_shown(file), fuser_laws::files_answers(files, path, killable), last);
}

/// An open file that is at or below the path.
proof fn file_is_found(
    file: OpenFile,
    path: Seq<u8>,
    killable: bool,
    last: Seq<FuserEventView>,
)
    requires
        fuser_laws::file_fits(file),
        fuser_laws::file_is_below(file, path),
    ensures
        fuser_laws::files_fit(seq![file], path),
        fuser_laws::files_use(seq![file], path),
        file_shown(file) + (seq![FuserEventView::Killed(killable)] + last)
            == fuser_laws::files_answers(seq![file], path, killable) + last,
{
    let all = seq![file];
    assert(all[0] == file);
    assert(fuser_laws::file_is_below(all[0], path));
    glue(file_shown(file), seq![FuserEventView::Killed(killable)], last);
    assert(file_shown(file) + seq![FuserEventView::Killed(killable)]
        =~= fuser_laws::files_answers(all, path, killable));
}

/// The open files of a process: what the system answers, up to the next process. Gives the files,
/// whether a signal could be sent, and the answers after that.
proof fn files_are_shown(
    s: FuserView,
    events: Seq<FuserEventView>,
    count: nat,
    pid: i32,
    fd_dir: Seq<u8>,
) -> (r: (Seq<OpenFile>, bool, Seq<FuserEventView>))
    requires
        s.wf(),
        s.waiting == (FuserWait::<Seq<u8>, nat>::Fd { pid, fd_dir }),
        ends_with(s, events, count),
    ensures
        fuser_laws::files_fit(r.0, s.path),
        events == fuser_laws::files_answers(r.0, s.path, r.1) + r.2,
        r.2.len() < events.len(),
        ends_with(
            fuser_laws::at_process(
                s,
                fuser_laws::with_sent(
                    s.sent,
                    fuser_laws::files_use(r.0, s.path),
                    r.1,
                    pid,
                ),
            ),
            r.2,
            count,
        ),
    decreases events.len(),
{
    let none = Seq::<OpenFile>::empty();
    let rest = events.drop_first();
    fd_is_shown(s, events, count, pid, fd_dir);
    split_first(events);
    if events[0] == FuserEventView::Next(NextEntry::End) {
        assert(!fuser_laws::files_use(none, s.path));
        (none, true, rest)
    } else {
        let entry = events[0]->Next_0->Entry_0;
        if crate::number::path_number_spec(entry) is Absent {
            let file = OpenFile { path: entry, stat: arbitrary(), target: Seq::empty() };
            let (files, killable, last) = files_are_shown(s, rest, count, pid, fd_dir);
            file_is_passed(file, files, s.path, killable, last);
            (seq![file] + files, killable, last)
        } else {
            let (stat, target, after) = file_is_shown(s, events, count, pid, fd_dir);
            let file = OpenFile { path: entry, stat, target };
            if crate::path::starts_with_spec(target, s.path) {
                let signalling = s.wait(FuserWait::Kill { pid });
                signal_is_sent(signalling, after, count, pid);
                split_first(after);
                let killable = after[0]->Killed_0;
                let last = after.drop_first();
                file_is_found(file, s.path, killable, last);
                let sent = fuser_laws::with_sent(s.sent, true, killable, pid);
                assert(fuser_laws::at_process(signalling, sent) == fuser_laws::at_process(s, sent));
                (seq![file], killable, last)
            } else {
                let (files, killable, last) = files_are_shown(s, after, count, pid, fd_dir);
                file_is_passed(file, files, s.path, killable, last);
                (seq![file] + files, killable, last)
            }
        }
    }
}

/// An open file with a number: its status and the file that is open, and the answers after that.
proof fn file_is_shown(
    s: FuserView,
    events: Seq<FuserEventView>,
    count: nat,
    pid: i32,
    fd_dir: Seq<u8>,
) -> (r: (FileStat, Seq<u8>, Seq<FuserEventView>))
    requires
        s.wf(),
        s.waiting == (FuserWait::<Seq<u8>, nat>::Fd { pid, fd_dir }),
        ends_with(s, events, count),
        events[0] is Next,
        events[0]->Next_0 is Entry,
        !(crate::number::path_number_spec(events[0]->Next_0->Entry_0) is Absent),
    ensures
        ({
            let entry = events[0]->Next_0->Entry_0;
            &&& crate::number::path_number_spec(entry) is Number
            &&& r.0.file_type() == S_IFLNK
            &&& events == seq![
                FuserEventView::Next(NextEntry::Entry(entry)),
                FuserEventView::Stat(Ok(r.0)),
                FuserEventView::Target(Ok(r.1)),
            ] + r.2
            &&& if crate::path::starts_with_spec(r.1, s.path) {
                ends_with(s.wait(FuserWait::Kill { pid }), r.2, count)
            } else {
                ends_with(s, r.2, count)
            }
        }),
{
    let entry = events[0]->Next_0->Entry_0;
    let rest1 = events.drop_first();
    let s1 = s.wait(FuserWait::FdStat { pid, fd_dir, fd_path: entry });
    next_step(s, events, count);
    assert(crate::fuser::fuser_step(s, events[0]).0 == s1);
    next_step(s1, rest1, count);
    let stat = rest1[0]->Stat_0->Ok_0;
    assert(rest1[0] == FuserEventView::Stat(Ok(stat)));
    let s2 = s.wait(FuserWait::FdTarget { pid, fd_dir, fd_path: entry });
    let rest2 = rest1.drop_first();
    assert(crate::fuser::fuser_step(s1, rest1[0]).0 == s2);
    next_step(s2, rest2, count);
    let target = rest2[0]->Target_0->Ok_0;
    assert(rest2[0] == FuserEventView::Target(Ok(target)));
    let rest3 = rest2.drop_first();
    assert(events =~= seq![events[0], rest1[0], rest2[0]] + rest3);
    if !crate::path::starts_with_spec(target, s.path) {
        assert(crate::fuser::fuser_step(s2, rest2[0]).0 == s);
    }
    (stat, target, rest3)
}

/// The next entry of the directory of all processes, unless it is the last.
proof fn entry_is_shown(s: FuserView, events: Seq<FuserEventView>, count: nat)
    requires
        s.wf(),
        s.waiting is Process,
        ends_with(s, events, count),
        events[0] != FuserEventView::Next(NextEntry::End),
    ensures
        events[0] matches FuserEventOf::Next(NextEntry::Entry(entry)) && match
        crate::number::path_number_spec(entry) {
            PathNumber::Absent => ends_with(s, events.drop_first(), count),
            PathNumber::Unreadable(_) => false,
            PathNumber::Number(pid) => ends_with(
                s.wait(FuserWait::FdDir { pid, fd_dir: crate::fuser::fd_dir_spec(entry) }),
                events.drop_first(),
                count,
            ),
        },
{
    next_step(s, events, count);
    assert(s.wait(s.waiting) == s);
}

/// Whether a process has a directory of open files, and that it is opened.
proof fn fd_dir_is_opened(
    s: FuserView,
    events: Seq<FuserEventView>,
    count: nat,
    pid: i32,
    fd_dir: Seq<u8>,
)
    requires
        s.wf(),
        s.waiting == (FuserWait::<Seq<u8>, nat>::FdDir { pid, fd_dir }),
        ends_with(s, events, count),
    ensures
        events[0] matches FuserEventOf::Exists(Ok(there)) && if there {
            &&& events.drop_first().len() > 0
            &&& events.drop_first()[0] == FuserEventView::Opened(Ok(()))
            &&& ends_with(
                s.wait(FuserWait::Fd { pid, fd_dir }),
                events.drop_first().drop_first(),
                count,
            )
        } else {
            ends_with(s.wait(FuserWait::Process), events.drop_first(), count)
        },
{
    next_step(s, events, count);
    let there = events[0]->Exists_0->Ok_0;
    assert(events[0] == FuserEventView::Exists(Ok(there)));
    if there {
        let opening = s.wait(FuserWait::FdsOpen { pid, fd_dir });
        let rest = events.drop_first();
        assert(crate::fuser::fuser_step(s, events[0]).0 == opening);
        next_step(opening, rest, count);
        let opened = rest[0]->Opened_0->Ok_0;
        assert(opened == ());
        assert(rest[0] == FuserEventView::Opened(Ok(())));
    }
}

/// An entry of the directory of all processes: what the system answers, up to the next one. Gives the
/// entry, the processes that have been signalled then, and the answers after that.
proof fn process_is_shown(s: FuserView, events: Seq<FuserEventView>, count: nat) -> (r: (
    Process,
    Seq<i32>,
    Seq<FuserEventView>,
))
    requires
        s.wf(),
        s.waiting is Process,
        ends_with(s, events, count),
        events[0] != FuserEventView::Next(NextEntry::End),
    ensures
        fuser_laws::process_fits(r.0, s.path),
        events == fuser_laws::process_answers(r.0, s.path) + r.2,
        r.2.len() < events.len(),
        ends_with(fuser_laws::at_process(s, r.1), r.2, count),
{
    entry_is_shown(s, events, count);
    split_first(events);
    let entry = events[0]->Next_0->Entry_0;
    let rest1 = events.drop_first();
    assert(fuser_laws::at_process(s, s.sent) == s);
    if crate::number::path_number_spec(entry) is Absent {
        (Process { path: entry, files: None, killable: true }, s.sent, rest1)
    } else {
        let pid = crate::number::path_number_spec(entry)->Number_0;
        let fd_dir = crate::fuser::fd_dir_spec(entry);
        let s1 = s.wait(FuserWait::FdDir { pid, fd_dir });
        fd_dir_is_opened(s1, rest1, count, pid, fd_dir);
        split_first(rest1);
        let there = rest1[0]->Exists_0->Ok_0;
        let rest2 = rest1.drop_first();
        if !there {
            assert(s1.wait(FuserWait::Process) == s);
            glue(seq![events[0]], seq![rest1[0]], rest2);
            assert(seq![events[0]] + seq![rest1[0]] =~= seq![events[0], rest1[0]]);
            (Process { path: entry, files: None, killable: true }, s.sent, rest2)
        } else {
            let s2 = s.wait(FuserWait::Fd { pid, fd_dir });
            let rest3 = rest2.drop_first();
            assert(s1.wait(FuserWait::Fd { pid, fd_dir }) == s2);
            let (files, killable, last) = files_are_shown(s2, rest3, count, pid, fd_dir);
            let sent = fuser_laws::with_sent(
                s.sent,
                fuser_laws::files_use(files, s.path),
                killable,
                pid,
            );
            assert(fuser_laws::at_process(s2, sent) == fuser_laws::at_process(s, sent));
            let shown = seq![
                events[0],
                FuserEventView::Exists(Ok(true)),
                FuserEventView::Opened(Ok(())),
            ];
            assert(events =~= shown + rest3);
            glue(shown, fuser_laws::files_answers(files, s.path, killable), last);
            (Process { path: entry, files: Some(files), killable }, sent, last)
        }
    }
}

/// The first of a list of processes and the others.
proof fn processes_in_parts(p: Process, list: Seq<Process>, path: Seq<u8>)
    ensures
        fuser_laws::processes_answers(seq![p] + list, path) == fuser_laws::process_answers(p, path)
            + fuser_laws::processes_answers(list, path),
    decreases list.len(),
{
    let all = seq![p] + list;
    let none = Seq::<Process>::empty();
    assert(fuser_laws::processes_answers(none, path) == Seq::<FuserEventView>::empty());
    if list.len() == 0 {
        assert(all.drop_last() =~= none);
        assert(list =~= none);
    } else {
        processes_in_parts(p, list.drop_last(), path);
        assert(all.drop_last() =~= seq![p] + list.drop_last());
        assert(all.last() == list.last());
    }
    assert(fuser_laws::processes_answers(all, path) =~= fuser_laws::process_answers(p, path)
        + fuser_laws::processes_answers(list, path));
}

/// All entries of the directory of all processes: what the system answers, up to the end of the list.
/// Gives the entries and the answers after that.
proof fn processes_are_shown(s: FuserView, events: Seq<FuserEventView>, count: nat) -> (r: (
    Seq<Process>,
    Seq<FuserEventView>,
))
    requires
        s.wf(),
        s.waiting is Process,
        ends_with(s, events, count),
    ensures
        forall|i: int| 0 <= i < r.0.len() ==> fuser_laws::process_fits(#[trigger] r.0[i], s.path),
        events == fuser_laws::processes_answers(r.0, s.path) + seq![
            FuserEventView::Next(NextEntry::End),
        ] + r.1,
    decreases events.len(),
{
    let end = FuserEventView::Next(NextEntry::End);
    if events[0] == end {
        let none = Seq::<Process>::empty();
        let rest = events.drop_first();
        assert(events =~= fuser_laws::processes_answers(none, s.path) + seq![end] + rest);
        (none, rest)
    } else {
        let (p, sent, rest) = process_is_shown(s, events, count);
        let (list, last) = processes_are_shown(fuser_laws::at_process(s, sent), rest, count);
        let all = seq![p] + list;
        processes_in_parts(p, list, s.path);
        let answers = fuser_laws::process_answers(p, s.path);
        let others = fuser_laws::processes_answers(list, s.path);
        glue(others, seq![end], last);
        glue(answers, others, seq![end] + last);
        glue(answers + others, seq![end], last);
        assert forall|i: int| 0 <= i < all.len() implies fuser_laws::process_fits(
            #[trigger] all[i],
            s.path,
        ) by {
            if i > 0 {
                assert(all[i] == list[i - 1]);
            }
        }
        (all, last)
    }
}

/// What the system answers when it is asked which processes are still there.
proof fn gone_are_shown(s: FuserView, events: Seq<FuserEventView>, count: nat) -> (gone: Seq<bool>)
    requires
        s.wf(),
        s.waiting is Alive,
        ends_with(s, events, count),
    ensures
        gone.len() == s.sent.len() - s.waiting->index,
        events == fuser_laws::gone_answers(gone),
    decreases events.len(),
{
    next_step(s, events, count);
    let there = events[0]->Exists_0->Ok_0;
    assert(events[0] == FuserEventView::Exists(Ok(there)));
    let after = crate::fuser::fuser_step(s, events[0]).0;
    if after.waiting is Finished {
        let gone = seq![!there];
        assert(events =~= fuser_laws::gone_answers(gone));
        gone
    } else {
        let others = gone_are_shown(after, events.drop_first(), count);
        let gone = seq![!there] + others;
        assert forall|i: int| 0 <= i < events.len() implies #[trigger] events[i]
            == fuser_laws::gone_answers(gone)[i] by {
            if i > 0 {
                assert(events[i] == events.drop_first()[i - 1]);
                assert(gone[i] == others[i - 1]);
            }
        }
        assert(events =~= fuser_laws::gone_answers(gone));
        gone
    }
}

/// A search that has ended well has gone through a list of processes: whatever the system answered, it
/// has shown processes that are what they should be and, for those that were signalled, which of them
/// are gone after the wait, and nothing else. Those that were signalled are the users of the path, and
/// the search has ended with the number of those that are gone.
pub proof fn fuser_that_ends_well_searched_a_list(
    path: Seq<u8>,
    signal: i32,
    events: Seq<FuserEventView>,
    count: nat,
)
    requires
        ends_with(crate::fuser::fuser_start(path, signal), events, count),
    ensures
        exists|list: Seq<Process>, gone: Seq<bool>|
            #![trigger shows_search(events, path, list, gone)]
            shows_search(events, path, list, gone) && fuser_laws::all_killed(
                crate::fuser::fuser_start(path, signal),
                events,
            ) == fuser_laws::users(list, path) && count == fuser_laws::gone_count(gone),
{
    let start = crate::fuser::fuser_start(path, signal);
    let end = FuserEventView::Next(NextEntry::End);
    next_step(start, events, count);
    let opened = events[0]->Opened_0->Ok_0;
    assert(opened == ());
    assert(events[0] == FuserEventView::Opened(Ok(())));
    let first = start.wait(FuserWait::Process);
    assert(crate::fuser::fuser_step(start, events[0]).0 == first);
    let (list, rest) = processes_are_shown(first, events.drop_first(), count);
    let found = fuser_laws::search_answers(list, path);
    let tail = seq![end] + rest;
    let shown = fuser_laws::processes_answers(list, path);
    split_first(events);
    glue(shown, seq![end], rest);
    glue(seq![events[0]], shown, tail);
    assert(events == found + tail);
    // Where the search is at the end of the list is known.
    fuser_laws::search_leads(path, signal, list);
    let s = fuser_laws::at_process(start, fuser_laws::signalled(list, path));
    fuser_laws::run_in_parts(start, found, tail);
    assert(events.drop_last() =~= found + tail.drop_last());
    assert(events.last() == tail.last());
    let before = tail.drop_last();
    assert(fuser_laws::fuser_accepts(start, events.drop_last()));
    fuser_laws::run_in_parts(start, found, before);
    assert(ends_with(s, tail, count));
    end_is_reached(path, signal, events, count, list, rest);
}

/// What comes after the end of the list of processes.
proof fn end_is_reached(
    path: Seq<u8>,
    signal: i32,
    events: Seq<FuserEventView>,
    count: nat,
    list: Seq<Process>,
    rest: Seq<FuserEventView>,
)
    requires
        ends_with(crate::fuser::fuser_start(path, signal), events, count),
        forall|i: int| 0 <= i < list.len() ==> fuser_laws::process_fits(#[trigger] list[i], path),
        events == fuser_laws::search_answers(list, path) + (seq![
            FuserEventView::Next(NextEntry::End),
        ] + rest),
        ends_with(
            fuser_laws::at_process(
                crate::fuser::fuser_start(path, signal),
                fuser_laws::signalled(list, path),
            ),
            seq![FuserEventView::Next(NextEntry::End)] + rest,
            count,
        ),
    ensures
        exists|list: Seq<Process>, gone: Seq<bool>|
            #![trigger shows_search(events, path, list, gone)]
            shows_search(events, path, list, gone) && fuser_laws::all_killed(
                crate::fuser::fuser_start(path, signal),
                events,
            ) == fuser_laws::users(list, path) && count == fuser_laws::gone_count(gone),
{
    let start = crate::fuser::fuser_start(path, signal);
    let end = FuserEventView::Next(NextEntry::End);
    let slept = FuserEventView::Slept;
    let found = fuser_laws::search_answers(list, path);
    let s = fuser_laws::at_process(start, fuser_laws::signalled(list, path));
    let tail = seq![end] + rest;
    next_step(s, tail, count);
    assert(tail[0] == end);
    assert(tail.drop_first() =~= rest);
    fuser_laws::fuser_signals_all_users(path, signal, list);
    if fuser_laws::signalled(list, path).len() == 0 {
        let gone = Seq::<bool>::empty();
        assert(found + tail =~= found.push(end));
        assert(fuser_laws::gone_count(gone) == 0);
        assert(shows_search(events, path, list, gone));
    } else {
        let waiting = s.wait(FuserWait::Sleep);
        assert(crate::fuser::fuser_step(s, end).0 == waiting);
        next_step(waiting, rest, count);
        assert(rest[0] == slept);
        let looking = crate::fuser::fuser_step(waiting, rest[0]).0;
        let gone = gone_are_shown(looking, rest.drop_first(), count);
        let answers = fuser_laws::gone_answers(gone);
        split_first(rest);
        assert(found + (seq![end] + (seq![slept] + answers)) =~= found.push(end).push(slept)
            + answers);
        fuser_laws::fuser_counts_the_gone(path, signal, list, gone);
        assert(shows_search(events, path, list, gone));
    }
}

} // verus!
