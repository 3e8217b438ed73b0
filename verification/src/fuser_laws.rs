//! What holds of searches as a whole.

use vstd::prelude::*;

use crate::fuser::{
    FuserActionOf, FuserActionView, FuserEventOf, FuserEventView, FuserView, FuserWait,
};
use crate::listing::NextEntry;
use crate::number::PathNumber;
use crate::stat::{FileStat, S_IFLNK};

verus! {

/// A search after a number of events.
pub open spec fn fuser_run(s: FuserView, events: Seq<FuserEventView>) -> FuserView
    decreases events.len(),
{
    if events.len() == 0 {
        s
    } else {
        crate::fuser::fuser_step(fuser_run(s, events.drop_last()), events.last()).0
    }
}

/// Tells whether each of a number of events is an answer to what the search waits for.
pub open spec fn fuser_accepts(s: FuserView, events: Seq<FuserEventView>) -> bool
    decreases events.len(),
{
    events.len() == 0 || (fuser_accepts(s, events.drop_last()) && fuser_run(
        s,
        events.drop_last(),
    ).accepts(events.last()))
}

/// The processes that a search signals in the course of a number of events, in order.
pub open spec fn all_killed(s: FuserView, events: Seq<FuserEventView>) -> Seq<i32>
    decreases events.len(),
{
    if events.len() == 0 {
        Seq::empty()
    } else {
        let before = events.drop_last();
        match crate::fuser::fuser_step(fuser_run(s, before), events.last()).1 {
            FuserActionOf::Kill { pid, .. } => all_killed(s, before).push(pid),
            _ => all_killed(s, before),
        }
    }
}

/// A search is over exactly when it says so, and then takes no more events. What it searches for and
/// the signal that it sends never change.
pub proof fn fuser_ends_with_finish(s: FuserView, event: FuserEventView)
    requires
        s.wf(),
        s.accepts(event),
    ensures
        ({
            let (after, action) = crate::fuser::fuser_step(s, event);
            &&& after.wf()
            &&& after.path == s.path
            &&& after.signal == s.signal
            &&& action is Finish <==> after.waiting is Finished
            &&& action is Finish ==> forall|next: FuserEventView| !(#[trigger] after.accepts(next))
        }),
{
}

/// Tells whether an event can come of an action.
pub open spec fn fuser_answers_to(action: FuserActionView, event: FuserEventView) -> bool {
    match action {
        FuserActionOf::ReadProc { .. } | FuserActionOf::ReadFds { .. } => event is Opened,
        FuserActionOf::NextProcess | FuserActionOf::NextFd => event is Next,
        FuserActionOf::DirExists { .. } => event is Exists,
        FuserActionOf::Lstat { .. } => event is Stat,
        FuserActionOf::ReadLink { .. } => event is Target,
        FuserActionOf::Kill { .. } => event is Killed,
        FuserActionOf::Sleep { .. } => event is Slept,
        FuserActionOf::Finish { .. } => false,
    }
}

/// A search takes whatever can come of the action that it gave back last, and nothing else.
pub proof fn fuser_takes_any_answer(s: FuserView, event: FuserEventView, next: FuserEventView)
    requires
        s.wf(),
        s.accepts(event),
    ensures
        crate::fuser::fuser_step(s, event).0.accepts(next) <==> fuser_answers_to(
            crate::fuser::fuser_step(s, event).1,
            next,
        ),
{
}

/// At its start, a search takes whatever can come of opening the directory of all processes, and
/// nothing else.
pub proof fn fuser_start_takes_any_answer(path: Seq<u8>, signal: i32, next: FuserEventView)
    ensures
        crate::fuser::fuser_start(path, signal).accepts(next) <==> fuser_answers_to(
            FuserActionOf::ReadProc { path: crate::number::proc_dir_spec() },
            next,
        ),
{
}

/// A process is signalled, with the signal that was asked for, only right after one of its open
/// files turned out to be at or below the path that was asked for.
pub proof fn fuser_signals_only_users(s: FuserView, event: FuserEventView)
    requires
        s.wf(),
        s.accepts(event),
    ensures
        crate::fuser::fuser_step(s, event).1 matches FuserActionOf::Kill { pid, signal } ==> {
            &&& signal == s.signal
            &&& s.waiting matches FuserWait::FdTarget { pid: user, .. } && user == pid
            &&& event matches FuserEventOf::Target(Ok(target)) && crate::path::starts_with_spec(
                target,
                s.path,
            )
        },
{
}

/// A process counts as signalled only if the signal was sent to it, and the number that a search
/// ends with is at most that of the processes that were signalled.
pub proof fn fuser_counts_only_signalled(s: FuserView, event: FuserEventView)
    requires
        s.wf(),
        s.accepts(event),
    ensures
        ({
            let (after, action) = crate::fuser::fuser_step(s, event);
            &&& after.sent != s.sent ==> (s.waiting matches FuserWait::Kill { pid } && event
                == FuserEventView::Killed(true) && after.sent == s.sent.push(pid))
            &&& action matches FuserActionOf::Finish { result: Ok(count) } ==> count
                <= s.sent.len()
        }),
{
}

/// An open file of a process, as the system shows it.
pub struct OpenFile {
    /// The path of the entry for the file.
    pub path: Seq<u8>,
    /// The status of the entry.
    pub stat: FileStat,
    /// The file that is open.
    pub target: Seq<u8>,
}

/// An entry of the directory of all processes, as the system shows it.
pub struct Process {
    /// The path of the entry.
    pub path: Seq<u8>,
    /// The open files, if there is a directory of them.
    pub files: Option<Seq<OpenFile>>,
    /// Whether a signal can be sent to it.
    pub killable: bool,
}

/// Tells whether an open file is at or below a path.
pub open spec fn file_is_below(file: OpenFile, path: Seq<u8>) -> bool {
    crate::number::path_number_spec(file.path) is Number && crate::path::starts_with_spec(
        file.target,
        path,
    )
}

/// Tells whether the entry for an open file is what it should be: its number is not unreadable, and if
/// it has one it is a symbolic link.
pub open spec fn file_fits(file: OpenFile) -> bool {
    match crate::number::path_number_spec(file.path) {
        PathNumber::Absent => true,
        PathNumber::Unreadable(_) => false,
        PathNumber::Number(_) => file.stat.file_type() == S_IFLNK,
    }
}

/// Tells whether the entries for open files are what they should be, up to the first file that is at
/// or below a path. Those after it are not looked at.
pub open spec fn files_fit(files: Seq<OpenFile>, path: Seq<u8>) -> bool
    decreases files.len(),
{
    files.len() == 0 || {
        &&& file_fits(files[0])
        &&& file_is_below(files[0], path) || files_fit(files.drop_first(), path)
    }
}

/// Tells whether an entry of the directory of all processes is what it should be, as far as a search
/// for the users of a path looks at it.
pub open spec fn process_fits(p: Process, path: Seq<u8>) -> bool {
    match crate::number::path_number_spec(p.path) {
        PathNumber::Absent => true,
        PathNumber::Unreadable(_) => false,
        PathNumber::Number(_) => p.files matches Some(files) ==> files_fit(files, path),
    }
}

/// Tells whether one of a list of open files is at or below a path.
pub open spec fn files_use(files: Seq<OpenFile>, path: Seq<u8>) -> bool {
    exists|i: int| 0 <= i < files.len() && #[trigger] file_is_below(files[i], path)
}

/// Tells whether an entry stands for a process that has a file at or below a path open.
pub open spec fn process_uses(p: Process, path: Seq<u8>) -> bool {
    &&& crate::number::path_number_spec(p.path) is Number
    &&& p.files matches Some(files) && files_use(files, path)
}

/// The numbers of the processes that have a file at or below a path open, in order.
pub open spec fn users(list: Seq<Process>, path: Seq<u8>) -> Seq<i32>
    decreases list.len(),
{
    if list.len() == 0 {
        Seq::empty()
    } else {
        let before = users(list.drop_last(), path);
        let p = list.last();
        if process_uses(p, path) {
            before.push(crate::number::path_number_spec(p.path)->Number_0)
        } else {
            before
        }
    }
}

/// The numbers of those among them that a signal can be sent to, in order.
pub open spec fn signalled(list: Seq<Process>, path: Seq<u8>) -> Seq<i32>
    decreases list.len(),
{
    if list.len() == 0 {
        Seq::empty()
    } else {
        let before = signalled(list.drop_last(), path);
        let p = list.last();
        if process_uses(p, path) && p.killable {
            before.push(crate::number::path_number_spec(p.path)->Number_0)
        } else {
            before
        }
    }
}

/// What the system answers while the open files of a process are looked at.
pub open spec fn files_answers(files: Seq<OpenFile>, path: Seq<u8>, killable: bool) -> Seq<
    FuserEventView,
>
    decreases files.len(),
{
    if files.len() == 0 {
        seq![FuserEventOf::Next(NextEntry::End)]
    } else {
        let file = files[0];
        let rest = files_answers(files.drop_first(), path, killable);
        let shown = FuserEventView::Next(NextEntry::Entry(file.path));
        let stat = FuserEventView::Stat(Ok(file.stat));
        let target = FuserEventView::Target(Ok(file.target));
        if !(crate::number::path_number_spec(file.path) is Number) {
            seq![shown] + rest
        } else if crate::path::starts_with_spec(file.target, path) {
            seq![shown, stat, target, FuserEventOf::Killed(killable)]
        } else {
            seq![shown, stat, target] + rest
        }
    }
}

/// What the system answers while an entry of the directory of all processes is looked at.
pub open spec fn process_answers(p: Process, path: Seq<u8>) -> Seq<FuserEventView> {
    let shown = FuserEventView::Next(NextEntry::Entry(p.path));
    if !(crate::number::path_number_spec(p.path) is Number) {
        seq![shown]
    } else {
        match p.files {
            None => seq![shown, FuserEventOf::Exists(Ok(false))],
            Some(files) => seq![
                shown,
                FuserEventOf::Exists(Ok(true)),
                FuserEventOf::Opened(Ok(())),
            ] + files_answers(files, path, p.killable),
        }
    }
}

/// What the system answers while all entries of the directory of all processes are looked at.
pub open spec fn processes_answers(list: Seq<Process>, path: Seq<u8>) -> Seq<FuserEventView>
    decreases list.len(),
{
    if list.len() == 0 {
        Seq::empty()
    } else {
        processes_answers(list.drop_last(), path) + process_answers(list.last(), path)
    }
}

/// What the system answers when it is asked which processes are still there.
pub open spec fn gone_answers(gone: Seq<bool>) -> Seq<FuserEventView> {
    Seq::new(gone.len(), |i: int| FuserEventOf::Exists(Ok(!gone[i])))
}

/// The number of processes that are gone.
pub open spec fn gone_count(gone: Seq<bool>) -> nat
    decreases gone.len(),
{
    if gone.len() == 0 {
        0
    } else {
        gone_count(gone.drop_last()) + if gone.last() {
            1nat
        } else {
            0nat
        }
    }
}

/// Tells whether events take a search from one state to another, and whom it signals on the way.
pub open spec fn leads(
    s: FuserView,
    events: Seq<FuserEventView>,
    after: FuserView,
    killed: Seq<i32>,
) -> bool {
    &&& fuser_accepts(s, events)
    &&& fuser_run(s, events) == after
    &&& all_killed(s, events) == killed
}

proof fn leads_nowhere(s: FuserView)
    ensures
        leads(s, Seq::empty(), s, Seq::empty()),
{
}

pub(crate) proof fn leads_one(s: FuserView, event: FuserEventView)
    requires
        s.accepts(event),
    ensures
        ({
            let (after, action) = crate::fuser::fuser_step(s, event);
            match action {
                FuserActionOf::Kill { pid, .. } => leads(s, seq![event], after, seq![pid]),
                _ => leads(s, seq![event], after, Seq::empty()),
            }
        }),
{
    let events = seq![event];
    assert(events.drop_last() =~= Seq::empty());
    let (after, action) = crate::fuser::fuser_step(s, event);
    leads_nowhere(s);
    match action {
        FuserActionOf::Kill { pid, .. } => {
            assert(all_killed(s, events) =~= seq![pid]);
        },
        _ => {},
    }
}

pub(crate) proof fn leads_on(
    s: FuserView,
    first: Seq<FuserEventView>,
    middle: FuserView,
    first_killed: Seq<i32>,
    second: Seq<FuserEventView>,
    after: FuserView,
    second_killed: Seq<i32>,
)
    requires
        leads(s, first, middle, first_killed),
        leads(middle, second, after, second_killed),
    ensures
        leads(s, first + second, after, first_killed + second_killed),
    decreases second.len(),
{
    if second.len() == 0 {
        assert(first + second =~= first);
        assert(first_killed + second_killed =~= first_killed);
    } else {
        let before = second.drop_last();
        let between = fuser_run(middle, before);
        leads_on(s, first, middle, first_killed, before, between, all_killed(middle, before));
        assert((first + second).drop_last() =~= first + before);
        assert((first + second).last() == second.last());
        assert(all_killed(s, first + second) =~= first_killed + second_killed);
    }
}

/// The processes that a search has signalled, once one more has been dealt with.
pub open spec fn with_sent(sent: Seq<i32>, used: bool, killable: bool, pid: i32) -> Seq<i32> {
    if used && killable {
        sent.push(pid)
    } else {
        sent
    }
}

/// A search that goes on with the next process.
pub open spec fn at_process(s: FuserView, sent: Seq<i32>) -> FuserView {
    FuserView { sent, waiting: FuserWait::Process, ..s }
}

pub(crate) proof fn files_use_in_parts(files: Seq<OpenFile>, path: Seq<u8>)
    requires
        files.len() > 0,
    ensures
        files_use(files, path) == (file_is_below(files[0], path) || files_use(
            files.drop_first(),
            path,
        )),
{
    let rest = files.drop_first();
    if files_use(rest, path) {
        let i = choose|i: int| 0 <= i < rest.len() && #[trigger] file_is_below(rest[i], path);
        assert(file_is_below(files[i + 1], path));
    }
    if files_use(files, path) {
        let i = choose|i: int| 0 <= i < files.len() && #[trigger] file_is_below(files[i], path);
        if i > 0 {
            assert(file_is_below(rest[i - 1], path));
        }
    }
}

/// An open file with a number leads to a signal, or to the next open file.
proof fn file_leads(s: FuserView, file: OpenFile, pid: i32, fd_dir: Seq<u8>)
    requires
        s.waiting == (FuserWait::<Seq<u8>, nat>::Fd { pid, fd_dir }),
        crate::number::path_number_spec(file.path) is Number,
        file.stat.file_type() == S_IFLNK,
    ensures
        ({
            let answers = seq![
                FuserEventView::Next(NextEntry::Entry(file.path)),
                FuserEventView::Stat(Ok(file.stat)),
                FuserEventView::Target(Ok(file.target)),
            ];
            if crate::path::starts_with_spec(file.target, s.path) {
                leads(s, answers, s.wait(FuserWait::Kill { pid }), seq![pid])
            } else {
                leads(s, answers, s, Seq::empty())
            }
        }),
{
    let none = Seq::<i32>::empty();
    let e1 = FuserEventView::Next(NextEntry::Entry(file.path));
    let e2 = FuserEventView::Stat(Ok(file.stat));
    let e3 = FuserEventView::Target(Ok(file.target));
    let s1 = s.wait(FuserWait::FdStat { pid, fd_dir, fd_path: file.path });
    let s2 = s.wait(FuserWait::FdTarget { pid, fd_dir, fd_path: file.path });
    leads_one(s, e1);
    leads_one(s1, e2);
    leads_one(s2, e3);
    leads_on(s, seq![e1], s1, none, seq![e2], s2, none);
    assert(seq![e1] + seq![e2] =~= seq![e1, e2]);
    assert(none + none =~= none);
    let (s3, killed) = if crate::path::starts_with_spec(file.target, s.path) {
        (s.wait(FuserWait::Kill { pid }), seq![pid])
    } else {
        (s, none)
    };
    assert(s3 == crate::fuser::fuser_step(s2, e3).0);
    leads_on(s, seq![e1, e2], s2, none, seq![e3], s3, killed);
    assert(seq![e1, e2] + seq![e3] =~= seq![e1, e2, e3]);
    assert(none + killed =~= killed);
}

/// The open files of a process lead to a signal for it if one of them is at or below the path.
proof fn files_lead(s: FuserView, files: Seq<OpenFile>, pid: i32, fd_dir: Seq<u8>, killable: bool)
    requires
        s.waiting == (FuserWait::<Seq<u8>, nat>::Fd { pid, fd_dir }),
        files_fit(files, s.path),
    ensures
        leads(
            s,
            files_answers(files, s.path, killable),
            at_process(s, with_sent(s.sent, files_use(files, s.path), killable, pid)),
            if files_use(files, s.path) {
                seq![pid]
            } else {
                Seq::empty()
            },
        ),
    decreases files.len(),
{
    let none = Seq::<i32>::empty();
    if files.len() == 0 {
        leads_one(s, FuserEventOf::Next(NextEntry::End));
        assert(!files_use(files, s.path));
    } else {
        let file = files[0];
        let rest = files.drop_first();
        files_use_in_parts(files, s.path);
        let after = at_process(s, with_sent(s.sent, files_use(files, s.path), killable, pid));
        let killed = if files_use(files, s.path) {
            seq![pid]
        } else {
            none
        };
        let answers = files_answers(rest, s.path, killable);
        let shown = FuserEventView::Next(NextEntry::Entry(file.path));
        if !(crate::number::path_number_spec(file.path) is Number) {
            leads_one(s, shown);
            files_lead(s, rest, pid, fd_dir, killable);
            leads_on(s, seq![shown], s, none, answers, after, killed);
            assert(none + killed =~= killed);
        } else {
            file_leads(s, file, pid, fd_dir);
            let three = seq![
                shown,
                FuserEventView::Stat(Ok(file.stat)),
                FuserEventView::Target(Ok(file.target)),
            ];
            if file_is_below(file, s.path) {
                let signalling = s.wait(FuserWait::Kill { pid });
                let last = FuserEventView::Killed(killable);
                leads_one(signalling, last);
                leads_on(s, three, signalling, seq![pid], seq![last], after, none);
                assert(three + seq![last] =~= files_answers(files, s.path, killable));
                assert(seq![pid] + none =~= seq![pid]);
            } else {
                files_lead(s, rest, pid, fd_dir, killable);
                leads_on(s, three, s, none, answers, after, killed);
                assert(none + killed =~= killed);
            }
        }
    }
}

/// An entry of the directory of all processes leads to a signal if it is that of a user of the path.
proof fn process_leads(s: FuserView, p: Process)
    requires
        s.waiting is Process,
        process_fits(p, s.path),
    ensures
        ({
            let pid = crate::number::path_number_spec(p.path)->Number_0;
            let used = process_uses(p, s.path);
            leads(
                s,
                process_answers(p, s.path),
                at_process(s, with_sent(s.sent, used, p.killable, pid)),
                if used {
                    seq![pid]
                } else {
                    Seq::empty()
                },
            )
        }),
{
    let none = Seq::<i32>::empty();
    let pid = crate::number::path_number_spec(p.path)->Number_0;
    let e1 = FuserEventView::Next(NextEntry::Entry(p.path));
    leads_one(s, e1);
    let s1 = crate::fuser::fuser_step(s, e1).0;
    if crate::number::path_number_spec(p.path) is Number {
        let fd_dir = crate::fuser::fd_dir_spec(p.path);
        assert(s1 == s.wait(FuserWait::FdDir { pid, fd_dir }));
        let e2 = FuserEventView::Exists(Ok(p.files is Some));
        leads_one(s1, e2);
        let s2 = crate::fuser::fuser_step(s1, e2).0;
        leads_on(s, seq![e1], s1, none, seq![e2], s2, none);
        assert(seq![e1] + seq![e2] =~= seq![e1, e2]);
        assert(none + none =~= none);
        if p.files is Some {
            let files = p.files->0;
            let e3 = FuserEventView::Opened(Ok(()));
            leads_one(s2, e3);
            let s3 = s.wait(FuserWait::Fd { pid, fd_dir });
            leads_on(s, seq![e1, e2], s2, none, seq![e3], s3, none);
            assert(seq![e1, e2] + seq![e3] =~= seq![e1, e2, e3]);
            files_lead(s3, files, pid, fd_dir, p.killable);
            let answers = files_answers(files, s.path, p.killable);
            let after = at_process(s, with_sent(s.sent, process_uses(p, s.path), p.killable, pid));
            let killed = if files_use(files, s.path) {
                seq![pid]
            } else {
                none
            };
            leads_on(s, seq![e1, e2, e3], s3, none, answers, after, killed);
            assert(none + killed =~= killed);
        }
    }
}

/// The entries of the directory of all processes lead to a signal for each user of the path.
proof fn processes_lead(s: FuserView, list: Seq<Process>)
    requires
        s.waiting is Process,
        forall|i: int| 0 <= i < list.len() ==> process_fits(#[trigger] list[i], s.path),
    ensures
        leads(
            s,
            processes_answers(list, s.path),
            at_process(s, s.sent + signalled(list, s.path)),
            users(list, s.path),
        ),
    decreases list.len(),
{
    if list.len() == 0 {
        assert(s.sent + signalled(list, s.path) =~= s.sent);
        assert(at_process(s, s.sent) == s);
        leads_nowhere(s);
    } else {
        let before = list.drop_last();
        let p = list.last();
        assert(list[list.len() - 1] == p);
        assert forall|i: int| 0 <= i < before.len() implies process_fits(
            #[trigger] before[i],
            s.path,
        ) by {
            assert(before[i] == list[i]);
        }
        processes_lead(s, before);
        let middle = at_process(s, s.sent + signalled(before, s.path));
        process_leads(middle, p);
        let pid = crate::number::path_number_spec(p.path)->Number_0;
        let used = process_uses(p, s.path);
        let killed = if used {
            seq![pid]
        } else {
            Seq::empty()
        };
        let after = at_process(s, with_sent(middle.sent, used, p.killable, pid));
        leads_on(
            s,
            processes_answers(before, s.path),
            middle,
            users(before, s.path),
            process_answers(p, s.path),
            after,
            killed,
        );
        assert(after.sent =~= s.sent + signalled(list, s.path));
        assert(users(before, s.path) + killed =~= users(list, s.path));
    }
}

/// The search counts the processes that are gone, one after the other.
proof fn counting_leads(s: FuserView, gone: Seq<bool>, k: nat)
    requires
        s.waiting == (FuserWait::<Seq<u8>, nat>::Alive { index: 0, gone: 0 }),
        gone.len() == s.sent.len(),
        k < gone.len(),
    ensures
        gone_count(gone.take(k as int)) <= k,
        leads(
            s,
            gone_answers(gone).take(k as int),
            s.wait(FuserWait::Alive { index: k, gone: gone_count(gone.take(k as int)) }),
            Seq::empty(),
        ),
    decreases k,
{
    let none = Seq::<i32>::empty();
    if k == 0 {
        assert(gone_answers(gone).take(0) =~= Seq::empty());
        leads_nowhere(s);
    } else {
        let j = (k - 1) as nat;
        counting_leads(s, gone, j);
        let middle = s.wait(
            FuserWait::Alive { index: j, gone: gone_count(gone.take(j as int)) },
        );
        let event = FuserEventView::Exists(Ok(!gone[j as int]));
        leads_one(middle, event);
        assert(gone.take(k as int).drop_last() =~= gone.take(j as int));
        assert(gone.take(k as int).last() == gone[j as int]);
        let after = s.wait(FuserWait::Alive { index: k, gone: gone_count(gone.take(k as int)) });
        leads_on(
            s,
            gone_answers(gone).take(j as int),
            middle,
            none,
            seq![event],
            after,
            none,
        );
        assert(gone_answers(gone).take(j as int) + seq![event] =~= gone_answers(gone).take(
            k as int,
        ));
        assert(none + none =~= none);
    }
}

/// What the system answers while the users of a path are searched for.
pub open spec fn search_answers(list: Seq<Process>, path: Seq<u8>) -> Seq<FuserEventView> {
    seq![FuserEventView::Opened(Ok(()))] + processes_answers(list, path)
}

/// The answers to a search lead to a signal for each user of the path.
pub(crate) proof fn search_leads(path: Seq<u8>, signal: i32, list: Seq<Process>)
    requires
        forall|i: int| 0 <= i < list.len() ==> process_fits(#[trigger] list[i], path),
    ensures
        ({
            let start = crate::fuser::fuser_start(path, signal);
            leads(
                start,
                search_answers(list, path),
                at_process(start, signalled(list, path)),
                users(list, path),
            )
        }),
{
    let start = crate::fuser::fuser_start(path, signal);
    let none = Seq::<i32>::empty();
    let opened = FuserEventView::Opened(Ok(()));
    leads_one(start, opened);
    let s1 = start.wait(FuserWait::Process);
    processes_lead(s1, list);
    let s2 = at_process(start, signalled(list, path));
    assert(s1.sent + signalled(list, path) =~= signalled(list, path));
    leads_on(
        start,
        seq![opened],
        s1,
        none,
        processes_answers(list, path),
        s2,
        users(list, path),
    );
    assert(none + users(list, path) =~= users(list, path));
}

/// A search signals exactly the processes that have a file at or below the path open, each once and
/// in the order in which the system shows them. If no signal could be sent it ends there, with none
/// gone. Otherwise it waits.
pub proof fn fuser_signals_all_users(path: Seq<u8>, signal: i32, list: Seq<Process>)
    requires
        forall|i: int| 0 <= i < list.len() ==> process_fits(#[trigger] list[i], path),
    ensures
        ({
            let start = crate::fuser::fuser_start(path, signal);
            let answers = search_answers(list, path);
            let end = FuserEventView::Next(NextEntry::End);
            let (after, action) = crate::fuser::fuser_step(fuser_run(start, answers), end);
            &&& fuser_accepts(start, answers.push(end))
            &&& all_killed(start, answers.push(end)) == users(list, path)
            &&& after.sent == signalled(list, path)
            &&& if signalled(list, path).len() == 0 {
                action == (FuserActionView::Finish { result: Ok(0) })
            } else {
                action == (FuserActionView::Sleep { millis: crate::fuser::GRACE_MILLIS })
            }
        }),
{
    let start = crate::fuser::fuser_start(path, signal);
    let answers = search_answers(list, path);
    let end = FuserEventView::Next(NextEntry::End);
    let none = Seq::<i32>::empty();
    let s2 = at_process(start, signalled(list, path));
    search_leads(path, signal, list);
    leads_one(s2, end);
    let s3 = crate::fuser::fuser_step(s2, end).0;
    leads_on(start, answers, s2, users(list, path), seq![end], s3, none);
    assert(answers + seq![end] =~= answers.push(end));
    assert(users(list, path) + none =~= users(list, path));
}

/// A search that could send signals ends with the number of signalled processes that are gone after
/// the wait.
pub proof fn fuser_counts_the_gone(
    path: Seq<u8>,
    signal: i32,
    list: Seq<Process>,
    gone: Seq<bool>,
)
    requires
        forall|i: int| 0 <= i < list.len() ==> process_fits(#[trigger] list[i], path),
        gone.len() == signalled(list, path).len(),
        gone.len() > 0,
    ensures
        ({
            let start = crate::fuser::fuser_start(path, signal);
            let answers = search_answers(list, path).push(
                FuserEventOf::Next(NextEntry::End),
            ).push(FuserEventOf::Slept) + gone_answers(gone);
            &&& fuser_accepts(start, answers)
            &&& all_killed(start, answers) == users(list, path)
            &&& crate::fuser::fuser_step(
                fuser_run(start, answers.drop_last()),
                answers.last(),
            ).1 == (FuserActionView::Finish { result: Ok(gone_count(gone)) })
        }),
{
    let start = crate::fuser::fuser_start(path, signal);
    let none = Seq::<i32>::empty();
    let end = FuserEventView::Next(NextEntry::End);
    let slept = FuserEventView::Slept;
    let found = search_answers(list, path).push(end);
    fuser_signals_all_users(path, signal, list);
    assert(found.drop_last() =~= search_answers(list, path));
    let s1 = fuser_run(start, found);
    let killed = users(list, path);
    assert(leads(start, found, s1, killed));
    leads_one(s1, slept);
    let s2 = crate::fuser::fuser_step(s1, slept).0;
    leads_on(start, found, s1, killed, seq![slept], s2, none);
    assert(found + seq![slept] =~= found.push(slept));
    assert(killed + none =~= killed);
    // All but the last of the signalled processes, and the last.
    let k = (gone.len() - 1) as nat;
    counting_leads(s2, gone, k);
    let most = gone_answers(gone).take(k as int);
    let s3 = s2.wait(FuserWait::Alive { index: k, gone: gone_count(gone.take(k as int)) });
    leads_on(start, found.push(slept), s2, killed, most, s3, none);
    let last = FuserEventView::Exists(Ok(!gone[k as int]));
    leads_one(s3, last);
    let s4 = crate::fuser::fuser_step(s3, last).0;
    leads_on(start, found.push(slept) + most, s3, killed + none, seq![last], s4, none);
    let answers = found.push(slept) + gone_answers(gone);
    assert(gone_answers(gone) =~= most.push(last));
    assert(found.push(slept) + most + seq![last] =~= answers);
    assert(answers.drop_last() =~= found.push(slept) + most);
    assert(killed + none + none =~= killed);
    assert(gone.drop_last() =~= gone.take(k as int));
}

/// An entry of the directory of all processes that has no number, or that has no directory of open
/// files, changes nothing: nobody is signalled, and the search is where it was.
pub proof fn fuser_passes_over_other_entries(s: FuserView, p: Process)
    requires
        s.waiting is Process,
        crate::number::path_number_spec(p.path) is Absent || (crate::number::path_number_spec(
            p.path,
        ) is Number && p.files is None),
    ensures
        fuser_accepts(s, process_answers(p, s.path)),
        fuser_run(s, process_answers(p, s.path)) == s,
        all_killed(s, process_answers(p, s.path)) == Seq::<i32>::empty(),
{
    process_leads(s, p);
}

/// Between two processes, a search signals nobody before it ends or waits.
proof fn tail_signals_nobody(s: FuserView, tail: Seq<FuserEventView>)
    requires
        s.waiting is Process,
        fuser_accepts(s, tail),
        tail.len() > 0,
        forall|k: int|
            0 < k < tail.len() ==> !((#[trigger] fuser_run(s, tail.take(k))).waiting is Process),
        !(fuser_run(s, tail).waiting is Process),
        !(fuser_run(s, tail).waiting is Kill),
    ensures
        all_killed(s, tail) == Seq::<i32>::empty(),
    decreases tail.len(),
{
    let before = tail.drop_last();
    assert(before =~= tail.take(tail.len() - 1));
    if before.len() > 0 {
        let middle = fuser_run(s, before);
        assert(middle == fuser_run(s, tail.take(tail.len() - 1)));
        assert(!(middle.waiting is Process));
        // After a signal the search goes on with the next process.
        assert(!(middle.waiting is Kill));
        assert forall|k: int| 0 < k < before.len() implies !((#[trigger] fuser_run(
            s,
            before.take(k),
        )).waiting is Process) by {
            assert(before.take(k) =~= tail.take(k));
            assert(!(fuser_run(s, tail.take(k)).waiting is Process));
        }
        tail_signals_nobody(s, before);
    }
    assert(all_killed(s, before) == Seq::<i32>::empty());
    let (after, action) = crate::fuser::fuser_step(fuser_run(s, before), tail.last());
    assert(fuser_run(s, before).accepts(tail.last()));
    assert(action is Kill ==> after.waiting is Kill);
}

/// A search that ends, with an error or without, has signalled exactly the users of the path among
/// the processes that it had dealt with before. `tail` is what the system answers after those: it may
/// end the search at any point of the next process, or later. Unless the search had got to the end of
/// the list of processes, it has ended with an error.
pub proof fn fuser_end_leaves_earlier_users_signalled(
    path: Seq<u8>,
    signal: i32,
    list: Seq<Process>,
    tail: Seq<FuserEventView>,
)
    requires
        forall|i: int| 0 <= i < list.len() ==> process_fits(#[trigger] list[i], path),
        fuser_accepts(crate::fuser::fuser_start(path, signal), search_answers(list, path) + tail),
        tail.len() > 0,
        forall|k: int|
            0 < k < tail.len() ==> !((#[trigger] fuser_run(
                crate::fuser::fuser_start(path, signal),
                search_answers(list, path) + tail.take(k),
            )).waiting is Process),
        fuser_run(
            crate::fuser::fuser_start(path, signal),
            search_answers(list, path) + tail,
        ).waiting is Finished,
    ensures
        all_killed(crate::fuser::fuser_start(path, signal), search_answers(list, path) + tail)
            == users(list, path),
        ({
            let before = fuser_run(
                crate::fuser::fuser_start(path, signal),
                search_answers(list, path) + tail.drop_last(),
            );
            let last = tail.last();
            let action = crate::fuser::fuser_step(before, last).1;
            &&& action is Finish
            &&& !(before.waiting is Alive) && last != FuserEventView::Next(NextEntry::End)
                ==> action->Finish_result is Err
        }),
{
    let start = crate::fuser::fuser_start(path, signal);
    let answers = search_answers(list, path);
    let s = at_process(start, signalled(list, path));
    search_leads(path, signal, list);
    run_in_parts(start, answers, tail);
    assert forall|k: int| 0 < k < tail.len() implies !((#[trigger] fuser_run(
        s,
        tail.take(k),
    )).waiting is Process) by {
        let events = answers + tail.take(k);
        accepts_prefix(start, answers + tail, events.len() as int);
        assert((answers + tail).take(events.len() as int) =~= events);
        run_in_parts(start, answers, tail.take(k));
        assert(!(fuser_run(start, answers + tail.take(k)).waiting is Process));
    }
    tail_signals_nobody(s, tail);
    leads_on(
        start,
        answers,
        s,
        users(list, path),
        tail,
        fuser_run(s, tail),
        Seq::empty(),
    );
    assert(users(list, path) + Seq::<i32>::empty() =~= users(list, path));
    assert((answers + tail).drop_last() =~= answers + tail.drop_last());
    assert((answers + tail).last() == tail.last());
}

proof fn accepts_prefix(s: FuserView, events: Seq<FuserEventView>, n: int)
    requires
        fuser_accepts(s, events),
        0 <= n <= events.len(),
    ensures
        fuser_accepts(s, events.take(n)),
    decreases events.len(),
{
    if n == events.len() {
        assert(events.take(n) =~= events);
    } else {
        accepts_prefix(s, events.drop_last(), n);
        assert(events.drop_last().take(n) =~= events.take(n));
    }
}

pub(crate) proof fn run_in_parts(s: FuserView, first: Seq<FuserEventView>, second: Seq<FuserEventView>)
    requires
        fuser_accepts(s, first + second),
    ensures
        fuser_accepts(s, first),
        fuser_accepts(fuser_run(s, first), second),
        fuser_run(s, first + second) == fuser_run(fuser_run(s, first), second),
    decreases second.len(),
{
    if second.len() == 0 {
        assert(first + second =~= first);
    } else {
        assert((first + second).drop_last() =~= first + second.drop_last());
        assert((first + second).last() == second.last());
        run_in_parts(s, first, second.drop_last());
    }
}

/// A search that cannot open the directory of all processes signals nobody, and ends with an error of
/// the kind `Upstream` that holds what failed.
pub proof fn fuser_without_processes_signals_nobody(
    path: Seq<u8>,
    signal: i32,
    failure: crate::error::IoFailure,
)
    ensures
        ({
            let start = crate::fuser::fuser_start(path, signal);
            let events = seq![FuserEventView::Opened(Err(failure))];
            &&& fuser_accepts(start, events)
            &&& fuser_run(start, events).waiting is Finished
            &&& all_killed(start, events) == Seq::<i32>::empty()
            &&& crate::fuser::fuser_step(start, events[0]).1 matches FuserActionOf::Finish {
                result: Err(e),
            } && e.kind == crate::error::ErrorKind::Upstream && e.cause == Some(
                failure.as_cause(),
            )
        }),
{
    leads_one(crate::fuser::fuser_start(path, signal), FuserEventView::Opened(Err(failure)));
}

/// Tells whether a listing of processes shows each number once.
pub open spec fn numbers_differ(list: Seq<Process>) -> bool {
    forall|i: int, j: int| #![trigger list[i], list[j]]
        0 <= i < j < list.len() && crate::number::path_number_spec(list[i].path) is Number
            ==> crate::number::path_number_spec(list[i].path) != crate::number::path_number_spec(
            list[j].path,
        )
}

proof fn users_are_listed(list: Seq<Process>, path: Seq<u8>)
    ensures
        forall|pid: i32| #[trigger]
            users(list, path).contains(pid) ==> exists|i: int|
                0 <= i < list.len() && crate::number::path_number_spec((#[trigger] list[i]).path)
                    == PathNumber::Number(pid),
        forall|pid: i32| #[trigger]
            signalled(list, path).contains(pid) ==> users(list, path).contains(pid),
    decreases list.len(),
{
    if list.len() > 0 {
        let before = list.drop_last();
        let p = list.last();
        users_are_listed(before, path);
        assert(list[list.len() - 1] == p);
        assert forall|pid: i32| #[trigger] users(list, path).contains(pid) implies exists|i: int|
            0 <= i < list.len() && crate::number::path_number_spec((#[trigger] list[i]).path)
                == PathNumber::Number(pid) by {
            let k = choose|k: int|
                0 <= k < users(list, path).len() && users(list, path)[k] == pid;
            if k < users(before, path).len() {
                assert(users(before, path)[k] == pid);
                assert(users(before, path).contains(pid));
                let i = choose|i: int|
                    0 <= i < before.len() && crate::number::path_number_spec(
                        (#[trigger] before[i]).path,
                    ) == PathNumber::Number(pid);
                assert(list[i] == before[i]);
            }
        }
        assert forall|pid: i32| #[trigger] signalled(list, path).contains(pid) implies users(
            list,
            path,
        ).contains(pid) by {
            let k = choose|k: int|
                0 <= k < signalled(list, path).len() && signalled(list, path)[k] == pid;
            if k < signalled(before, path).len() {
                assert(signalled(before, path)[k] == pid);
                assert(signalled(before, path).contains(pid));
                let i = choose|i: int|
                    0 <= i < users(before, path).len() && users(before, path)[i] == pid;
                assert(users(list, path)[i] == pid);
            } else {
                assert(users(list, path).last() == pid);
                assert(users(list, path)[users(list, path).len() - 1] == pid);
            }
        }
    }
}

proof fn users_differ(list: Seq<Process>, path: Seq<u8>)
    requires
        numbers_differ(list),
    ensures
        users(list, path).no_duplicates(),
        signalled(list, path).no_duplicates(),
    decreases list.len(),
{
    if list.len() > 0 {
        let before = list.drop_last();
        let p = list.last();
        let n = list.len() - 1;
        assert(numbers_differ(before)) by {
            assert forall|i: int, j: int| #![trigger before[i], before[j]]
                0 <= i < j < before.len() && crate::number::path_number_spec(
                    before[i].path,
                ) is Number implies crate::number::path_number_spec(before[i].path)
                != crate::number::path_number_spec(before[j].path) by {
                assert(before[i] == list[i] && before[j] == list[j]);
            }
        }
        users_differ(before, path);
        users_are_listed(before, path);
        if process_uses(p, path) {
            let pid = crate::number::path_number_spec(p.path)->Number_0;
            assert(!users(before, path).contains(pid)) by {
                if users(before, path).contains(pid) {
                    let i = choose|i: int|
                        0 <= i < before.len() && crate::number::path_number_spec(
                            (#[trigger] before[i]).path,
                        ) == PathNumber::Number(pid);
                    assert(list[i] == before[i] && list[n] == p);
                }
            }
            assert(!signalled(before, path).contains(pid));
        }
    }
}

/// Where the system shows each process once, a search signals no process twice.
pub proof fn fuser_signals_nobody_twice(path: Seq<u8>, signal: i32, list: Seq<Process>)
    requires
        forall|i: int| 0 <= i < list.len() ==> process_fits(#[trigger] list[i], path),
        numbers_differ(list),
    ensures
        ({
            let start = crate::fuser::fuser_start(path, signal);
            let answers = search_answers(list, path).push(FuserEventOf::Next(NextEntry::End));
            &&& fuser_accepts(start, answers)
            &&& all_killed(start, answers).no_duplicates()
            &&& fuser_run(start, answers).sent.no_duplicates()
        }),
{
    let end = FuserEventView::Next(NextEntry::End);
    fuser_signals_all_users(path, signal, list);
    users_differ(list, path);
    assert(search_answers(list, path).push(end).drop_last() =~= search_answers(list, path));
}

} // verus!
