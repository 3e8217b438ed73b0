//! Signalling the processes that keep a path open.
//!
//! [`fuser`] starts the search and [`Fuser::step`] continues it. Both give back the next thing to
//! do; what came of it is handed to the next step. The search goes through the processes below
//! `/proc` and through the open files of each, and signals each process that has a file at or
//! below the path open. Afterwards it counts the processes that are gone.

use vstd::prelude::*;

use crate::error::{Cause, Error, ErrorKind, IoFailure};
use crate::listing::NextEntry;
use crate::number::{path_number, proc_dir, proc_path, PathNumber};
use crate::path::{copy_bytes, path_join, starts_with};
use crate::stat::{is_lnk, FileStat};
use crate::text;

verus! {

/// How long to wait for signalled processes to go away, in milliseconds.
pub const GRACE_MILLIS: u64 = 500;

/// Something to do for the search. `P` holds a path, `N` a number of processes, `E` an error.
pub enum FuserActionOf<P, N, E> {
    /// Open the directory of all processes.
    ReadProc { path: P },
    /// Get the next entry of the directory of all processes.
    NextProcess,
    /// Find out whether a directory exists.
    DirExists { path: P },
    /// Open the directory of the open files of a process.
    ReadFds { path: P },
    /// Get the next entry of the directory of open files.
    NextFd,
    /// Get the status of a file, without following a symbolic link.
    Lstat { path: P },
    /// Read what a symbolic link points to.
    ReadLink { path: P },
    /// Send a signal to a process.
    Kill { pid: i32, signal: i32 },
    /// Wait.
    Sleep { millis: u64 },
    /// Stop: the search is over, with the number of processes that are gone.
    Finish { result: Result<N, E> },
}

/// What came of the last action. `P` holds a path, `E` an error.
pub enum FuserEventOf<P, E> {
    /// A directory was opened, or could not be.
    Opened(Result<(), IoFailure>),
    /// The next entry of a directory.
    Next(NextEntry<P>),
    /// Whether a directory exists.
    Exists(Result<bool, E>),
    /// The status of a file.
    Stat(Result<FileStat, E>),
    /// What a symbolic link points to.
    Target(Result<P, IoFailure>),
    /// Whether a signal was sent.
    Killed(bool),
    /// The wait is over.
    Slept,
}

/// What the search waits for. `P` holds a path, `N` a number of processes.
pub enum FuserWait<P, N> {
    /// The directory of all processes being opened.
    ProcOpen,
    /// The next process.
    Process,
    /// Whether a process has a directory of open files.
    FdDir { pid: i32, fd_dir: P },
    /// The directory of open files being opened.
    FdsOpen { pid: i32, fd_dir: P },
    /// The next open file of a process.
    Fd { pid: i32, fd_dir: P },
    /// The status of the entry for an open file.
    FdStat { pid: i32, fd_dir: P, fd_path: P },
    /// The file that is open.
    FdTarget { pid: i32, fd_dir: P, fd_path: P },
    /// A signal being sent.
    Kill { pid: i32 },
    /// The signalled processes having had time to go away.
    Sleep,
    /// Whether a signalled process is still there, with the number of those that are gone.
    Alive { index: N, gone: N },
    /// Nothing: the search is over.
    Finished,
}

/// The contents of a [`Fuser`].
pub struct FuserView {
    /// The path that is searched for.
    pub path: Seq<u8>,
    /// The signal that is sent.
    pub signal: i32,
    /// The processes that have been signalled, in order.
    pub sent: Seq<i32>,
    /// What the search waits for.
    pub waiting: FuserWait<Seq<u8>, nat>,
}

pub type FuserAction = FuserActionOf<Vec<u8>, usize, Error>;

pub type FuserEvent = FuserEventOf<Vec<u8>, Error>;

pub type FuserActionView = FuserActionOf<Seq<u8>, nat, crate::error::ErrorView>;

pub type FuserEventView = FuserEventOf<Seq<u8>, crate::error::ErrorView>;

impl View for FuserActionOf<Vec<u8>, usize, Error> {
    type V = FuserActionView;

    open spec fn view(&self) -> FuserActionView {
        match self {
            FuserActionOf::ReadProc { path } => FuserActionOf::ReadProc { path: path@ },
            FuserActionOf::NextProcess => FuserActionOf::NextProcess,
            FuserActionOf::DirExists { path } => FuserActionOf::DirExists { path: path@ },
            FuserActionOf::ReadFds { path } => FuserActionOf::ReadFds { path: path@ },
            FuserActionOf::NextFd => FuserActionOf::NextFd,
            FuserActionOf::Lstat { path } => FuserActionOf::Lstat { path: path@ },
            FuserActionOf::ReadLink { path } => FuserActionOf::ReadLink { path: path@ },
            FuserActionOf::Kill { pid, signal } => FuserActionOf::Kill {
                pid: *pid,
                signal: *signal,
            },
            FuserActionOf::Sleep { millis } => FuserActionOf::Sleep { millis: *millis },
            FuserActionOf::Finish { result } => FuserActionOf::Finish {
                result: match result {
                    Ok(count) => Ok(*count as nat),
                    Err(e) => Err(e@),
                },
            },
        }
    }
}

impl View for FuserEventOf<Vec<u8>, Error> {
    type V = FuserEventView;

    open spec fn view(&self) -> FuserEventView {
        match self {
            FuserEventOf::Opened(result) => FuserEventOf::Opened(*result),
            FuserEventOf::Next(next) => FuserEventOf::Next(next@),
            FuserEventOf::Exists(result) => FuserEventOf::Exists(
                crate::listing::result_view(*result),
            ),
            FuserEventOf::Stat(result) => FuserEventOf::Stat(crate::listing::result_view(*result)),
            FuserEventOf::Target(target) => FuserEventOf::Target(
                crate::listing::target_view(*target),
            ),
            FuserEventOf::Killed(sent) => FuserEventOf::Killed(*sent),
            FuserEventOf::Slept => FuserEventOf::Slept,
        }
    }
}

impl View for FuserWait<Vec<u8>, usize> {
    type V = FuserWait<Seq<u8>, nat>;

    open spec fn view(&self) -> FuserWait<Seq<u8>, nat> {
        match self {
            FuserWait::ProcOpen => FuserWait::ProcOpen,
            FuserWait::Process => FuserWait::Process,
            FuserWait::FdDir { pid, fd_dir } => FuserWait::FdDir { pid: *pid, fd_dir: fd_dir@ },
            FuserWait::FdsOpen { pid, fd_dir } => FuserWait::FdsOpen { pid: *pid, fd_dir: fd_dir@ },
            FuserWait::Fd { pid, fd_dir } => FuserWait::Fd { pid: *pid, fd_dir: fd_dir@ },
            FuserWait::FdStat { pid, fd_dir, fd_path } => FuserWait::FdStat {
                pid: *pid,
                fd_dir: fd_dir@,
                fd_path: fd_path@,
            },
            FuserWait::FdTarget { pid, fd_dir, fd_path } => FuserWait::FdTarget {
                pid: *pid,
                fd_dir: fd_dir@,
                fd_path: fd_path@,
            },
            FuserWait::Kill { pid } => FuserWait::Kill { pid: *pid },
            FuserWait::Sleep => FuserWait::Sleep,
            FuserWait::Alive { index, gone } => FuserWait::Alive {
                index: *index as nat,
                gone: *gone as nat,
            },
            FuserWait::Finished => FuserWait::Finished,
        }
    }
}

/// A search in progress.
pub struct Fuser {
    path: Vec<u8>,
    signal: i32,
    sent: Vec<i32>,
    waiting: FuserWait<Vec<u8>, usize>,
}

impl View for Fuser {
    type V = FuserView;

    closed spec fn view(&self) -> FuserView {
        FuserView {
            path: self.path@,
            signal: self.signal,
            sent: self.sent@,
            waiting: self.waiting@,
        }
    }
}

impl FuserView {
    /// What holds of each search: it waits for signalled processes only if there are any, and no
    /// more of them are gone than have been looked at.
    pub open spec fn wf(self) -> bool {
        &&& self.waiting is Sleep ==> self.sent.len() > 0
        &&& self.waiting matches FuserWait::Alive { index, gone } ==> gone <= index
            < self.sent.len()
    }

    /// Tells whether an event is an answer to what the search waits for.
    pub open spec fn accepts(self, event: FuserEventView) -> bool {
        match self.waiting {
            FuserWait::ProcOpen | FuserWait::FdsOpen { .. } => event is Opened,
            FuserWait::Process | FuserWait::Fd { .. } => event is Next,
            FuserWait::FdDir { .. } | FuserWait::Alive { .. } => event is Exists,
            FuserWait::FdStat { .. } => event is Stat,
            FuserWait::FdTarget { .. } => event is Target,
            FuserWait::Kill { .. } => event is Killed,
            FuserWait::Sleep => event is Slept,
            FuserWait::Finished => false,
        }
    }

    /// The same search, waiting for something else.
    pub open spec fn wait(self, waiting: FuserWait<Seq<u8>, nat>) -> FuserView {
        FuserView { waiting, ..self }
    }

    /// The end of a search.
    pub open spec fn finish(self, result: Result<nat, crate::error::ErrorView>) -> (
        FuserView,
        FuserActionView,
    ) {
        (self.wait(FuserWait::Finished), FuserActionOf::Finish { result })
    }

    /// The end of a search on which something underneath failed.
    pub open spec fn fail_upstream(self, message: Seq<char>, cause: Cause) -> (
        FuserView,
        FuserActionView,
    ) {
        self.finish(
            Err(
                crate::error::ErrorView { kind: ErrorKind::Upstream, message, cause: Some(cause) },
            ),
        )
    }

    /// The search goes on with the next process.
    pub open spec fn next_process(self) -> (FuserView, FuserActionView) {
        (self.wait(FuserWait::Process), FuserActionOf::NextProcess)
    }

    /// The search goes on with the next open file of a process.
    pub open spec fn next_fd(self, pid: i32, fd_dir: Seq<u8>) -> (FuserView, FuserActionView) {
        (self.wait(FuserWait::Fd { pid, fd_dir }), FuserActionOf::NextFd)
    }

    /// The search looks whether a signalled process is still there.
    pub open spec fn look(self, index: nat, gone: nat) -> (FuserView, FuserActionView) {
        (
            self.wait(FuserWait::Alive { index, gone }),
            FuserActionOf::DirExists {
                path: crate::number::proc_path_spec(self.sent[index as int]),
            },
        )
    }
}

/// The name of the directory of the open files of a process: `fd`.
pub open spec fn fd_name_spec() -> Seq<u8> {
    seq![102u8, 100u8]
}

/// The path of the directory of the open files of a process.
pub open spec fn fd_dir_spec(process: Seq<u8>) -> Seq<u8> {
    crate::path::join_spec(process, fd_name_spec())
}

/// The search after an event, and the next thing to do.
pub open spec fn fuser_step(s: FuserView, event: FuserEventView) -> (FuserView, FuserActionView)
    recommends
        s.wf(),
        s.accepts(event),
{
    match (s.waiting, event) {
        (FuserWait::ProcOpen, FuserEventOf::Opened(Ok(_))) => s.next_process(),
        (FuserWait::ProcOpen, FuserEventOf::Opened(Err(failure))) => s.fail_upstream(
            "Failed to read directory '/proc'"@,
            failure.as_cause(),
        ),
        (FuserWait::Process, FuserEventOf::Next(NextEntry::Failed(failure))) => s.fail_upstream(
            "Failed to read directory entry for '/proc'"@,
            failure.as_cause(),
        ),
        // All processes have been looked at: give those that were signalled some time.
        (FuserWait::Process, FuserEventOf::Next(NextEntry::End)) => if s.sent.len() == 0 {
            s.finish(Ok(0))
        } else {
            (s.wait(FuserWait::Sleep), FuserActionOf::Sleep { millis: GRACE_MILLIS })
        },
        (FuserWait::Process, FuserEventOf::Next(NextEntry::Entry(entry))) => match
        crate::number::path_number_spec(entry) {
            PathNumber::Absent => s.next_process(),
            PathNumber::Unreadable(failure) => s.fail_upstream(
                text::about_spec("Failed to parse pid from path '"@, entry, "'"@),
                Cause::Parse(failure),
            ),
            PathNumber::Number(pid) => (
                s.wait(FuserWait::FdDir { pid, fd_dir: fd_dir_spec(entry) }),
                FuserActionOf::DirExists { path: fd_dir_spec(entry) },
            ),
        },
        (FuserWait::FdDir { .. }, FuserEventOf::Exists(Err(e))) => s.finish(Err(e)),
        (FuserWait::FdDir { pid, fd_dir }, FuserEventOf::Exists(Ok(there))) => if there {
            (s.wait(FuserWait::FdsOpen { pid, fd_dir }), FuserActionOf::ReadFds { path: fd_dir })
        } else {
            s.next_process()
        },
        (FuserWait::FdsOpen { pid, fd_dir }, FuserEventOf::Opened(Ok(_))) => s.next_fd(pid, fd_dir),
        (FuserWait::FdsOpen { fd_dir, .. }, FuserEventOf::Opened(Err(failure))) => s.fail_upstream(
            text::about_spec("Failed to read directory '"@, fd_dir, "'"@),
            failure.as_cause(),
        ),
        (FuserWait::Fd { fd_dir, .. }, FuserEventOf::Next(NextEntry::Failed(failure))) => s.fail_upstream(
            text::about_spec("Failed to read directory entry for '"@, fd_dir, "'"@),
            failure.as_cause(),
        ),
        (FuserWait::Fd { .. }, FuserEventOf::Next(NextEntry::End)) => s.next_process(),
        (FuserWait::Fd { pid, fd_dir }, FuserEventOf::Next(NextEntry::Entry(entry))) => match
        crate::number::path_number_spec(entry) {
            PathNumber::Absent => s.next_fd(pid, fd_dir),
            PathNumber::Unreadable(failure) => s.fail_upstream(
                text::about_spec("Failed to parse fd from path '"@, entry, "'"@),
                Cause::Parse(failure),
            ),
            PathNumber::Number(_) => (
                s.wait(FuserWait::FdStat { pid, fd_dir, fd_path: entry }),
                FuserActionOf::Lstat { path: entry },
            ),
        },
        (FuserWait::FdStat { .. }, FuserEventOf::Stat(Err(e))) => s.finish(Err(e)),
        (FuserWait::FdStat { pid, fd_dir, fd_path }, FuserEventOf::Stat(Ok(stat))) => if stat.file_type()
            == crate::stat::S_IFLNK {
            (
                s.wait(FuserWait::FdTarget { pid, fd_dir, fd_path }),
                FuserActionOf::ReadLink { path: fd_path },
            )
        } else {
            s.finish(
                Err(
                    crate::error::ErrorView {
                        kind: ErrorKind::InvState,
                        message: text::about_spec("file '"@, fd_path, "' is not a link"@),
                        cause: None,
                    },
                ),
            )
        },
        (FuserWait::FdTarget { fd_path, .. }, FuserEventOf::Target(Err(failure))) => s.fail_upstream(
            text::about_spec("Failed to read link '"@, fd_path, "'"@),
            failure.as_cause(),
        ),
        (FuserWait::FdTarget { pid, fd_dir, .. }, FuserEventOf::Target(Ok(target))) => if
        crate::path::starts_with_spec(target, s.path) {
            (
                s.wait(FuserWait::Kill { pid }),
                FuserActionOf::Kill { pid, signal: s.signal },
            )
        } else {
            s.next_fd(pid, fd_dir)
        },
        // One signal for each process: its other open files are not looked at.
        (FuserWait::Kill { pid }, FuserEventOf::Killed(sent)) => if sent {
            (FuserView { sent: s.sent.push(pid), ..s }).next_process()
        } else {
            s.next_process()
        },
        (FuserWait::Sleep, FuserEventOf::Slept) => s.look(0, 0),
        (FuserWait::Alive { .. }, FuserEventOf::Exists(Err(e))) => s.finish(Err(e)),
        (FuserWait::Alive { index, gone }, FuserEventOf::Exists(Ok(there))) => {
            let count: nat = if there {
                gone
            } else {
                gone + 1
            };
            if index + 1 < s.sent.len() {
                s.look(index + 1, count)
            } else {
                s.finish(Ok(count))
            }
        },
        _ => arbitrary(),
    }
}

/// A search at its start.
pub open spec fn fuser_start(path: Seq<u8>, signal: i32) -> FuserView {
    FuserView { path, signal, sent: Seq::empty(), waiting: FuserWait::ProcOpen }
}

/// Starts to signal the processes that have a file at or below a path open.
pub fn fuser(path: &[u8], signal: i32) -> (r: (Fuser, FuserAction))
    ensures
        r.0@ == fuser_start(path@, signal),
        r.1@ == (FuserActionView::ReadProc { path: crate::number::proc_dir_spec() }),
{
    (
        Fuser {
            path: copy_bytes(path),
            signal,
            sent: Vec::new(),
            waiting: FuserWait::ProcOpen,
        },
        FuserActionOf::ReadProc { path: proc_dir() },
    )
}

impl Fuser {
    #[verifier::type_invariant]
    closed spec fn inv(self) -> bool {
        self@.wf()
    }

    /// Goes on with the search after an event.
    pub fn step(self, event: FuserEvent) -> (r: (Fuser, FuserAction))
        requires
            self@.accepts(event@),
        ensures
            (r.0@, r.1@) == fuser_step(self@, event@),
    {
        proof {
            use_type_invariant(&self);
        }
        let Fuser { path, signal, sent, waiting } = self;
        let rest = Fuser { path, signal, sent, waiting: FuserWait::Finished };
        match (waiting, event) {
            (FuserWait::ProcOpen, FuserEventOf::Opened(result)) => match result {
                Ok(_) => rest.next_process(),
                Err(failure) => rest.fail_upstream(
                    "Failed to read directory '/proc'",
                    failure.into_cause(),
                ),
            },
            (FuserWait::Process, FuserEventOf::Next(NextEntry::Failed(failure))) =>
            rest.fail_upstream(
                "Failed to read directory entry for '/proc'",
                failure.into_cause(),
            ),
            (FuserWait::Process, FuserEventOf::Next(NextEntry::End)) => if rest.sent.len() == 0 {
                rest.finish(Ok(0))
            } else {
                (
                    rest.wait(FuserWait::Sleep),
                    FuserActionOf::Sleep { millis: GRACE_MILLIS },
                )
            },
            (FuserWait::Process, FuserEventOf::Next(NextEntry::Entry(entry))) => match path_number(
                entry.as_slice(),
            ) {
                PathNumber::Absent => rest.next_process(),
                PathNumber::Unreadable(failure) => {
                    let message = text::about(
                        "Failed to parse pid from path '",
                        entry.as_slice(),
                        "'",
                    );
                    rest.fail_upstream(message.as_str(), Cause::Parse(failure))
                },
                PathNumber::Number(pid) => {
                    let fd_dir = path_join(entry.as_slice(), fd_name().as_slice());
                    let looked_for = copy_bytes(fd_dir.as_slice());
                    (
                        rest.wait(FuserWait::FdDir { pid, fd_dir }),
                        FuserActionOf::DirExists { path: looked_for },
                    )
                },
            },
            (FuserWait::FdDir { pid, fd_dir }, FuserEventOf::Exists(result)) => match result {
                Err(e) => rest.finish(Err(e)),
                Ok(there) => if there {
                    let opened = copy_bytes(fd_dir.as_slice());
                    (
                        rest.wait(FuserWait::FdsOpen { pid, fd_dir }),
                        FuserActionOf::ReadFds { path: opened },
                    )
                } else {
                    rest.next_process()
                },
            },
            (FuserWait::FdsOpen { pid, fd_dir }, FuserEventOf::Opened(result)) => match result {
                Ok(_) => rest.next_fd(pid, fd_dir),
                Err(failure) => {
                    let message = text::about(
                        "Failed to read directory '",
                        fd_dir.as_slice(),
                        "'",
                    );
                    rest.fail_upstream(message.as_str(), failure.into_cause())
                },
            },
            (FuserWait::Fd { pid: _, fd_dir }, FuserEventOf::Next(NextEntry::Failed(failure))) => {
                let message = text::about(
                    "Failed to read directory entry for '",
                    fd_dir.as_slice(),
                    "'",
                );
                rest.fail_upstream(message.as_str(), failure.into_cause())
            },
            (FuserWait::Fd { pid: _, fd_dir: _ }, FuserEventOf::Next(NextEntry::End)) =>
            rest.next_process(),
            (FuserWait::Fd { pid, fd_dir }, FuserEventOf::Next(NextEntry::Entry(entry))) => match
            path_number(entry.as_slice()) {
                PathNumber::Absent => rest.next_fd(pid, fd_dir),
                PathNumber::Unreadable(failure) => {
                    let message = text::about(
                        "Failed to parse fd from path '",
                        entry.as_slice(),
                        "'",
                    );
                    rest.fail_upstream(message.as_str(), Cause::Parse(failure))
                },
                PathNumber::Number(_) => {
                    let looked_at = copy_bytes(entry.as_slice());
                    (
                        rest.wait(FuserWait::FdStat { pid, fd_dir, fd_path: entry }),
                        FuserActionOf::Lstat { path: looked_at },
                    )
                },
            },
            (FuserWait::FdStat { pid, fd_dir, fd_path }, FuserEventOf::Stat(result)) => match result {
                Err(e) => rest.finish(Err(e)),
                Ok(stat) => if is_lnk(&stat) {
                    let link = copy_bytes(fd_path.as_slice());
                    (
                        rest.wait(FuserWait::FdTarget { pid, fd_dir, fd_path }),
                        FuserActionOf::ReadLink { path: link },
                    )
                } else {
                    let message = text::about("file '", fd_path.as_slice(), "' is not a link");
                    let e = Error::with_context(ErrorKind::InvState, message.as_str());
                    rest.finish(Err(e))
                },
            },
            (FuserWait::FdTarget { pid, fd_dir, fd_path }, FuserEventOf::Target(result)) => match result {
                Err(failure) => {
                    let message = text::about("Failed to read link '", fd_path.as_slice(), "'");
                    rest.fail_upstream(message.as_str(), failure.into_cause())
                },
                Ok(target) => if starts_with(target.as_slice(), rest.path.as_slice()) {
                    (
                        rest.wait(FuserWait::Kill { pid }),
                        FuserActionOf::Kill { pid, signal },
                    )
                } else {
                    rest.next_fd(pid, fd_dir)
                },
            },
            (FuserWait::Kill { pid }, FuserEventOf::Killed(killed)) => {
                if killed {
                    rest.signalled(pid).next_process()
                } else {
                    rest.next_process()
                }
            },
            (FuserWait::Sleep, FuserEventOf::Slept) => rest.look(0, 0),
            (FuserWait::Alive { index, gone }, FuserEventOf::Exists(result)) => match result {
                Err(e) => rest.finish(Err(e)),
                Ok(there) => {
                    let n: usize = rest.sent.len();
                    let count: usize = if there {
                        gone
                    } else {
                        gone + 1
                    };
                    if index + 1 < n {
                        rest.look(index + 1, count)
                    } else {
                        rest.finish(Ok(count))
                    }
                },
            },
            _ => vstd::pervasive::unreached(),
        }
    }

    /// The same search, waiting for something else.
    fn wait(self, waiting: FuserWait<Vec<u8>, usize>) -> (r: Fuser)
        requires
            self@.wait(waiting@).wf(),
        ensures
            r@ == self@.wait(waiting@),
    {
        let Fuser { path, signal, sent, waiting: _ } = self;
        Fuser { path, signal, sent, waiting }
    }

    /// The same search, with one more process that has been signalled.
    fn signalled(self, pid: i32) -> (r: Fuser)
        requires
            self@.waiting is Finished,
        ensures
            r@ == (FuserView { sent: self@.sent.push(pid), ..self@ }),
    {
        let Fuser { path, signal, mut sent, waiting } = self;
        sent.push(pid);
        Fuser { path, signal, sent, waiting }
    }

    fn finish(self, result: Result<usize, Error>) -> (r: (Fuser, FuserAction))
        ensures
            r.0@ == self@.wait(FuserWait::Finished),
            r.1 == (FuserAction::Finish { result }),
    {
        (self.wait(FuserWait::Finished), FuserActionOf::Finish { result })
    }

    fn fail_upstream(self, message: &str, cause: Cause) -> (r: (Fuser, FuserAction))
        ensures
            (r.0@, r.1@) == self@.fail_upstream(message@, cause),
    {
        self.finish(Err(Error::with_all(ErrorKind::Upstream, message, cause)))
    }

    fn next_process(self) -> (r: (Fuser, FuserAction))
        ensures
            (r.0@, r.1@) == self@.next_process(),
    {
        (self.wait(FuserWait::Process), FuserActionOf::NextProcess)
    }

    fn next_fd(self, pid: i32, fd_dir: Vec<u8>) -> (r: (Fuser, FuserAction))
        ensures
            (r.0@, r.1@) == self@.next_fd(pid, fd_dir@),
    {
        (self.wait(FuserWait::Fd { pid, fd_dir }), FuserActionOf::NextFd)
    }

    fn look(self, index: usize, gone: usize) -> (r: (Fuser, FuserAction))
        requires
            gone <= index < self@.sent.len(),
        ensures
            (r.0@, r.1@) == self@.look(index as nat, gone as nat),
    {
        let looked_for = proc_path(self.sent[index]);
        (
            self.wait(FuserWait::Alive { index, gone }),
            FuserActionOf::DirExists { path: looked_for },
        )
    }
}

fn fd_name() -> (r: Vec<u8>)
    ensures
        r@ == fd_name_spec(),
{
    let r: Vec<u8> = vec![102u8, 100u8];
    assert(r@ =~= fd_name_spec());
    r
}

} // verus!
