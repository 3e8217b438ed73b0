use system::error::{errno_error, IoFailure};
use system::fuser::{fuser, Fuser, FuserAction, FuserEvent};
use system::listing::NextEntry;
use system::stat::FileStat;

fn shown(path: &[u8]) -> String {
    String::from_utf8(path.to_vec()).unwrap()
}

fn describe(action: &FuserAction) -> String {
    match action {
        FuserAction::ReadProc { path } => format!("read_proc {}", shown(path)),
        FuserAction::NextProcess => "next process".to_string(),
        FuserAction::DirExists { path } => format!("exists {}", shown(path)),
        FuserAction::ReadFds { path } => format!("read_fds {}", shown(path)),
        FuserAction::NextFd => "next fd".to_string(),
        FuserAction::Lstat { path } => format!("lstat {}", shown(path)),
        FuserAction::ReadLink { path } => format!("read_link {}", shown(path)),
        FuserAction::Kill { pid, signal } => format!("kill {} {}", pid, signal),
        FuserAction::Sleep { millis } => format!("sleep {}", millis),
        FuserAction::Finish { result: Ok(count) } => format!("gone {}", count),
        FuserAction::Finish { result: Err(e) } => {
            format!("{:?}: {} {:?}", e.kind(), e.message(), e.cause())
        }
    }
}

struct Run {
    search: Option<Fuser>,
}

impl Run {
    fn start() -> Run {
        let (search, action) = fuser(b"/mnt/root", 15);
        assert_eq!(describe(&action), "read_proc /proc");
        Run { search: Some(search) }
    }

    fn open() -> Run {
        let mut run = Run::start();
        assert_eq!(run.opened(), "next process");
        run
    }

    fn step(&mut self, event: FuserEvent) -> String {
        let (search, action) = self.search.take().unwrap().step(event);
        self.search = Some(search);
        describe(&action)
    }

    fn opened(&mut self) -> String {
        self.step(FuserEvent::Opened(Ok(())))
    }

    fn entry(&mut self, path: &str) -> String {
        self.step(FuserEvent::Next(NextEntry::Entry(path.as_bytes().to_vec())))
    }

    fn end(&mut self) -> String {
        self.step(FuserEvent::Next(NextEntry::End))
    }

    fn dir_there(&mut self, there: bool) -> String {
        self.step(FuserEvent::Exists(Ok(there)))
    }

    fn link(&mut self, target: &str) -> String {
        let stat =
            FileStat { st_dev: 1, st_ino: 1, st_nlink: 1, st_mode: 0o120700, st_rdev: 0 };
        assert!(self.step(FuserEvent::Stat(Ok(stat))).starts_with("read_link "));
        self.step(FuserEvent::Target(Ok(target.as_bytes().to_vec())))
    }

    fn process(&mut self, path: &str) {
        assert_eq!(self.entry(path), format!("exists {}/fd", path));
        assert_eq!(self.dir_there(true), format!("read_fds {}/fd", path));
        assert_eq!(self.opened(), "next fd");
    }
}

fn failed() -> IoFailure {
    IoFailure::Os(libc::EIO)
}

#[test]
fn nobody_uses_the_path() {
    let mut run = Run::open();
    assert_eq!(run.entry("/proc/self"), "next process");
    assert_eq!(run.entry("/proc/1"), "exists /proc/1/fd");
    assert_eq!(run.dir_there(false), "next process");
    run.process("/proc/2");
    assert_eq!(run.entry("/proc/2/fd/0"), "lstat /proc/2/fd/0");
    assert_eq!(run.link("/mnt/rootfs/file"), "next fd");
    assert_eq!(run.entry("/proc/2/fd/x"), "next fd");
    assert_eq!(run.end(), "next process");
    assert_eq!(run.end(), "gone 0");
}

#[test]
fn users_are_signalled_once_and_counted() {
    let mut run = Run::open();
    for pid in [3, 20, 100] {
        run.process(&format!("/proc/{}", pid));
        assert_eq!(run.entry(&format!("/proc/{}/fd/7", pid)), format!("lstat /proc/{}/fd/7", pid));
        assert_eq!(run.link("/mnt/root/etc/x"), format!("kill {} 15", pid));
        assert_eq!(run.step(FuserEvent::Killed(true)), "next process");
    }
    assert_eq!(run.end(), "sleep 500");
    assert_eq!(run.step(FuserEvent::Slept), "exists /proc/3");
    assert_eq!(run.dir_there(false), "exists /proc/20");
    assert_eq!(run.dir_there(true), "exists /proc/100");
    assert_eq!(run.dir_there(false), "gone 2");
}

#[test]
fn the_path_itself_counts() {
    let mut run = Run::open();
    run.process("/proc/3");
    run.entry("/proc/3/fd/0");
    assert_eq!(run.link("/mnt/root"), "kill 3 15");
}

#[test]
fn signals_that_cannot_be_sent_do_not_count() {
    let mut run = Run::open();
    run.process("/proc/3");
    run.entry("/proc/3/fd/0");
    assert_eq!(run.link("/mnt/root/a"), "kill 3 15");
    assert_eq!(run.step(FuserEvent::Killed(false)), "next process");
    assert_eq!(run.end(), "gone 0");
}

#[test]
fn failures_to_read() {
    let mut run = Run::start();
    assert_eq!(
        run.step(FuserEvent::Opened(Err(failed()))),
        "Upstream: Failed to read directory '/proc' Some(Os(5))"
    );
    let mut run = Run::open();
    assert_eq!(
        run.step(FuserEvent::Next(NextEntry::Failed(failed()))),
        "Upstream: Failed to read directory entry for '/proc' Some(Os(5))"
    );
    let mut run = Run::open();
    run.entry("/proc/3");
    run.dir_there(true);
    assert_eq!(
        run.step(FuserEvent::Opened(Err(failed()))),
        "Upstream: Failed to read directory '/proc/3/fd' Some(Os(5))"
    );
    let mut run = Run::open();
    run.process("/proc/3");
    assert_eq!(
        run.step(FuserEvent::Next(NextEntry::Failed(failed()))),
        "Upstream: Failed to read directory entry for '/proc/3/fd' Some(Os(5))"
    );
}

#[test]
fn unreadable_numbers_end_the_search() {
    let mut run = Run::open();
    assert_eq!(
        run.entry("/proc/4294967296"),
        "Upstream: Failed to parse pid from path '/proc/4294967296' Some(Parse(PosOverflow))"
    );
    let mut run = Run::open();
    run.process("/proc/3");
    assert_eq!(
        run.entry("/proc/3/fd/4294967296"),
        "Upstream: Failed to parse fd from path '/proc/3/fd/4294967296' Some(Parse(PosOverflow))"
    );
}

#[test]
fn open_files_must_be_links() {
    let mut run = Run::open();
    run.process("/proc/3");
    run.entry("/proc/3/fd/0");
    let stat = FileStat { st_dev: 1, st_ino: 1, st_nlink: 1, st_mode: 0o100600, st_rdev: 0 };
    assert_eq!(
        run.step(FuserEvent::Stat(Ok(stat))),
        "InvState: file '/proc/3/fd/0' is not a link None"
    );
}

#[test]
fn failures_of_other_calls() {
    let mut run = Run::open();
    run.entry("/proc/3");
    let e = errno_error(libc::EACCES, "hidden");
    assert_eq!(run.step(FuserEvent::Exists(Err(e))), "Permission: hidden Some(Os(13))");

    let mut run = Run::open();
    run.process("/proc/3");
    run.entry("/proc/3/fd/0");
    let e = errno_error(libc::ENOENT, "closed");
    assert_eq!(run.step(FuserEvent::Stat(Err(e))), "FileNotFound: closed Some(Os(2))");

    let mut run = Run::open();
    run.process("/proc/3");
    run.entry("/proc/3/fd/0");
    let stat = FileStat { st_dev: 1, st_ino: 1, st_nlink: 1, st_mode: 0o120700, st_rdev: 0 };
    run.step(FuserEvent::Stat(Ok(stat)));
    assert_eq!(
        run.step(FuserEvent::Target(Err(failed()))),
        "Upstream: Failed to read link '/proc/3/fd/0' Some(Os(5))"
    );
}

#[test]
fn files_after_the_first_match_are_not_looked_at() {
    // The process has more open files, but the search asks for the next process.
    let mut run = Run::open();
    run.process("/proc/3");
    run.entry("/proc/3/fd/0");
    assert_eq!(run.link("/mnt/root/a"), "kill 3 15");
    assert_eq!(run.step(FuserEvent::Killed(true)), "next process");
    assert_eq!(run.entry("/proc/3x"), "next process");
    assert_eq!(run.end(), "sleep 500");
}

#[test]
fn a_failing_search_has_signalled_the_earlier_users() {
    let mut run = Run::open();
    let mut killed: Vec<String> = Vec::new();
    for pid in [3, 4, 5] {
        run.process(&format!("/proc/{}", pid));
        run.entry(&format!("/proc/{}/fd/0", pid));
        let target = if pid == 4 { "/home" } else { "/mnt/root/a" };
        let action = run.link(target);
        if action.starts_with("kill ") {
            killed.push(action);
            run.step(FuserEvent::Killed(true));
        } else {
            assert_eq!(action, "next fd");
            assert_eq!(run.end(), "next process");
        }
    }
    run.process("/proc/6");
    let action = run.step(FuserEvent::Next(NextEntry::Failed(failed())));
    assert_eq!(action, "Upstream: Failed to read directory entry for '/proc/6/fd' Some(Os(5))");
    assert_eq!(killed, ["kill 3 15", "kill 5 15"]);
}

#[test]
fn other_entries_change_nothing() {
    let mut run = Run::open();
    assert_eq!(run.entry("/proc/meminfo"), "next process");
    assert_eq!(run.entry("/proc/9"), "exists /proc/9/fd");
    assert_eq!(run.dir_there(false), "next process");
    assert_eq!(run.end(), "gone 0");
}
