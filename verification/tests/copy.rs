use system::copy::{copy_dir, CopyAction, CopyDir, CopyEvent};
use system::error::{errno_error, Cause, Error, ErrorKind, IoFailure};
use system::inodes::CopyInodes;
use system::listing::NextEntry;
use system::stat::FileStat;

const DIR: u32 = 0o040755;
const FILE: u32 = 0o100644;

fn stat(st_mode: u32, st_ino: u64, st_nlink: u64, st_dev: u64) -> FileStat {
    FileStat { st_dev, st_ino, st_nlink, st_mode, st_rdev: 0x0801 }
}

fn shown(path: &[u8]) -> String {
    String::from_utf8(path.to_vec()).unwrap()
}

fn describe(action: &CopyAction) -> String {
    match action {
        CopyAction::Stat { path } => format!("stat {}", shown(path)),
        CopyAction::ReadDir { path } => format!("read_dir {}", shown(path)),
        CopyAction::NextEntry => "next".to_string(),
        CopyAction::Lstat { path } => format!("lstat {}", shown(path)),
        CopyAction::Link { old_file, new_file } => {
            format!("link {} {}", shown(old_file), shown(new_file))
        }
        CopyAction::ReadLink { path } => format!("read_link {}", shown(path)),
        CopyAction::Symlink { source, dest } => format!("symlink {} {}", shown(source), shown(dest)),
        CopyAction::Mkdir { path, mode } => format!("mkdir {} {:o}", shown(path), mode),
        CopyAction::Mkfifo { path, mode } => format!("mkfifo {} {:o}", shown(path), mode),
        CopyAction::Mknod { path, mode, dev_id } => {
            format!("mknod {} {:o} {:x}", shown(path), mode, dev_id)
        }
        CopyAction::CopyFile { source, dest } => format!("copy {} {}", shown(source), shown(dest)),
        CopyAction::Finish { result: Ok(()) } => "done".to_string(),
        CopyAction::Finish { result: Err(e) } => format!("{:?}: {}", e.kind(), e.message()),
    }
}

struct Run {
    copy: Option<CopyDir>,
    action: CopyAction,
}

impl Run {
    fn start(source: &str, dest: &str) -> Run {
        let (copy, action) = copy_dir(source.as_bytes(), dest.as_bytes());
        Run { copy: Some(copy), action }
    }

    fn step(&mut self, event: CopyEvent) -> String {
        let (copy, action) = self.copy.take().unwrap().step(event);
        self.copy = Some(copy);
        self.action = action;
        describe(&self.action)
    }

    fn stat(&mut self, stat: FileStat) -> String {
        self.step(CopyEvent::Stat(Ok(stat)))
    }

    fn entry(&mut self, path: &str, stat: FileStat) -> String {
        let lstat = self.step(CopyEvent::Next(NextEntry::Entry(path.as_bytes().to_vec())));
        assert_eq!(lstat, format!("lstat {}", path));
        self.stat(stat)
    }

    fn made(&mut self) -> String {
        self.step(CopyEvent::Made(Ok(())))
    }

    fn copied(&mut self) -> String {
        self.step(CopyEvent::Copied(Ok(())))
    }

    fn end(&mut self) -> String {
        self.step(CopyEvent::Next(NextEntry::End))
    }
}

fn open(dest_dev: u64) -> Run {
    let mut run = Run::start("/src", "/dst");
    assert_eq!(describe(&run.action), "stat /src");
    assert_eq!(run.stat(stat(DIR, 1, 2, 10)), "stat /dst");
    assert_eq!(run.stat(stat(DIR, 1, 2, dest_dev)), "read_dir /src");
    assert_eq!(run.step(CopyEvent::Opened(Ok(()))), "next");
    run
}

fn failed() -> IoFailure {
    IoFailure::Os(libc::EIO)
}

fn os_error(action: &CopyAction) -> Option<i32> {
    match action {
        CopyAction::Finish { result: Err(e) } => e.os_error(),
        _ => panic!("not an error"),
    }
}

#[test]
fn source_must_be_a_directory() {
    let mut run = Run::start("/src", "/dst");
    assert_eq!(run.stat(stat(FILE, 1, 1, 1)), "InvParam: Source '/src' is not a directory");
}

#[test]
fn dest_must_be_a_directory() {
    let mut run = Run::start("/src", "/dst");
    assert_eq!(run.stat(stat(DIR, 1, 2, 1)), "stat /dst");
    assert_eq!(run.stat(stat(FILE, 1, 1, 1)), "InvParam: Dest '/dst' is not a directory");
}

#[test]
fn an_empty_directory() {
    assert_eq!(open(10).end(), "done");
    assert_eq!(open(11).end(), "done");
}

#[test]
fn a_tree_with_every_type() {
    let mut run = open(11);
    assert_eq!(run.entry("/src/a", stat(FILE, 2, 1, 10)), "copy /src/a /dst/a");
    assert_eq!(run.copied(), "next");
    assert_eq!(run.entry("/src/d", stat(0o041777, 3, 5, 10)), "mkdir /dst/d 41777");
    assert_eq!(run.made(), "read_dir /src/d");
    assert_eq!(run.step(CopyEvent::Opened(Ok(()))), "next");
    assert_eq!(run.entry("/src/d/l", stat(0o120777, 4, 1, 10)), "read_link /src/d/l");
    assert_eq!(run.step(CopyEvent::Target(Ok(b"../a".to_vec()))), "symlink ../a /dst/d/l");
    assert_eq!(run.made(), "next");
    assert_eq!(run.entry("/src/d/p", stat(0o010600, 5, 1, 10)), "mkfifo /dst/d/p 10600");
    assert_eq!(run.made(), "next");
    assert_eq!(run.entry("/src/d/b", stat(0o060660, 6, 1, 10)), "mknod /dst/d/b 60660 801");
    assert_eq!(run.made(), "next");
    assert_eq!(run.entry("/src/d/c", stat(0o020660, 7, 1, 10)), "mknod /dst/d/c 20660 801");
    assert_eq!(run.made(), "next");
    assert_eq!(run.entry("/src/d/s", stat(0o140755, 8, 1, 10)), "next");
    assert_eq!(run.end(), "next");
    assert_eq!(run.entry("/src/z", stat(FILE, 9, 1, 10)), "copy /src/z /dst/z");
    assert_eq!(run.copied(), "next");
    assert_eq!(run.end(), "done");
}

#[test]
fn hard_links_within_one_file_system() {
    let mut run = open(10);
    assert_eq!(run.entry("/src/a", stat(FILE, 2, 2, 10)), "link /src/a /dst/a");
    assert_eq!(run.made(), "next");
    assert_eq!(run.entry("/src/b", stat(FILE, 2, 2, 10)), "link /src/b /dst/b");
    assert_eq!(run.made(), "next");
    assert_eq!(run.entry("/src/s", stat(0o140755, 3, 2, 10)), "link /src/s /dst/s");
    assert_eq!(run.made(), "next");
    assert_eq!(run.end(), "done");
}

#[test]
fn a_refused_link_within_one_file_system() {
    let mut run = open(10);
    assert_eq!(run.entry("/src/a", stat(FILE, 2, 2, 10)), "link /src/a /dst/a");
    let e = errno_error(libc::EPERM, "no links");
    assert_eq!(run.step(CopyEvent::Made(Err(e))), "NotPermitted: no links");
}

#[test]
fn hard_links_between_file_systems() {
    let mut run = open(11);
    assert_eq!(run.entry("/src/a", stat(FILE, 2, 3, 10)), "copy /src/a /dst/a");
    assert_eq!(run.copied(), "next");
    assert_eq!(run.entry("/src/d", stat(DIR, 3, 2, 10)), "mkdir /dst/d 40755");
    assert_eq!(run.made(), "read_dir /src/d");
    assert_eq!(run.step(CopyEvent::Opened(Ok(()))), "next");
    assert_eq!(run.entry("/src/d/b", stat(FILE, 2, 3, 10)), "link /dst/a /dst/d/b");
    assert_eq!(run.made(), "next");
    assert_eq!(run.end(), "next");
    assert_eq!(run.entry("/src/c", stat(FILE, 2, 3, 10)), "link /dst/a /dst/c");
    assert_eq!(run.made(), "next");
    assert_eq!(run.entry("/src/o", stat(FILE, 4, 2, 10)), "copy /src/o /dst/o");
    assert_eq!(run.copied(), "next");
    assert_eq!(run.end(), "done");
}

#[test]
fn linked_symbolic_links_between_file_systems() {
    let mut run = open(11);
    assert_eq!(run.entry("/src/a", stat(0o120777, 2, 2, 10)), "read_link /src/a");
    assert_eq!(run.step(CopyEvent::Target(Ok(b"t".to_vec()))), "symlink t /dst/a");
    assert_eq!(run.made(), "next");
    assert_eq!(run.entry("/src/b", stat(0o120777, 2, 2, 10)), "link /dst/a /dst/b");
}

#[test]
fn sockets_are_not_remembered() {
    let mut run = open(11);
    assert_eq!(run.entry("/src/s", stat(0o140755, 2, 2, 10)), "next");
    assert_eq!(run.entry("/src/t", stat(0o140755, 2, 2, 10)), "next");
}

#[test]
fn a_destination_without_hard_links() {
    let mut run = open(11);
    assert_eq!(run.entry("/src/a", stat(FILE, 2, 3, 10)), "copy /src/a /dst/a");
    assert_eq!(run.copied(), "next");
    for name in ["b", "c"] {
        let path = format!("/src/{}", name);
        assert_eq!(run.entry(&path, stat(FILE, 2, 3, 10)), format!("link /dst/a /dst/{}", name));
        let e = errno_error(libc::EPERM, "no links");
        assert_eq!(run.step(CopyEvent::Made(Err(e))), format!("copy {} /dst/{}", path, name));
        assert_eq!(run.copied(), "next");
    }
    assert_eq!(run.end(), "done");
}

#[test]
fn another_error_for_a_link_ends_the_copy() {
    let mut run = open(11);
    run.entry("/src/a", stat(FILE, 2, 2, 10));
    run.copied();
    run.entry("/src/b", stat(FILE, 2, 2, 10));
    let e = errno_error(libc::EEXIST, "there already");
    assert_eq!(run.step(CopyEvent::Made(Err(e))), "FileExists: there already");
}

#[test]
fn unknown_types_end_the_copy() {
    let mut run = open(10);
    assert_eq!(
        run.entry("/src/x", stat(0o644, 2, 1, 10)),
        "InvParam: Encountered invalid source file mode 0x000001a4 for  '/src'"
    );
}

#[test]
fn failures_end_the_copy() {
    let mut run = Run::start("/src", "/dst");
    let e = errno_error(libc::ENOENT, "no source");
    assert_eq!(run.step(CopyEvent::Stat(Err(e))), "FileNotFound: no source");

    let mut run = Run::start("/src", "/dst");
    run.stat(stat(DIR, 1, 2, 10));
    run.stat(stat(DIR, 1, 2, 10));
    assert_eq!(
        run.step(CopyEvent::Opened(Err(failed()))),
        "Upstream: Failed to read directory contents for '/src'"
    );
    assert_eq!(os_error(&run.action), Some(libc::EIO));

    let mut run = open(10);
    assert_eq!(
        run.step(CopyEvent::Next(NextEntry::Failed(failed()))),
        "Upstream: Failed to read directory entry for path: '/src'"
    );

    let mut run = open(10);
    run.entry("/src/a", stat(FILE, 2, 1, 10));
    assert_eq!(
        run.step(CopyEvent::Copied(Err(failed()))),
        "Upstream: Failed to copy '/src/a' to '/dst/a'"
    );

    let mut run = open(10);
    run.entry("/src/l", stat(0o120777, 2, 1, 10));
    assert_eq!(
        run.step(CopyEvent::Target(Err(IoFailure::Other(std::io::Error::new(
            std::io::ErrorKind::InvalidInput,
            "zero byte"
        ))))),
        "Upstream: Failed to read link '/src'"
    );
    assert_eq!(os_error(&run.action), None);
    match &run.action {
        CopyAction::Finish { result: Err(e) } => match e.cause() {
            Some(Cause::Io(io)) => assert_eq!(io.to_string(), "zero byte"),
            other => panic!("{:?}", other),
        },
        other => panic!("{}", describe(other)),
    }

    let mut run = open(10);
    run.entry("/src/d", stat(DIR, 2, 2, 10));
    let e = errno_error(libc::EACCES, "no directory");
    assert_eq!(run.step(CopyEvent::Made(Err(e))), "Permission: no directory");
}

#[test]
fn entries_without_a_file_name_end_the_copy() {
    let mut run = open(10);
    assert_eq!(
        run.entry("/src/..", stat(DIR, 2, 2, 10)),
        "Upstream: Failed to extract filename from '/src/..'"
    );
}

#[test]
fn inodes_are_kept_between_file_systems_only() {
    let mut inodes = CopyInodes::between(1, 2);
    assert!(inodes.find(7).is_none());
    assert!(inodes.register(7, b"/dst/a".to_vec()).is_ok());
    assert_eq!(inodes.find(7).unwrap(), b"/dst/a");
    assert!(inodes.find(8).is_none());
    let mut inodes = CopyInodes::between(1, 1);
    let e: Error = inodes.register(7, b"/dst/a".to_vec()).unwrap_err();
    assert_eq!(e.kind(), ErrorKind::InvState);
    assert_eq!(e.message(), "Trying to register inode in SameFs copy");
    assert!(inodes.find(7).is_none());
}

#[test]
fn hard_links_are_kept_as_they_were() {
    let source = [("a", 2, 2), ("b", 3, 1), ("c", 4, 2), ("d", 2, 2), ("e", 4, 2), ("f", 5, 1)];
    let mut run = open(11);
    let mut inodes: Vec<(String, usize)> = Vec::new();
    for (name, ino, links) in source {
        run.entry(&format!("/src/{}", name), stat(FILE, ino, links, 10));
        match &run.action {
            CopyAction::CopyFile { dest, .. } => {
                let fresh = inodes.len();
                inodes.push((shown(dest), fresh));
                assert_eq!(run.copied(), "next");
            }
            CopyAction::Link { old_file, new_file } => {
                let old = inodes.iter().find(|(path, _)| *path == shown(old_file)).unwrap().1;
                inodes.push((shown(new_file), old));
                assert_eq!(run.made(), "next");
            }
            other => panic!("{}", describe(other)),
        }
    }
    assert_eq!(run.end(), "done");
    for (i, (name, ino, _)) in source.iter().enumerate() {
        assert_eq!(inodes[i].0, format!("/dst/{}", name));
        for (j, (_, other, _)) in source.iter().enumerate() {
            assert_eq!(inodes[i].1 == inodes[j].1, ino == other);
        }
    }
}

#[test]
fn each_hard_link_is_refused_on_its_own() {
    let mut run = open(11);
    run.entry("/src/a", stat(FILE, 2, 3, 10));
    run.copied();
    assert_eq!(run.entry("/src/b", stat(FILE, 2, 3, 10)), "link /dst/a /dst/b");
    let e = errno_error(libc::EPERM, "no link");
    assert_eq!(run.step(CopyEvent::Made(Err(e))), "copy /src/b /dst/b");
    assert_eq!(run.copied(), "next");
    assert_eq!(run.entry("/src/c", stat(FILE, 2, 3, 10)), "link /dst/a /dst/c");
    assert_eq!(run.made(), "next");
    assert_eq!(run.end(), "done");
}

#[test]
fn linked_entries_may_be_of_any_type() {
    let mut run = open(10);
    assert_eq!(run.entry("/src/x", stat(0o644, 2, 2, 10)), "link /src/x /dst/x");
    assert_eq!(run.made(), "next");
    assert_eq!(run.end(), "done");
}

#[test]
fn paths_follow_the_entries_until_a_failure() {
    let mut run = open(10);
    assert_eq!(run.entry("/src/d", stat(DIR, 2, 2, 10)), "mkdir /dst/d 40755");
    run.made();
    run.step(CopyEvent::Opened(Ok(())));
    assert_eq!(run.entry("/src/d/e", stat(DIR, 3, 2, 10)), "mkdir /dst/d/e 40755");
    run.made();
    run.step(CopyEvent::Opened(Ok(())));
    assert_eq!(run.entry("/src/d/e/f", stat(FILE, 4, 1, 10)), "copy /src/d/e/f /dst/d/e/f");
    assert_eq!(
        run.step(CopyEvent::Copied(Err(failed()))),
        "Upstream: Failed to copy '/src/d/e/f' to '/dst/d/e/f'"
    );
}

#[test]
fn a_failed_copy_has_made_what_came_before() {
    let mut run = open(10);
    let mut made: Vec<String> = vec![run.entry("/src/a", stat(FILE, 2, 1, 10))];
    run.copied();
    made.push(run.entry("/src/d", stat(DIR, 3, 2, 10)));
    run.made();
    run.step(CopyEvent::Opened(Ok(())));
    made.push(run.entry("/src/d/p", stat(0o010600, 4, 1, 10)));
    run.made();
    assert_eq!(
        run.step(CopyEvent::Next(NextEntry::Failed(failed()))),
        "Upstream: Failed to read directory entry for path: '/src/d'"
    );
    assert_eq!(made, ["copy /src/a /dst/a", "mkdir /dst/d 40755", "mkfifo /dst/d/p 10600"]);
}
