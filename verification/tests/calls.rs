use system::calls::{chmod, link, lstat, mkdir, mkfifo, mknod, paths_to_cstrings, stat, symlink};
use system::error::{errno_error, ErrorKind};
use system::stat::FileStat;

const STAT: FileStat =
    FileStat { st_dev: 1, st_ino: 2, st_nlink: 3, st_mode: 0o100644, st_rdev: 5 };

fn fail() {
    assert!(nix::unistd::close(-1).is_err());
}

#[test]
fn successful_calls() {
    assert_eq!(lstat(b"/a", 0, STAT).unwrap(), STAT);
    assert_eq!(stat(b"/a", 0, STAT).unwrap(), STAT);
    assert!(mkfifo(b"/a", 0).is_ok());
    assert!(mknod(b"/a", 0).is_ok());
    assert!(mkdir(b"/a", 0).is_ok());
    assert!(chmod(b"/a", Ok(0)).is_ok());
    assert!(link(b"/a", b"/b", 0).is_ok());
    assert!(symlink(b"/a", b"/b", 0).is_ok());
}

#[test]
fn failed_calls_name_the_path() {
    fail();
    let e = lstat(b"/a", -1, STAT).unwrap_err();
    assert_eq!(e.message(), "libc::lstat failed for path: '/a'");
    assert_eq!(e.os_error(), Some(libc::EBADF));
    assert_eq!(e.kind(), ErrorKind::Upstream);
    assert_eq!(
        stat(b"/a", -1, STAT).unwrap_err().message(),
        "libc::stat failed for path: '/a'"
    );
    assert_eq!(mkfifo(b"/a", -1).unwrap_err().message(), "libc::mkfifo failed for path: '/a'");
    assert_eq!(mknod(b"/a", -1).unwrap_err().message(), "libc::mknod failed for path: '/a'");
    assert_eq!(mkdir(b"/a", -1).unwrap_err().message(), "libc::mkdir failed for path: '/a'");
    assert_eq!(chmod(b"/a", Ok(-1)).unwrap_err().message(), "fchmod failed on file '/a'");
}

#[test]
fn failed_calls_name_both_paths() {
    fail();
    let e = link(b"/a", b"/b", -1).unwrap_err();
    assert_eq!(e.message(), "libc::link failed for path: '/a', '/b'");
    assert_eq!(e.os_error(), Some(libc::EBADF));
    let e = symlink(b"x", b"/b", 1).unwrap_err();
    assert_eq!(e.message(), "libc::symlink failed for path: 'x', '/b'");
}

#[test]
fn invalid_bytes_are_shown_replaced() {
    fail();
    let e = mkdir(b"/a\xff", -1).unwrap_err();
    assert_eq!(e.message(), "libc::mkdir failed for path: '/a\u{fffd}'");
}

#[test]
fn two_byte_strings() {
    assert_eq!(paths_to_cstrings(b"a", b"b").unwrap(), (b"a\0".to_vec(), b"b\0".to_vec()));
    let e = paths_to_cstrings(b"a\0", b"b\0").unwrap_err();
    assert_eq!(e.message(), "Failed to convert path to C string: 'a\0'");
    let e = paths_to_cstrings(b"a", b"b\0").unwrap_err();
    assert_eq!(e.message(), "Failed to convert path to C string: 'b\0'");
}

#[test]
fn a_file_that_cannot_be_opened() {
    let e = chmod(b"/a", Err(errno_error(libc::ENOENT, "no file"))).unwrap_err();
    assert_eq!(e.kind(), ErrorKind::FileNotFound);
    assert_eq!(e.message(), "no file");
    assert_eq!(e.os_error(), Some(libc::ENOENT));
}
