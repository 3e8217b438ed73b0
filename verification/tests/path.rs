use std::path::{Path, PathBuf};

use system::error::ErrorKind;
use system::path::{file_name, path_join, path_to_cstring, starts_with};

const PATHS: [&str; 24] = [
    "", "/", "//", ".", "./", "..", "../", "a", "a/", "a/.", "a/..", "a/./", "./a", "./.", "/a",
    "//a", "/a/b", "/a//b/", "/a/./b", "/a/../b", "/.", "/..", "a/b.c", ".hidden",
];

#[test]
fn file_names_are_those_of_std() {
    for path in PATHS {
        let expected = Path::new(path).file_name().map(|name| name.to_str().unwrap().as_bytes());
        assert_eq!(file_name(path.as_bytes()).as_deref(), expected, "{}", path);
    }
}

#[test]
fn prefixes_are_those_of_std() {
    for path in PATHS {
        for base in PATHS {
            let expected = Path::new(path).starts_with(base);
            assert_eq!(starts_with(path.as_bytes(), base.as_bytes()), expected, "{} {}", path, base);
        }
    }
}

#[test]
fn joined_paths_are_those_of_std() {
    for base in PATHS {
        for path in PATHS {
            let expected: PathBuf = Path::new(base).join(path);
            assert_eq!(
                path_join(base.as_bytes(), path.as_bytes()),
                expected.to_str().unwrap().as_bytes()
            );
        }
    }
}

#[test]
fn components_are_compared_whole() {
    assert!(starts_with(b"/mnt/root/etc", b"/mnt/root"));
    assert!(!starts_with(b"/mnt/rootfs", b"/mnt/root"));
}

#[test]
fn a_joined_name_is_the_file_name() {
    for dir in ["", "/", "/a", "/a/", "."] {
        let path = path_join(dir.as_bytes(), b"name");
        assert_eq!(file_name(&path).unwrap(), b"name");
        assert!(starts_with(&path, dir.as_bytes()));
    }
}

#[test]
fn byte_strings_end_in_zero() {
    assert_eq!(path_to_cstring(b"/a").unwrap(), b"/a\0");
    assert_eq!(path_to_cstring(b"").unwrap(), b"\0");
    let e = path_to_cstring(b"/a\0b").unwrap_err();
    assert_eq!(e.kind(), ErrorKind::Upstream);
    assert_eq!(e.os_error(), None);
}
