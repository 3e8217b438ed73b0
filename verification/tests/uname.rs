use system::error::ErrorKind;
use system::path::path_to_cstring;
use system::uname::{string_from_c_string, uname, Names};

fn raw(text: &str) -> Vec<u8> {
    let mut bytes = text.as_bytes().to_vec();
    bytes.resize(65, 0);
    bytes
}

fn names() -> Names<Vec<u8>> {
    Names {
        sysname: raw("Linux"),
        nodename: raw("node"),
        release: raw("5.4.0"),
        version: raw("#1 SMP"),
        machine: raw("x86_64"),
        domainname: raw(""),
    }
}

#[test]
fn names_of_the_system() {
    let names = uname(0, &names()).unwrap();
    assert_eq!(names.get_sysname(), "Linux");
    assert_eq!(names.get_nodename(), "node");
    assert_eq!(names.get_release(), "5.4.0");
    assert_eq!(names.get_version(), "#1 SMP");
    assert_eq!(names.get_machine(), "x86_64");
    assert_eq!(names.get_domainname(), "");
}

#[test]
fn failed_uname() {
    assert!(nix::unistd::close(-1).is_err());
    let e = uname(-1, &names()).unwrap_err();
    assert_eq!(e.kind(), ErrorKind::Upstream);
    assert_eq!(e.message(), "A call to uname failed");
    assert_eq!(e.os_error(), Some(libc::EBADF));
}

#[test]
fn the_first_bad_name_decides() {
    let mut bad = names();
    bad.release = b"\xff\0".to_vec();
    bad.machine = b"abc".to_vec();
    assert_eq!(uname(0, &bad).unwrap_err().kind(), ErrorKind::Upstream);
    bad.release = raw("5.4.0");
    assert_eq!(uname(0, &bad).unwrap_err().kind(), ErrorKind::InvParam);
}

#[test]
fn byte_strings() {
    assert_eq!(string_from_c_string(b"abc\0def\0").unwrap(), "abc");
    assert_eq!(string_from_c_string(b"\0").unwrap(), "");
    assert_eq!(string_from_c_string("\u{e9}\0".as_bytes()).unwrap(), "\u{e9}");
    assert_eq!(string_from_c_string(b"ok\0\xff").unwrap(), "ok");
    assert_eq!(string_from_c_string(b"").unwrap_err().kind(), ErrorKind::InvParam);
    assert_eq!(string_from_c_string(b"abc").unwrap_err().message(), "Not a zero terminated string");
    assert_eq!(
        string_from_c_string(b"\xff\0").unwrap_err().message(),
        "Failed to convert C string to text"
    );
}

#[test]
fn paths_read_back() {
    let bytes = path_to_cstring(b"/etc/hosts").unwrap();
    assert_eq!(string_from_c_string(&bytes).unwrap(), "/etc/hosts");
}
