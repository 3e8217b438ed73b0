use system::error::{
    errno_error, sys_error, Cause, Error, ErrorKind, IoFailure, EACCES, EEXIST, ENOENT, ENXIO, EPERM,
};

#[test]
fn error_numbers_are_those_of_the_system() {
    assert_eq!(EPERM, libc::EPERM);
    assert_eq!(EACCES, libc::EACCES);
    assert_eq!(ENOENT, libc::ENOENT);
    assert_eq!(ENXIO, libc::ENXIO);
    assert_eq!(EEXIST, libc::EEXIST);
}

#[test]
fn each_error_number_has_its_kind() {
    let expected = [
        (libc::EPERM, ErrorKind::NotPermitted),
        (libc::EACCES, ErrorKind::Permission),
        (libc::ENOENT, ErrorKind::FileNotFound),
        (libc::ENXIO, ErrorKind::DeviceNotFound),
        (libc::EEXIST, ErrorKind::FileExists),
        (libc::EIO, ErrorKind::Upstream),
        (0, ErrorKind::Upstream),
        (-1, ErrorKind::Upstream),
    ];
    for (errno, kind) in expected {
        let e = errno_error(errno, "it failed");
        assert_eq!(e.kind(), kind);
        assert_eq!(e.message(), "it failed");
        assert_eq!(e.os_error(), Some(errno));
    }
}

#[test]
fn sys_error_reads_the_error_number() {
    assert!(nix::unistd::close(-1).is_err());
    let e = sys_error("close failed");
    assert_eq!(e.os_error(), Some(libc::EBADF));
    assert_eq!(e.kind(), ErrorKind::Upstream);
    assert_eq!(e.message(), "close failed");
}

#[test]
fn sys_error_without_a_failure() {
    nix::errno::Errno::clear();
    let e = sys_error("nothing failed");
    assert_eq!(e.os_error(), Some(0));
    assert_eq!(e.kind(), ErrorKind::Upstream);
}

#[test]
fn errors_keep_what_they_are_made_of() {
    let e = Error::with_context(ErrorKind::InvParam, "bad");
    assert_eq!((e.kind(), e.message(), e.os_error()), (ErrorKind::InvParam, "bad", None));
    assert!(e.cause().is_none());
    let e = Error::with_all(ErrorKind::Upstream, "worse", Cause::Os(5));
    assert_eq!((e.kind(), e.message(), e.os_error()), (ErrorKind::Upstream, "worse", Some(5)));
    assert!(matches!(e.cause(), Some(Cause::Os(5))));
    let io = std::io::Error::new(std::io::ErrorKind::InvalidInput, "zero byte");
    let e = Error::with_all(ErrorKind::Upstream, "worst", Cause::Io(io));
    assert_eq!(e.os_error(), None);
    match e.cause() {
        Some(Cause::Io(io)) => {
            assert_eq!(io.kind(), std::io::ErrorKind::InvalidInput);
            assert_eq!(io.to_string(), "zero byte");
        }
        other => panic!("{:?}", other),
    }
}

#[test]
fn failures_become_causes() {
    assert!(matches!(IoFailure::Os(2).into_cause(), Cause::Os(2)));
    let io = std::io::Error::new(std::io::ErrorKind::Other, "odd");
    match IoFailure::Other(io).into_cause() {
        Cause::Io(io) => assert_eq!(io.to_string(), "odd"),
        other => panic!("{:?}", other),
    }
}
