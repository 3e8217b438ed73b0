use system::error::ParseFailure;
use system::number::{
    decimal, parse_number, path_number, proc_dir, proc_path, text_number, PathNumber,
};

#[test]
fn numbers_at_the_end_of_paths() {
    assert_eq!(path_number(b"/proc/1"), PathNumber::Number(1));
    assert_eq!(path_number(b"/proc/1234/fd/17"), PathNumber::Number(17));
    assert_eq!(path_number(b"/proc/007"), PathNumber::Number(7));
    assert_eq!(path_number(b"/0"), PathNumber::Number(0));
    assert_eq!(path_number(b"/proc/2147483647"), PathNumber::Number(i32::MAX));
}

#[test]
fn paths_without_a_number() {
    for path in ["/proc/self", "/proc/1/", "1", "", "/", "/proc/-1", "/proc/+1", "/proc/1a", "/a\nb/1"] {
        assert_eq!(path_number(path.as_bytes()), PathNumber::Absent, "{}", path);
    }
    assert_eq!(path_number(b"/proc/1\n"), PathNumber::Absent);
    assert_eq!(path_number(b"/proc/1\xff"), PathNumber::Absent);
}

#[test]
fn unreadable_numbers() {
    let large = PathNumber::Unreadable(ParseFailure::PosOverflow);
    assert_eq!(path_number(b"/proc/2147483648"), large);
    assert_eq!(path_number(b"/proc/99999999999999999999"), large);
    let invalid = PathNumber::Unreadable(ParseFailure::InvalidDigit);
    assert_eq!(text_number("/proc/\u{661}"), invalid);
    assert_eq!(text_number("/proc/12\u{661}"), invalid);
}

#[test]
fn digits_are_read_as_std_reads_them() {
    let texts = [
        "0", "0042", "2147483647", "2147483648", "4294967296", "", "1 ", "\u{661}", "99999999999x",
        "214748364x", "2147483648x", "2147483647x", "00000000000000000007", "x",
    ];
    for text in texts {
        let expected = text.parse::<i32>().map_err(|e| match e.kind() {
            std::num::IntErrorKind::Empty => ParseFailure::Empty,
            std::num::IntErrorKind::InvalidDigit => ParseFailure::InvalidDigit,
            std::num::IntErrorKind::PosOverflow => ParseFailure::PosOverflow,
            other => panic!("{:?}", other),
        });
        assert_eq!(parse_number(text), expected, "{}", text);
    }
    assert_eq!(parse_number("0042"), Ok(42));
    assert_eq!(parse_number("4294967296"), Err(ParseFailure::PosOverflow));
}

#[test]
fn decimal_numbers() {
    for n in [0, 7, 10, 99, 100, 12345, i32::MAX, -1, -10, i32::MIN] {
        assert_eq!(decimal(n), n.to_string().into_bytes());
    }
}

#[test]
fn paths_of_processes_read_back() {
    assert_eq!(proc_dir(), b"/proc");
    assert_eq!(proc_path(42), b"/proc/42");
    assert_eq!(proc_path(-3), b"/proc/-3");
    for pid in [0, 1, 9, 10, 4711, i32::MAX] {
        assert_eq!(path_number(&proc_path(pid)), PathNumber::Number(pid));
    }
}
