use system::text::{about, about_two, display, hex};

#[test]
fn hexadecimal_numbers() {
    assert_eq!(hex(0, 8), "00000000");
    assert_eq!(hex(0o170644, 8), "0000f1a4");
    assert_eq!(hex(u32::MAX, 8), "ffffffff");
    assert_eq!(hex(0x89abcdef, 8), "89abcdef");
    assert_eq!(hex(0x01234567, 4), "4567");
    assert_eq!(hex(1, 0), "");
    let long = hex(0xab, 1_000_000);
    assert_eq!(long.len(), 1_000_000);
    assert!(long.ends_with("000ab"));
}

#[test]
fn paths_are_shown_as_text() {
    assert_eq!(display(b"/tmp/x"), "/tmp/x");
    assert_eq!(display("/tmp/\u{e9}".as_bytes()), "/tmp/\u{e9}");
    assert_eq!(display(b"/tmp/\xff"), "/tmp/\u{fffd}");
}

#[test]
fn messages_about_paths() {
    assert_eq!(about("<", b"a", ">"), "<a>");
    assert_eq!(about_two("<", b"a", "|", b"b", ">"), "<a|b>");
}
