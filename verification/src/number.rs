//! Numbers in paths: the process number that a directory below `/proc` is named after, and the
//! path of a process.

use vstd::prelude::*;

use crate::error::ParseFailure;
use crate::path::path_join;
use crate::text;

verus! {

/// Tells whether a character beyond ASCII is a decimal digit of some script.
pub uninterp spec fn is_other_digit(c: char) -> bool;

/// A decimal digit: one of the ten of ASCII, or one of another script, which `other` tells.
pub open spec fn is_digit(c: char, other: spec_fn(char) -> bool) -> bool {
    if (c as int) < 128 {
        '0' <= c <= '9'
    } else {
        other(c)
    }
}

/// The place of the last slash of a text, or -1.
pub open spec fn last_slash(text: Seq<char>) -> int
    decreases text.len(),
{
    if text.len() == 0 {
        -1
    } else if text.last() == '/' {
        text.len() - 1
    } else {
        last_slash(text.drop_last())
    }
}

/// The digits at the end of a text: what follows its last slash, if that is made of digits alone,
/// and if no line ends before the slash.
pub open spec fn final_digits(text: Seq<char>, other: spec_fn(char) -> bool) -> Option<Seq<char>> {
    let at = last_slash(text);
    let digits = text.skip(at + 1);
    if at >= 0 && !text.take(at).contains('\n') && digits.len() > 0 && (forall|i: int|
        0 <= i < digits.len() ==> is_digit(#[trigger] digits[i], other)) {
        Some(digits)
    } else {
        None
    }
}

/// Calls `regex::Regex::new` on the pattern `^.*/(\d+)$` and `Regex::captures` on the text.
///
/// Claims that the first group holds what [`final_digits`] says: `.` stands for any character but
/// the line feed, `\d` for a decimal digit of any script, `^` and `$` for the ends of the text.
/// Which characters beyond ASCII are digits is a table of the outside crate and is only named.
#[verifier::external_body]
fn capture_digits(text: &str) -> (r: Option<String>)
    ensures
        match r {
            Some(digits) => final_digits(text@, |c: char| is_other_digit(c)) == Some(digits@),
            None => final_digits(text@, |c: char| is_other_digit(c)) is None,
        },
{
    let pattern = regex::Regex::new(r"^.*/(\d+)$").unwrap();
    pattern.captures(text).map(|found| found[1].to_owned())
}

/// The number that ASCII digits stand for.
pub open spec fn decimal_value(digits: Seq<char>) -> nat
    decreases digits.len(),
{
    if digits.len() == 0 {
        0
    } else {
        decimal_value(digits.drop_last()) * 10 + (digits.last() as nat - '0' as nat) as nat
    }
}

/// Tells whether a text is made of ASCII digits alone, at least one.
pub open spec fn is_decimal(text: Seq<char>) -> bool {
    text.len() > 0 && forall|i: int| 0 <= i < text.len() ==> '0' <= #[trigger] text[i] <= '9'
}

/// Tells whether a text of ASCII digits stands for a number that is not too large.
pub open spec fn is_readable(text: Seq<char>) -> bool {
    is_decimal(text) && decimal_value(text) <= i32::MAX
}

/// What is wrong with a text that is not a number: the first character with which it stops to be one
/// is no digit, or makes the number too large.
pub open spec fn parse_failure(text: Seq<char>) -> ParseFailure
    decreases text.len(),
{
    if text.len() == 0 {
        ParseFailure::Empty
    } else if text.len() > 1 && !is_readable(text.drop_last()) {
        parse_failure(text.drop_last())
    } else if '0' <= text.last() <= '9' {
        ParseFailure::PosOverflow
    } else {
        ParseFailure::InvalidDigit
    }
}

/// The number that a text of ASCII digits stands for, or what is wrong with it.
pub open spec fn parse_spec(text: Seq<char>) -> Result<i32, ParseFailure> {
    if is_readable(text) {
        Ok(decimal_value(text) as i32)
    } else {
        Err(parse_failure(text))
    }
}

proof fn decimal_value_grows(digits: Seq<char>, n: int)
    requires
        0 <= n <= digits.len(),
    ensures
        decimal_value(digits.take(n)) <= decimal_value(digits),
    decreases digits.len(),
{
    if n == digits.len() {
        assert(digits.take(n) =~= digits);
    } else {
        let shorter = digits.drop_last();
        decimal_value_grows(shorter, n);
        assert(shorter.take(n) =~= digits.take(n));
    }
}

/// What is wrong with the start of a text is wrong with the text.
proof fn failure_stays(text: Seq<char>, n: int)
    requires
        0 < n <= text.len(),
        !is_readable(text.take(n)),
    ensures
        !is_readable(text),
        parse_failure(text) == parse_failure(text.take(n)),
    decreases text.len(),
{
    if n == text.len() {
        assert(text.take(n) =~= text);
    } else {
        let shorter = text.drop_last();
        assert(shorter.take(n) =~= text.take(n));
        failure_stays(shorter, n);
        if is_readable(text) {
            decimal_value_grows(text, shorter.len() as int);
            assert(text.take(shorter.len() as int) =~= shorter);
            assert forall|i: int| 0 <= i < shorter.len() implies '0' <= #[trigger] shorter[i] <= '9' by {
                assert(shorter[i] == text[i]);
            }
        }
    }
}

/// Reads a number that is written in ASCII digits.
pub fn parse_number(text: &str) -> (r: Result<i32, ParseFailure>)
    ensures
        r == parse_spec(text@),
{
    let n: usize = text.unicode_len();
    if n == 0 {
        return Err(ParseFailure::Empty);
    }
    let mut value: i32 = 0;
    for i in 0..n
        invariant
            n == text@.len(),
            value >= 0,
            value == decimal_value(text@.take(i as int)),
            forall|j: int| 0 <= j < i ==> '0' <= #[trigger] text@[j] <= '9',
    {
        let c: char = text.get_char(i);
        let ghost start = text@.take(i + 1);
        proof {
            assert(start.drop_last() =~= text@.take(i as int));
            assert(start.last() == c);
            if i > 0 {
                assert(is_readable(start.drop_last()));
            }
        }
        if c < '0' || c > '9' {
            proof {
                assert(start[i as int] == c);
                failure_stays(text@, i + 1);
            }
            return Err(ParseFailure::InvalidDigit);
        }
        let digit: i32 = (c as u32 - '0' as u32) as i32;
        if value > (i32::MAX - digit) / 10 {
            proof {
                failure_stays(text@, i + 1);
            }
            return Err(ParseFailure::PosOverflow);
        }
        value = value * 10 + digit;
    }
    assert(text@.take(n as int) =~= text@);
    Ok(value)
}

/// What a path says about the number that it ends in.
#[derive(Clone, Copy, Debug, PartialEq, Eq, Structural)]
pub enum PathNumber {
    /// It does not end in a number.
    Absent,
    /// It ends in digits that are too many, or not those of ASCII.
    Unreadable(ParseFailure),
    /// It ends in this number.
    Number(i32),
}

/// The number that a text ends in.
pub open spec fn text_number_spec(text: Seq<char>) -> PathNumber {
    match final_digits(text, |c: char| is_other_digit(c)) {
        None => PathNumber::Absent,
        Some(digits) => match parse_spec(digits) {
            Err(failure) => PathNumber::Unreadable(failure),
            Ok(number) => PathNumber::Number(number),
        },
    }
}

/// The number that a path ends in.
pub open spec fn path_number_spec(path: Seq<u8>) -> PathNumber {
    text_number_spec(text::lossy_text(path))
}

/// Finds the number that a text ends in.
pub fn text_number(text: &str) -> (r: PathNumber)
    ensures
        r == text_number_spec(text@),
{
    match capture_digits(text) {
        None => PathNumber::Absent,
        Some(digits) => match parse_number(digits.as_str()) {
            Err(failure) => PathNumber::Unreadable(failure),
            Ok(number) => PathNumber::Number(number),
        },
    }
}

/// Finds the number that a path ends in.
pub fn path_number(path: &[u8]) -> (r: PathNumber)
    ensures
        r == path_number_spec(path@),
        vstd::utf8::valid_utf8(path@) ==> r == text_number_spec(vstd::utf8::decode_utf8(path@)),
{
    let shown = text::display(path);
    text_number(shown.as_str())
}

/// The decimal digits of a number, as bytes.
pub open spec fn decimal_digits(n: nat) -> Seq<u8>
    decreases n,
{
    if n < 10 {
        seq![(48 + n) as u8]
    } else {
        decimal_digits(n / 10).push((48 + n % 10) as u8)
    }
}

/// A number in decimal, with a sign if it is negative.
pub open spec fn decimal_spec(n: int) -> Seq<u8> {
    if n < 0 {
        seq![45u8] + decimal_digits((-n) as nat)
    } else {
        decimal_digits(n as nat)
    }
}

fn add_decimal(out: &mut Vec<u8>, n: u32)
    ensures
        final(out)@ == old(out)@ + decimal_digits(n as nat),
    decreases n,
{
    if n >= 10 {
        add_decimal(out, n / 10);
    }
    let digit: u8 = (n % 10) as u8;
    out.push(48 + digit);
    assert(out@ =~= old(out)@ + decimal_digits(n as nat));
}

/// Writes a number in decimal.
pub fn decimal(n: i32) -> (r: Vec<u8>)
    ensures
        r@ == decimal_spec(n as int),
{
    let mut r: Vec<u8> = Vec::new();
    if n < 0 {
        r.push(45);
        let magnitude: i64 = -(n as i64);
        add_decimal(&mut r, magnitude as u32);
        assert(r@ =~= decimal_spec(n as int));
    } else {
        add_decimal(&mut r, n as u32);
        assert(r@ =~= decimal_spec(n as int));
    }
    r
}

/// The path of the directory of all processes: `/proc`.
pub open spec fn proc_dir_spec() -> Seq<u8> {
    seq![47u8, 112u8, 114u8, 111u8, 99u8]
}

/// The path of the directory of all processes.
pub fn proc_dir() -> (r: Vec<u8>)
    ensures
        r@ == proc_dir_spec(),
{
    let r: Vec<u8> = vec![47u8, 112u8, 114u8, 111u8, 99u8];
    assert(r@ =~= proc_dir_spec());
    r
}

/// The path of the directory of a process.
pub open spec fn proc_path_spec(pid: i32) -> Seq<u8> {
    crate::path::join_spec(proc_dir_spec(), decimal_spec(pid as int))
}

/// The path of the directory of a process.
pub fn proc_path(pid: i32) -> (r: Vec<u8>)
    ensures
        r@ == proc_path_spec(pid),
{
    path_join(proc_dir().as_slice(), decimal(pid).as_slice())
}

/// The text that ASCII bytes encode.
spec fn ascii_text(bytes: Seq<u8>) -> Seq<char> {
    Seq::new(bytes.len(), |i: int| bytes[i] as char)
}

proof fn digits_read_back(n: nat)
    ensures
        decimal_digits(n).len() > 0,
        forall|i: int| 0 <= i < decimal_digits(n).len() ==> 48 <= #[trigger] decimal_digits(n)[i]
            <= 57,
        decimal_value(ascii_text(decimal_digits(n))) == n,
    decreases n,
{
    let text = ascii_text(decimal_digits(n));
    if n < 10 {
        assert(text.drop_last() =~= Seq::empty());
        assert(decimal_value(text.drop_last()) == 0);
    } else {
        digits_read_back(n / 10);
        assert(text.drop_last() =~= ascii_text(decimal_digits(n / 10)));
    }
}

proof fn last_slash_before(text: Seq<char>, at: int)
    requires
        0 <= at < text.len(),
        text[at] == '/',
        forall|i: int| at < i < text.len() ==> text[i] != '/',
    ensures
        last_slash(text) == at,
    decreases text.len(),
{
    if at < text.len() - 1 {
        last_slash_before(text.drop_last(), at);
    }
}

/// The number that the path of a process ends in is that of the process.
pub proof fn proc_path_ends_in_the_pid(pid: i32)
    requires
        pid >= 0,
    ensures
        vstd::utf8::valid_utf8(proc_path_spec(pid)),
        text_number_spec(vstd::utf8::decode_utf8(proc_path_spec(pid))) == PathNumber::Number(pid),
{
    let path = proc_path_spec(pid);
    let digits = decimal_digits(pid as nat);
    digits_read_back(pid as nat);
    assert(digits[0] != crate::path::SLASH);
    assert(path =~= proc_dir_spec().push(crate::path::SLASH) + digits);
    assert forall|i: int| 0 <= i < path.len() implies 47 <= #[trigger] path[i] < 128 by {
        if i >= 6 {
            assert(path[i] == digits[i - 6]);
        }
    }
    let text = ascii_text(path);
    vstd::utf8::is_ascii_chars_encode_utf8(text);
    vstd::utf8::encode_utf8_valid_utf8(text);
    vstd::utf8::encode_utf8_decode_utf8(text);
    assert(vstd::utf8::encode_utf8(text) =~= path);
    assert(path[5] == 47);
    assert forall|i: int| 5 < i < text.len() implies text[i] != '/' by {
        assert(path[i] == digits[i - 6]);
    }
    last_slash_before(text, 5);
    let number = text.skip(6);
    assert(number =~= ascii_text(digits));
    assert(!text.take(5).contains('\n')) by {
        if text.take(5).contains('\n') {
            let i = choose|i: int| 0 <= i < 5 && text.take(5)[i] == '\n';
            assert(text[i] == '\n');
            assert(path[i] >= 47);
        }
    }
    assert(forall|i: int| 0 <= i < number.len() ==> '0' <= #[trigger] number[i] <= '9');
}

/// A number is read digit by digit: one more digit makes it ten times as large and adds the value of the
/// digit. It stops to be one with the first character that is no digit or that makes it too large for
/// 31 bits, and nothing that follows changes that.
pub proof fn numbers_are_read_digit_by_digit(
    text: &str,
    longer: &str,
    c: char,
    r: Result<i32, ParseFailure>,
    q: Result<i32, ParseFailure>,
)
    requires
        call_ensures(parse_number, (text,), r),
        call_ensures(parse_number, (longer,), q),
        longer@ == text@.push(c),
    ensures
        text@.len() == 0 ==> r == Err::<i32, ParseFailure>(ParseFailure::Empty),
        text@.len() == 0 || r is Ok ==> {
            let value: int = if text@.len() == 0 {
                0
            } else {
                r->Ok_0 as int
            };
            if !('0' <= c <= '9') {
                q == Err::<i32, ParseFailure>(ParseFailure::InvalidDigit)
            } else if value * 10 + (c as int - 48) > 0x7fff_ffff {
                q == Err::<i32, ParseFailure>(ParseFailure::PosOverflow)
            } else {
                q is Ok && q->Ok_0 == value * 10 + (c as int - 48)
            }
        },
        text@.len() > 0 && r is Err ==> q == r,
{
    let whole = longer@;
    assert(whole.drop_last() =~= text@);
    assert(whole.last() == c);
    assert(whole[whole.len() - 1] == c);
    assert(decimal_value(whole) == decimal_value(text@) * 10 + (c as nat - '0' as nat) as nat);
    if !('0' <= c <= '9') {
        assert(!is_decimal(whole));
    }
    if text@.len() > 0 {
        assert(r is Ok ==> is_readable(text@) && r->Ok_0 == decimal_value(text@));
        if is_readable(whole) {
            assert forall|i: int| 0 <= i < text@.len() implies '0' <= #[trigger] text@[i] <= '9' by {
                assert(whole[i] == text@[i]);
            }
            decimal_value_grows(whole, text@.len() as int);
            assert(whole.take(text@.len() as int) =~= text@);
        }
        if is_readable(text@) && '0' <= c <= '9' {
            assert forall|i: int| 0 <= i < whole.len() implies '0' <= #[trigger] whole[i] <= '9' by {
                if i < text@.len() {
                    assert(whole[i] == text@[i]);
                }
            }
            assert(is_decimal(whole));
        }
    } else {
        assert(text@ =~= Seq::empty());
        assert(decimal_value(text@) == 0);
        if '0' <= c <= '9' {
            assert(is_decimal(whole));
        }
    }
}

/// The number that a text ends in is what follows its last slash, if that is made of digits alone, at
/// least one, and if there is no line feed before the slash.
pub proof fn numbers_follow_the_last_slash(
    before: Seq<char>,
    digits: &str,
    text: &str,
    r: PathNumber,
    n: Result<i32, ParseFailure>,
)
    requires
        text@ == before + seq!['/'] + digits@,
        !digits@.contains('/'),
        call_ensures(text_number, (text,), r),
        call_ensures(parse_number, (digits,), n),
    ensures
        ({
            let made_of_digits = digits@.len() > 0 && forall|i: int|
                0 <= i < digits@.len() ==> {
                    ||| '0' <= #[trigger] digits@[i] <= '9'
                    ||| digits@[i] as int >= 128 && is_other_digit(digits@[i])
                };
            if before.contains('\n') || !made_of_digits {
                r == PathNumber::Absent
            } else {
                match n {
                    Ok(number) => r == PathNumber::Number(number),
                    Err(failure) => r == PathNumber::Unreadable(failure),
                }
            }
        }),
{
    let at = before.len() as int;
    let whole = text@;
    assert(whole[at] == '/');
    assert forall|i: int| at < i < whole.len() implies whole[i] != '/' by {
        assert(whole[i] == digits@[i - at - 1]);
        if whole[i] == '/' {
            assert(digits@.contains('/'));
        }
    }
    last_slash_before(whole, at);
    assert(whole.skip(at + 1) =~= digits@);
    assert(whole.take(at) =~= before);
    let other = |c: char| is_other_digit(c);
    assert forall|i: int| 0 <= i < digits@.len() implies is_digit(#[trigger] digits@[i], other) == {
        ||| '0' <= digits@[i] <= '9'
        ||| digits@[i] as int >= 128 && is_other_digit(digits@[i])
    } by {}
    if digits@.len() > 0 && forall|i: int|
        0 <= i < digits@.len() ==> is_digit(#[trigger] digits@[i], other) {
        assert forall|i: int| 0 <= i < digits@.len() implies {
            ||| '0' <= #[trigger] digits@[i] <= '9'
            ||| digits@[i] as int >= 128 && is_other_digit(digits@[i])
        } by {
            assert(is_digit(digits@[i], other));
        }
    }
}

/// A text without a slash does not end in a number.
pub proof fn texts_without_a_slash_have_no_number(text: &str, r: PathNumber)
    requires
        call_ensures(text_number, (text,), r),
        !text@.contains('/'),
    ensures
        r == PathNumber::Absent,
{
    no_last_slash(text@);
}

proof fn no_last_slash(text: Seq<char>)
    requires
        !text.contains('/'),
    ensures
        last_slash(text) == -1,
    decreases text.len(),
{
    if text.len() > 0 {
        let shorter = text.drop_last();
        assert(text[text.len() - 1] != '/');
        assert(!shorter.contains('/')) by {
            if shorter.contains('/') {
                let i = choose|i: int| 0 <= i < shorter.len() && shorter[i] == '/';
                assert(text[i] == '/');
            }
        }
        no_last_slash(shorter);
    }
}

/// The number that a path ends in is the one that its text ends in.
pub proof fn paths_end_in_the_number_of_their_text(
    path: &[u8],
    shown: String,
    text: &str,
    r: PathNumber,
    q: PathNumber,
)
    requires
        call_ensures(text::display, (path,), shown),
        text@ == shown@,
        call_ensures(path_number, (path,), r),
        call_ensures(text_number, (text,), q),
    ensures
        r == q,
        r == path_number_spec(path@),
{
}

/// A number in decimal is that of a tenth of it, rounded towards zero, and one more digit. Numbers of
/// one digit are that digit, after a minus sign if they are negative.
pub proof fn decimals_end_in_the_last_digit(n: i32, tenth: i32, r: Vec<u8>, q: Vec<u8>)
    requires
        call_ensures(decimal, (n,), r),
        call_ensures(decimal, (tenth,), q),
        n >= 0 ==> tenth == n as int / 10,
        n < 0 ==> tenth == -((-n as int) / 10),
    ensures
        0 <= n < 10 ==> r@ == seq![(48 + n) as u8],
        -10 < n < 0 ==> r@ == seq![45u8, (48 - n) as u8],
        n >= 10 ==> r@ == q@.push((48 + n as int % 10) as u8),
        n <= -10 ==> r@ == q@.push((48 + (-n as int) % 10) as u8),
        r@ == decimal_spec(n as int),
{
    if -10 < n < 0 {
        assert(r@ =~= seq![45u8, (48 - n) as u8]);
    }
    if n <= -10 {
        let m = (-n) as nat;
        assert(decimal_digits(m) == decimal_digits(m / 10).push((48 + m % 10) as u8));
        assert(r@ =~= q@.push((48 + (-n as int) % 10) as u8));
    }
}

/// The path of a process is `/proc/` and its number in decimal.
pub proof fn process_paths_hold_the_number(pid: i32, path: Vec<u8>, dir: Vec<u8>, number: Vec<u8>)
    requires
        call_ensures(proc_path, (pid,), path),
        call_ensures(proc_dir, (), dir),
        call_ensures(decimal, (pid,), number),
    ensures
        dir@ == seq![47u8, 112u8, 114u8, 111u8, 99u8],
        path@ == dir@ + seq![47u8] + number@,
        path@ == proc_path_spec(pid),
        dir@ == proc_dir_spec(),
{
    process_paths_are_joined(pid);
    assert(path@ =~= dir@ + seq![47u8] + number@);
}

pub(crate) proof fn process_paths_are_joined(pid: i32)
    ensures
        proc_path_spec(pid) == seq![47u8, 112u8, 114u8, 111u8, 99u8, 47u8] + decimal_spec(
            pid as int,
        ),
{
    let magnitude: int = if pid < 0 {
        -pid
    } else {
        pid as int
    };
    digits_read_back(magnitude as nat);
    assert(decimal_digits(magnitude as nat)[0] != 47);
    assert(decimal_spec(pid as int)[0] != 47);
    assert(proc_path_spec(pid) =~= seq![47u8, 112u8, 114u8, 111u8, 99u8, 47u8] + decimal_spec(
        pid as int,
    ));
}

} // verus!
