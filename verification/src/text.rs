//! Text for messages: paths as they are shown to people, and numbers.

use vstd::prelude::*;

verus! {

/// The text that raw bytes are shown as: valid UTF-8 as it stands, with everything else replaced.
pub uninterp spec fn lossy_text(bytes: Seq<u8>) -> Seq<char>;

/// Calls `String::from_utf8_lossy`.
///
/// Claims that the text depends on the bytes alone, and that bytes that are valid UTF-8 come out
/// as the text that they encode. Which replacement characters stand for invalid bytes is not said.
#[verifier::external_body]
fn from_utf8_lossy(bytes: &[u8]) -> (r: String)
    ensures
        r@ == lossy_text(bytes@),
        vstd::utf8::valid_utf8(bytes@) ==> r@ == vstd::utf8::decode_utf8(bytes@),
{
    String::from_utf8_lossy(bytes).into_owned()
}

/// The text that a path is shown as in messages.
pub fn display(path: &[u8]) -> (r: String)
    ensures
        r@ == lossy_text(path@),
        vstd::utf8::valid_utf8(path@) ==> r@ == vstd::utf8::decode_utf8(path@),
{
    from_utf8_lossy(path)
}

/// A message that shows one path: the path's text between two pieces of fixed text.
pub open spec fn about_spec(before: Seq<char>, path: Seq<u8>, after: Seq<char>) -> Seq<char> {
    before + lossy_text(path) + after
}

/// Builds a message that shows one path.
pub fn about(before: &str, path: &[u8], after: &str) -> (r: String)
    ensures
        r@ == about_spec(before@, path@, after@),
{
    let shown = display(path);
    before.to_owned().concat(shown.as_str()).concat(after)
}

/// A message that shows two paths.
pub open spec fn about_two_spec(
    before: Seq<char>,
    first: Seq<u8>,
    between: Seq<char>,
    second: Seq<u8>,
    after: Seq<char>,
) -> Seq<char> {
    before + lossy_text(first) + between + lossy_text(second) + after
}

/// Builds a message that shows two paths.
pub fn about_two(before: &str, first: &[u8], between: &str, second: &[u8], after: &str) -> (r:
    String)
    ensures
        r@ == about_two_spec(before@, first@, between@, second@, after@),
{
    let start = about(before, first, between);
    let shown = display(second);
    start.concat(shown.as_str()).concat(after)
}

/// The hexadecimal digit of a number below sixteen, in lower case.
pub open spec fn hex_char(n: int) -> char {
    if n == 0 {
        '0'
    } else if n == 1 {
        '1'
    } else if n == 2 {
        '2'
    } else if n == 3 {
        '3'
    } else if n == 4 {
        '4'
    } else if n == 5 {
        '5'
    } else if n == 6 {
        '6'
    } else if n == 7 {
        '7'
    } else if n == 8 {
        '8'
    } else if n == 9 {
        '9'
    } else if n == 10 {
        'a'
    } else if n == 11 {
        'b'
    } else if n == 12 {
        'c'
    } else if n == 13 {
        'd'
    } else if n == 14 {
        'e'
    } else {
        'f'
    }
}

/// A number in hexadecimal, with exactly `width` digits, the low ones.
pub open spec fn hex_digits(n: nat, width: nat) -> Seq<char>
    decreases width,
{
    if width == 0 {
        Seq::empty()
    } else {
        hex_digits(n / 16, (width - 1) as nat).push(hex_char((n % 16) as int))
    }
}

fn hex_digit(n: u32) -> (r: &'static str)
    requires
        n < 16,
    ensures
        r@ == seq![hex_char(n as int)],
{
    proof {
        reveal_strlit("0");
        reveal_strlit("1");
        reveal_strlit("2");
        reveal_strlit("3");
        reveal_strlit("4");
        reveal_strlit("5");
        reveal_strlit("6");
        reveal_strlit("7");
        reveal_strlit("8");
        reveal_strlit("9");
        reveal_strlit("a");
        reveal_strlit("b");
        reveal_strlit("c");
        reveal_strlit("d");
        reveal_strlit("e");
        reveal_strlit("f");
    }
    match n {
        0 => "0",
        1 => "1",
        2 => "2",
        3 => "3",
        4 => "4",
        5 => "5",
        6 => "6",
        7 => "7",
        8 => "8",
        9 => "9",
        10 => "a",
        11 => "b",
        12 => "c",
        13 => "d",
        14 => "e",
        _ => "f",
    }
}

/// The characters of hexadecimal digits that are given from the low end.
spec fn from_low(digits: Seq<u32>) -> Seq<char> {
    Seq::new(digits.len(), |i: int| hex_char(digits[digits.len() - 1 - i] as int))
}

/// The low `width` hexadecimal digits of a number, in lower case and padded with zeroes.
pub fn hex(n: u32, width: u32) -> (r: String)
    ensures
        r@ == hex_digits(n as nat, width as nat),
{
    let mut digits: Vec<u32> = Vec::new();
    let mut high: u32 = n;
    let mut left: u32 = width;
    assert(hex_digits(n as nat, width as nat) + from_low(digits@) =~= hex_digits(
        n as nat,
        width as nat,
    ));
    while left > 0
        invariant
            forall|i: int| 0 <= i < digits@.len() ==> digits@[i] < 16,
            hex_digits(high as nat, left as nat) + from_low(digits@) == hex_digits(
                n as nat,
                width as nat,
            ),
        decreases left,
    {
        let ghost before = digits@;
        digits.push(high % 16);
        assert(hex_digits(high as nat, left as nat) + from_low(before) =~= hex_digits(
            (high / 16) as nat,
            (left - 1) as nat,
        ) + from_low(digits@));
        high = high / 16;
        left = left - 1;
    }
    let mut r = String::new();
    assert(hex_digits(high as nat, 0) + from_low(digits@) =~= from_low(digits@));
    assert(r@ + from_low(digits@) =~= from_low(digits@));
    while digits.len() > 0
        invariant
            forall|i: int| 0 <= i < digits@.len() ==> digits@[i] < 16,
            r@ + from_low(digits@) == hex_digits(n as nat, width as nat),
        decreases digits@.len(),
    {
        let ghost before = digits@;
        let ghost written = r@;
        let last: usize = digits.len() - 1;
        let digit: u32 = digits[last];
        let _ = digits.pop();
        r.append(hex_digit(digit));
        assert(written + from_low(before) =~= r@ + from_low(digits@));
    }
    assert(r@ + from_low(digits@) =~= r@);
    r
}

/// A path is shown as the text that it encodes, if it encodes one.
pub proof fn paths_are_shown_as_they_are(path: &[u8], r: String)
    requires
        call_ensures(display, (path,), r),
    ensures
        r@ == lossy_text(path@),
        vstd::utf8::valid_utf8(path@) ==> r@ == vstd::utf8::decode_utf8(path@),
{
}

/// A message about a path is the path as it is shown, between the two pieces of text.
pub proof fn messages_show_the_path(before: &str, path: &[u8], after: &str, r: String, shown: String)
    requires
        call_ensures(about, (before, path, after), r),
        call_ensures(display, (path,), shown),
    ensures
        r@ == before@ + shown@ + after@,
        about_spec(before@, path@, after@) == r@,
{
}

/// A message about two paths is the paths as they are shown, in their order, between the pieces of text.
pub proof fn messages_show_both_paths(
    before: &str,
    first: &[u8],
    between: &str,
    second: &[u8],
    after: &str,
    r: String,
    first_shown: String,
    second_shown: String,
)
    requires
        call_ensures(about_two, (before, first, between, second, after), r),
        call_ensures(display, (first,), first_shown),
        call_ensures(display, (second,), second_shown),
    ensures
        r@ == before@ + first_shown@ + between@ + second_shown@ + after@,
        about_two_spec(before@, first@, between@, second@, after@) == r@,
{
}

/// A message is made of its pieces and of the texts of the paths, in their order.
pub proof fn messages_are_joined_texts(
    before: Seq<char>,
    first: Seq<u8>,
    between: Seq<char>,
    second: Seq<u8>,
    after: Seq<char>,
)
    ensures
        about_spec(before, first, after) == before + lossy_text(first) + after,
        about_two_spec(before, first, between, second, after) == before + lossy_text(first)
            + between + lossy_text(second) + after,
{
}

/// The value of a hexadecimal digit in lower case.
pub open spec fn hex_value(c: char) -> int {
    if '0' <= c <= '9' {
        c as int - 48
    } else {
        c as int - 87
    }
}

/// The number that hexadecimal digits stand for.
pub open spec fn hex_number(text: Seq<char>) -> int
    decreases text.len(),
{
    if text.len() == 0 {
        0
    } else {
        hex_number(text.drop_last()) * 16 + hex_value(text.last())
    }
}

proof fn hex_digits_stand_for(n: nat, width: nat)
    ensures
        hex_digits(n, width).len() == width,
        forall|i: int|
            0 <= i < width ==> {
                ||| '0' <= #[trigger] hex_digits(n, width)[i] <= '9'
                ||| 'a' <= hex_digits(n, width)[i] <= 'f'
            },
        hex_number(hex_digits(n, width)) == n % (vstd::arithmetic::power::pow(16, width) as nat),
        vstd::arithmetic::power::pow(16, width) > 0,
    decreases width,
{
    vstd::arithmetic::power::lemma_pow_positive(16, width);
    if width == 0 {
        vstd::arithmetic::power::lemma_pow0(16);
    } else {
        let less = (width - 1) as nat;
        hex_digits_stand_for(n / 16, less);
        let shorter = hex_digits(n / 16, less);
        let text = hex_digits(n, width);
        assert(text.drop_last() =~= shorter);
        vstd::arithmetic::power::lemma_pow_positive(16, less);
        let p = vstd::arithmetic::power::pow(16, less);
        assert(vstd::arithmetic::power::pow(16, width) == 16 * p) by {
            reveal(vstd::arithmetic::power::pow);
        }
        vstd::arithmetic::div_mod::lemma_mod_breakdown(n as int, 16, p);
    }
}

/// A number in hexadecimal has as many digits as asked for, which stand for the number, or for what is
/// left of it if there are too few.
pub proof fn hexadecimal_digits_stand_for_the_number(n: u32, width: u32, r: String)
    requires
        call_ensures(hex, (n, width), r),
    ensures
        r@.len() == width,
        forall|i: int|
            0 <= i < r@.len() ==> {
                ||| '0' <= #[trigger] r@[i] <= '9'
                ||| 'a' <= r@[i] <= 'f'
            },
        hex_number(r@) == n as int % vstd::arithmetic::power::pow(16, width as nat),
        r@ == hex_digits(n as nat, width as nat),
{
    hex_digits_stand_for(n as nat, width as nat);
}

} // verus!
