//! Text that goes into messages: numbers, identifiers and quoted strings.
use vstd::prelude::*;
use vstd::string::*;

verus! {

/// Text that can be handed over as an owned string.
pub trait Text: Sized {
    spec fn text(&self) -> Seq<char>;

    fn into_text(self) -> (res: String)
        ensures
            res@ == self.text(),
    ;
}

impl Text for String {
    open spec fn text(&self) -> Seq<char> {
        self@
    }

    fn into_text(self) -> (res: String) {
        self
    }
}

impl Text for &str {
    open spec fn text(&self) -> Seq<char> {
        self@
    }

    fn into_text(self) -> (res: String) {
        self.to_owned()
    }
}

/// The digit of `n` in base sixteen, in lower case.
pub open spec fn hex_digit(n: int) -> char {
    if n < 10 {
        (48 + n) as char
    } else {
        (87 + n) as char
    }
}

/// `n` in decimal, without leading zeros.
pub open spec fn decimal(n: int) -> Seq<char>
    decreases (if n < 0 { 1 - n } else { n }),
{
    if n < 0 {
        seq!['-'] + decimal(-n)
    } else if n < 10 {
        seq![hex_digit(n)]
    } else {
        decimal(n / 10) + seq![hex_digit(n % 10)]
    }
}

/// The decimal digit `n`.
fn digit_text(n: u32) -> (res: &'static str)
    requires
        n < 10,
    ensures
        res@ == seq![hex_digit(n as int)],
{
    proof {
        reveal_strlit("0");
        reveal_strlit("1");
        reveal_strlit("2");
        reveal_strlit("3");
        reveal_strlit("4");
        reveal_strlit("5");
        reveal_strlit("6");
        reveal_strlit("7");
        reveal_strlit("8");
        reveal_strlit("9");
    }
    match n {
        0 => "0",
        1 => "1",
        2 => "2",
        3 => "3",
        4 => "4",
        5 => "5",
        6 => "6",
        7 => "7",
        8 => "8",
        _ => "9",
    }
}

/// `n` in decimal, without leading zeros.
fn natural_text(n: u32) -> (res: String)
    ensures
        res@ == decimal(n as int),
    decreases n,
{
    if n < 10 {
        digit_text(n).to_owned()
    } else {
        natural_text(n / 10).concat(digit_text(n % 10))
    }
}

/// `n` in decimal, without leading zeros.
pub(crate) fn decimal_text(n: i32) -> (res: String)
    ensures
        res@ == decimal(n as int),
{
    if n < 0 {
        proof {
            reveal_strlit("-");
        }
        let size: i64 = -(n as i64);
        joined("-", natural_text(size as u32).as_str())
    } else {
        natural_text(n as u32)
    }
}

/// `value` as a UUID in its hyphenated form: thirty-two digits in base sixteen,
/// in lower case and most significant first, in groups of eight, four, four, four
/// and twelve.
pub open spec fn uuid_hyphenated(value: u128) -> Seq<char> {
    Seq::new(
        36,
        |i: int|
            if i == 8 || i == 13 || i == 18 || i == 23 {
                '-'
            } else {
                let before: int = if i < 8 {
                    0
                } else if i < 13 {
                    1
                } else if i < 18 {
                    2
                } else if i < 23 {
                    3
                } else {
                    4
                };
                hex_digit(((value >> ((4 * (31 - (i - before))) as u128)) & 0xf) as int)
            },
    )
}

/// Wraps `uuid::Uuid`'s `Display`, which writes the hyphenated form in lower case.
#[verifier::external_body]
pub(crate) fn uuid_text(value: u128) -> (res: String)
    ensures
        res@ == uuid_hyphenated(value),
{
    uuid::Uuid::from_u128(value).to_string()
}

/// What `Debug` writes for a string: quoted, with special characters escaped.
pub uninterp spec fn debug_of(s: Seq<char>) -> Seq<char>;

/// Wraps `Debug` of `str`. The result is a function of the string; how each
/// character is escaped is not stated.
#[verifier::external_body]
pub(crate) fn debug_text(s: &str) -> (res: String)
    ensures
        res@ == debug_of(s@),
{
    format!("{s:?}")
}

/// `first` with `second` behind it.
pub(crate) fn joined(first: &str, second: &str) -> (res: String)
    ensures
        res@ == first@ + second@,
{
    first.to_owned().concat(second)
}

/// Whether `c` has the Unicode property `White_Space`.
pub open spec fn is_white_space(c: char) -> bool {
    let n = c as int;
    ||| 0x09 <= n <= 0x0d
    ||| n == 0x20
    ||| n == 0x85
    ||| n == 0xa0
    ||| n == 0x1680
    ||| 0x2000 <= n <= 0x200a
    ||| n == 0x2028
    ||| n == 0x2029
    ||| n == 0x202f
    ||| n == 0x205f
    ||| n == 0x3000
}

/// `char::is_whitespace` tells the characters with the Unicode property
/// `White_Space` from the others.
pub assume_specification[ char::is_whitespace ](c: char) -> (res: bool)
    ensures
        res == is_white_space(c),
;

} // verus!
