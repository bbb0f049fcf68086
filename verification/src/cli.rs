//! The values that the commands take, and what is checked of them before a
//! command runs.

pub mod base64;
pub mod csv;
pub mod genpass;
pub mod jwt;
pub mod text;

pub use self::base64::{Base64DecodeOpts, Base64EncodeOpts, Base64Format};
pub use self::csv::{CsvOpts, OutputFormat};
pub use self::genpass::GenPassOpts;
pub use self::jwt::{JwtSignOpts, JwtVerifyOpts};
pub use self::text::{
    TextDecryptOpts, TextEncryptOpts, TextKeyGenerateOpts, TextSignFormat, TextSignOpts,
    TextVerifyOpts,
};

use crate::primitives::pattern::{captures, regex_captures};
use vstd::prelude::*;
use vstd::string::StrSliceExecFns;
use vstd::utf8::is_ascii_chars;

verus! {

/// Whether `text` is the one character `c`.
fn is_char(text: &str, c: char) -> (same: bool)
    ensures
        same == (text@ == seq![c]),
{
    if text.unicode_len() == 1 {
        let same = text.get_char(0) == c;
        assert(same ==> text@ =~= seq![c]);
        same
    } else {
        false
    }
}

/// Whether `filename` can be read from: it is `-`, which stands for the
/// standard input, or a file stands there.
pub open spec fn is_input(filename: Seq<char>, exists: bool) -> bool {
    filename == seq!['-'] || exists
}

/// Accepts `filename` as a place to read from, given whether a file stands
/// there: `-` always, any other name where one does.
pub fn verify_file(filename: &str, exists: bool) -> (r: Result<String, &'static str>)
    ensures
        match r {
            Ok(name) => is_input(filename@, exists) && name@ == filename@,
            Err(reason) => !is_input(filename@, exists) && reason@ == "File does not exist"@,
        },
{
    if is_char(filename, '-') || exists {
        Ok(filename.to_owned())
    } else {
        Err("File does not exist")
    }
}

/// Accepts `path` as a directory, given whether something stands there and
/// whether it is a directory.
pub fn verify_path(path: &str, exists: bool, is_dir: bool) -> (r: Result<String, &'static str>)
    ensures
        match r {
            Ok(dir) => exists && is_dir && dir@ == path@,
            Err(reason) => !(exists && is_dir) && reason@
                == "Path does not exist or is not a directory"@,
        },
{
    if exists && is_dir {
        Ok(path.to_owned())
    } else {
        Err("Path does not exist or is not a directory")
    }
}

/// Whether `c` is one of the digits `0` to `9`.
pub open spec fn is_digit(c: char) -> bool {
    '0' <= c <= '9'
}

/// Whether `text` holds digits only.
pub open spec fn all_digits(text: Seq<char>) -> bool {
    forall|i: int| 0 <= i < text.len() ==> is_digit(#[trigger] text[i])
}

/// The number that the digits of `text` spell in base ten.
pub open spec fn digits_value(text: Seq<char>) -> nat
    decreases text.len(),
{
    if text.len() == 0 {
        0
    } else {
        10 * digits_value(text.drop_last()) + (text.last() as u32 - 48) as nat
    }
}

/// The number that `text` spells: one digit or more, which a `+` may
/// precede, and a value that a `u64` can hold.
pub open spec fn parsed_u64(text: Seq<char>) -> Option<u64> {
    let digits = if text.len() > 0 && text[0] == '+' {
        text.drop_first()
    } else {
        text
    };
    if digits.len() > 0 && all_digits(digits) && digits_value(digits) <= u64::MAX {
        Some(digits_value(digits) as u64)
    } else {
        None
    }
}

/// Digits that follow digits never make the number less.
proof fn lemma_digits_value_grows(text: Seq<char>, i: int)
    requires
        0 <= i <= text.len(),
        all_digits(text),
    ensures
        digits_value(text.subrange(0, i)) <= digits_value(text),
    decreases text.len() - i,
{
    if i < text.len() {
        let longer = text.subrange(0, i + 1);
        assert(longer.drop_last() =~= text.subrange(0, i));
        assert(is_digit(text[i]));
        lemma_digits_value_grows(text, i + 1);
    } else {
        assert(text.subrange(0, i) =~= text);
    }
}

/// Reads `text` as a `u64` in base ten.
pub fn parse_u64(text: &str) -> (r: Option<u64>)
    ensures
        r == parsed_u64(text@),
{
    if !text.is_ascii() {
        proof {
            let i = choose|i: int|
                0 <= i < text@.len() && !('\0' <= #[trigger] text@[i] <= '\u{7f}');
            lemma_not_ascii_not_digit(text@[i]);
            if i == 0 {
            } else if text@[0] == '+' {
                assert(!is_digit(text@.drop_first()[i - 1]));
            }
        }
        return None;
    }
    let n = text.unicode_len();
    let start: usize = if n > 0 && text.get_ascii(0) == 43 {
        1
    } else {
        0
    };
    let ghost digits = text@.subrange(start as int, n as int);
    assert(digits =~= if text@.len() > 0 && text@[0] == '+' {
        text@.drop_first()
    } else {
        text@
    });
    if start == n {
        return None;
    }
    let mut value: u64 = 0;
    let mut i: usize = start;
    while i < n
        invariant
            start <= i <= n,
            n == text@.len(),
            text.is_ascii(),
            digits == text@.subrange(start as int, n as int),
            digits == if text@.len() > 0 && text@[0] == '+' {
                text@.drop_first()
            } else {
                text@
            },
            all_digits(digits.subrange(0, i - start)),
            value == digits_value(digits.subrange(0, i - start)),
        decreases n - i,
    {
        let b = text.get_ascii(i);
        let ghost c = text@[i as int];
        proof {
            assert(is_ascii_chars(text@));
            assert('\0' <= text@[i as int] <= '\u{7f}');
            lemma_ascii_char_byte(c);
            assert(digits[i - start] == c);
        }
        if b < 48 || b > 57 {
            assert(!is_digit(digits[i - start]));
            return None;
        }
        let ghost before = digits.subrange(0, i - start);
        let ghost after = digits.subrange(0, i - start + 1);
        proof {
            assert(after.drop_last() =~= before);
            assert(after.last() == c);
            assert forall|k: int| 0 <= k < after.len() implies is_digit(#[trigger] after[k]) by {
                if k < before.len() {
                    assert(before[k] == after[k]);
                }
            }
            if all_digits(digits) {
                lemma_digits_value_grows(digits, i - start + 1);
            }
        }
        let d: u64 = (b - 48) as u64;
        if value > (u64::MAX - d) / 10 {
            assert(digits_value(after) > u64::MAX);
            return None;
        }
        value = value * 10 + d;
        i += 1;
    }
    assert(digits.subrange(0, n - start) =~= digits);
    Some(value)
}

/// A character that is not ASCII is no digit and no sign.
proof fn lemma_not_ascii_not_digit(c: char)
    ensures
        !('\0' <= c <= '\u{7f}') ==> !is_digit(c) && c != '+',
{
}

/// An ASCII character is the byte of its number, and a digit is a
/// character from 48 to 57.
proof fn lemma_ascii_char_byte(c: char)
    ensures
        '\0' <= c <= '\u{7f}' ==> (c as u8) as u32 == c as u32,
        is_digit(c) <==> 48 <= c as u32 <= 57,
{
}

/// The seconds in one unit of time: `s` or nothing for a second, `m` for a
/// minute, `h` for an hour, `d` for a day, `w` for a week.
pub open spec fn unit_seconds(unit: Seq<char>) -> Option<u64> {
    if unit.len() == 0 || unit == seq!['s'] {
        Some(1u64)
    } else if unit == seq!['m'] {
        Some(60u64)
    } else if unit == seq!['h'] {
        Some(3600u64)
    } else if unit == seq!['d'] {
        Some(86400u64)
    } else if unit == seq!['w'] {
        Some(604800u64)
    } else {
        None
    }
}

/// The seconds that `digits` units of `unit` last, or the reason why they
/// name no duration. A number of seconds that a `u64` cannot hold names
/// none.
pub open spec fn duration_of(digits: Seq<char>, unit: Seq<char>) -> Result<u64, Seq<char>> {
    match unit_seconds(unit) {
        None => Err("unsupported unit"@),
        Some(seconds) => match parsed_u64(digits) {
            Some(count) if count * seconds <= u64::MAX => Ok((count * seconds) as u64),
            _ => Err("invalid duration string"@),
        },
    }
}

/// The characters of a duration or of the reason why there is none.
pub open spec fn duration_view(r: Result<u64, &'static str>) -> Result<u64, Seq<char>> {
    match r {
        Ok(seconds) => Ok(seconds),
        Err(reason) => Err(reason@),
    }
}

fn seconds_in(unit: &str) -> (r: Option<u64>)
    ensures
        r == unit_seconds(unit@),
{
    if unit.unicode_len() == 0 || is_char(unit, 's') {
        Some(1)
    } else if is_char(unit, 'm') {
        Some(60)
    } else if is_char(unit, 'h') {
        Some(3600)
    } else if is_char(unit, 'd') {
        Some(86400)
    } else if is_char(unit, 'w') {
        Some(604800)
    } else {
        None
    }
}

/// The seconds that `digits` units of `unit` last.
pub fn duration_from_parts(digits: &str, unit: &str) -> (r: Result<u64, &'static str>)
    ensures
        duration_view(r) == duration_of(digits@, unit@),
{
    match seconds_in(unit) {
        None => Err("unsupported unit"),
        Some(seconds) => match parse_u64(digits) {
            None => Err("invalid duration string"),
            Some(count) => match count.checked_mul(seconds) {
                Some(total) => Ok(total),
                None => Err("invalid duration string"),
            },
        },
    }
}

/// The regular expression that finds a duration in a text: digits, and a
/// unit letter where one follows them.
pub open spec fn duration_pattern() -> Seq<char> {
    "(\\d+)([smhdw]?)"@
}

/// What the groups of a match of the pattern name: the first group holds
/// the digits and the second the unit.
pub open spec fn duration_of_match(found: Option<Seq<Option<Seq<char>>>>) -> Result<u64, Seq<char>> {
    match found {
        Some(groups) if groups.len() == 3 && groups[1] is Some && groups[2] is Some => duration_of(
            groups[1].unwrap(),
            groups[2].unwrap(),
        ),
        _ => Err("invalid duration string"@),
    }
}

/// Reads a duration in seconds from the first run of digits in `duration`
/// and the unit letter that may follow it.
pub fn parse_duration(duration: &str) -> (r: Result<u64, &'static str>)
    ensures
        duration_view(r) == duration_of_match(regex_captures(duration_pattern(), duration@)),
{
    match captures("(\\d+)([smhdw]?)", duration) {
        None => Err("invalid duration string"),
        Some(groups) => {
            if groups.len() != 3 {
                return Err("invalid duration string");
            }
            match (&groups[1], &groups[2]) {
                (Some(digits), Some(unit)) => duration_from_parts(
                    digits.as_str(),
                    unit.as_str(),
                ),
                _ => Err("invalid duration string"),
            }
        },
    }
}

} // verus!
