//! Every call into an outside crate, with what is taken on trust about it.

use crate::encoding::hex_digit;
use vstd::prelude::*;

verus! {

/// SHA-256 digest of a message.
pub uninterp spec fn sha256(message: Seq<u8>) -> Seq<u8>;

/// Calls `sha2::Sha256::digest`. Claimed: the 32 bytes it returns depend on the
/// message alone. Which bytes they are is left unsaid.
#[verifier::external_body]
pub(crate) fn sha256_digest(message: &Vec<u8>) -> (r: [u8; 32])
    ensures
        r@ == sha256(message@),
{
    <sha2::Sha256 as sha2::Digest>::digest(message).into()
}

/// Whether a text is a media type.
pub uninterp spec fn is_media_type(text: Seq<char>) -> bool;

/// Calls `str::parse` for `mime::Mime`. Claimed: whether the parser accepts a
/// text depends on the text alone. Which texts it accepts is left unsaid.
#[verifier::external_body]
pub(crate) fn parses_as_media_type(text: &str) -> (r: bool)
    ensures
        r == is_media_type(text@),
{
    text.parse::<mime::Mime>().is_ok()
}

/// Number of `o200k_base` tokens of a text; nothing where the text cannot be
/// split into tokens.
pub uninterp spec fn o200k_tokens(text: Seq<char>) -> Option<nat>;

/// Calls `tiktoken_rs::CoreBPE::encode` of the `o200k_base` tokenizer with all
/// its special tokens allowed. Claimed: whether the text is encoded, and into
/// how many tokens, depends on the text alone. The number itself is left unsaid.
#[verifier::external_body]
pub(crate) fn o200k_token_count(text: &str) -> (r: Option<usize>)
    ensures
        match r {
            Some(count) => o200k_tokens(text@) == Some(count as nat),
            None => o200k_tokens(text@) is None,
        },
{
    let tokenizer = tiktoken_rs::o200k_base_singleton();
    tokenizer.encode(text, &tokenizer.special_tokens()).ok().map(|(tokens, _)| tokens.len())
}

/// A character inside a JSON string.
pub open spec fn json_escaped(c: char) -> Seq<char> {
    let code = c as u32;
    if c == '"' || c == '\\' {
        seq!['\\', c]
    } else if code == 0x08 {
        seq!['\\', 'b']
    } else if code == 0x09 {
        seq!['\\', 't']
    } else if code == 0x0a {
        seq!['\\', 'n']
    } else if code == 0x0c {
        seq!['\\', 'f']
    } else if code == 0x0d {
        seq!['\\', 'r']
    } else if code < 0x20 {
        seq!['\\', 'u', '0', '0', hex_digit(code as int / 16), hex_digit(code as int % 16)]
    } else {
        seq![c]
    }
}

/// The characters of a text inside a JSON string.
pub open spec fn json_escaped_text(text: Seq<char>) -> Seq<char>
    decreases text.len(),
{
    if text.len() == 0 {
        Seq::empty()
    } else {
        json_escaped(text[0]) + json_escaped_text(text.drop_first())
    }
}

/// A text as a JSON string.
pub open spec fn json_string(text: Seq<char>) -> Seq<char> {
    seq!['"'] + json_escaped_text(text) + seq!['"']
}

/// Calls `serde_json::Value::to_string` on a string value. Claimed: it writes
/// the text between quotes, with a backslash before quotes and backslashes, the
/// short escapes of backspace, tab, line feed, form feed and carriage return,
/// `\u00` and two lower-case digits for the other control characters below a
/// space, and every other character as it is.
#[verifier::external_body]
pub(crate) fn json_string_text(text: &str) -> (r: String)
    ensures
        r@ == json_string(text@),
{
    serde_json::Value::from(text).to_string()
}

/// Number that `count` decimal digits spell.
pub open spec fn digits_value(text: Seq<char>, from: int, count: nat) -> int
    decreases count,
{
    if count == 0 {
        0
    } else {
        digits_value(text, from, (count - 1) as nat) * 10 + (text[from + count - 1] as int
            - '0' as int)
    }
}

/// Shape of a timestamp in UTC with milliseconds: `0000-00-00T00:00:00.000Z`
/// with any digits.
pub open spec fn timestamp_shape(text: Seq<char>) -> bool {
    &&& text.len() == 24
    &&& forall|i: int|
        0 <= i < 24 ==> timestamp_char(i, #[trigger] text[i])
}

/// Character that may stand at a position of a timestamp.
pub open spec fn timestamp_char(i: int, c: char) -> bool {
    if i == 4 || i == 7 {
        c == '-'
    } else if i == 10 {
        c == 'T'
    } else if i == 13 || i == 16 {
        c == ':'
    } else if i == 19 {
        c == '.'
    } else if i == 23 {
        c == 'Z'
    } else {
        '0' <= c <= '9'
    }
}

/// Days of a month in the Gregorian calendar.
pub open spec fn days_in_month(year: int, month: int) -> int {
    if month == 2 {
        if year % 4 == 0 && (year % 100 != 0 || year % 400 == 0) {
            29
        } else {
            28
        }
    } else if month == 4 || month == 6 || month == 9 || month == 11 {
        30
    } else {
        31
    }
}

/// A timestamp that names a day of the calendar and a time of the day; the
/// second may be a leap second.
pub open spec fn calendar_valid(text: Seq<char>) -> bool {
    let year = digits_value(text, 0, 4);
    let month = digits_value(text, 5, 2);
    let day = digits_value(text, 8, 2);
    &&& 1 <= month <= 12
    &&& 1 <= day <= days_in_month(year, month)
    &&& digits_value(text, 11, 2) <= 23
    &&& digits_value(text, 14, 2) <= 59
    &&& digits_value(text, 17, 2) <= 60
}

/// Calls `chrono::DateTime::parse_from_rfc3339`. Claimed: of a text in the shape
/// of a timestamp it accepts exactly those that name a day of the calendar and a
/// time of the day, seconds up to 60.
#[verifier::external_body]
pub(crate) fn parses_as_rfc3339(text: &str) -> (r: bool)
    requires
        timestamp_shape(text@),
    ensures
        r == calendar_valid(text@),
{
    chrono::DateTime::parse_from_rfc3339(text).is_ok()
}

} // verus!
