//! JSON text the crate writes itself: the one thing it leaves to `serde_json`
//! is how a string is quoted and escaped.
use vstd::prelude::*;

use crate::text::{cat, fmt_i64, int_text};

verus! {

/// A lowercase hexadecimal digit.
pub open spec fn hex_digit(n: int) -> char {
    if n < 10 {
        (('0' as int) + n) as char
    } else {
        (('a' as int) + n - 10) as char
    }
}

/// How `serde_json` writes one character of a string: `"` and `\` behind a
/// backslash, the control characters with a short escape as `\b`, `\f`,
/// `\n`, `\r`, `\t`, the other ones below U+0020 as `\u00XX` in lowercase
/// hexadecimal, and every other character as it is.
pub open spec fn json_escape(c: char) -> Seq<char> {
    if c == '"' {
        seq!['\\', '"']
    } else if c == '\\' {
        seq!['\\', '\\']
    } else if c == '\u{8}' {
        seq!['\\', 'b']
    } else if c == '\u{c}' {
        seq!['\\', 'f']
    } else if c == '\n' {
        seq!['\\', 'n']
    } else if c == '\r' {
        seq!['\\', 'r']
    } else if c == '\t' {
        seq!['\\', 't']
    } else if (c as int) < 0x20 {
        seq!['\\', 'u', '0', '0', hex_digit((c as int) / 16), hex_digit((c as int) % 16)]
    } else {
        seq![c]
    }
}

/// Each character of `s`, escaped.
pub open spec fn json_escaped(s: Seq<char>) -> Seq<char>
    decreases s.len(),
{
    if s.len() == 0 {
        Seq::empty()
    } else {
        json_escaped(s.drop_last()) + json_escape(s.last())
    }
}

/// How `serde_json` writes a string: in double quotes, each character
/// escaped as `json_escape` says.
pub open spec fn json_quoted(s: Seq<char>) -> Seq<char> {
    seq!['"'] + json_escaped(s) + seq!['"']
}

/// `serde_json::to_string(s)`. Serializing a `str` cannot fail (serde_json
/// fails only for a type whose own `Serialize` fails, or for a map with
/// non-string keys), so the error arm is never taken.
#[verifier::external_body]
pub fn json_quote(s: &str) -> (r: String)
    ensures
        r@ == json_quoted(s@),
{
    match serde_json::to_string(s) {
        Ok(text) => text,
        Err(_) => String::new(),
    }
}

/// A JSON boolean.
pub open spec fn json_bool(b: bool) -> Seq<char> {
    if b {
        "true"@
    } else {
        "false"@
    }
}

/// A JSON pair of integers: `[a,b]`.
pub open spec fn json_pair(p: [i32; 2]) -> Seq<char> {
    "["@ + int_text(p[0] as int) + ","@ + int_text(p[1] as int) + "]"@
}

/// Writes `[a,b]`.
pub fn fmt_json_pair(p: [i32; 2]) -> (r: String)
    ensures
        r@ == json_pair(p),
{
    let mut r = cat("[", fmt_i64(p[0] as i64).as_str());
    r.append(",");
    r.append(fmt_i64(p[1] as i64).as_str());
    r.append("]");
    r
}

/// How `{:?}` writes a pair of integers held in an array: `[a, b]`.
pub open spec fn array_debug(p: [i32; 2]) -> Seq<char> {
    "["@ + int_text(p[0] as int) + ", "@ + int_text(p[1] as int) + "]"@
}

/// Writes `[a, b]`, as `{:?}` does for an array of two integers.
pub fn fmt_array_debug(p: [i32; 2]) -> (r: String)
    ensures
        r@ == array_debug(p),
{
    let mut r = cat("[", fmt_i64(p[0] as i64).as_str());
    r.append(", ");
    r.append(fmt_i64(p[1] as i64).as_str());
    r.append("]");
    r
}

} // verus!
