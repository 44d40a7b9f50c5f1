use vstd::prelude::*;
use vstd::string::StrSliceExecFns;
use crate::text::str_eq;

verus! {

/// A character legal in an HTTP token: a letter, a digit, or one of the
/// token punctuation characters of RFC 7230.  Header names and method names
/// are made of these.
pub open spec fn is_token_char(c: char) -> bool {
    ('a' as u32 <= c as u32 && c as u32 <= 'z' as u32)
        || ('A' as u32 <= c as u32 && c as u32 <= 'Z' as u32)
        || ('0' as u32 <= c as u32 && c as u32 <= '9' as u32)
        || c == '!' || c == '#' || c == '$' || c == '%' || c == '&' || c == '\''
        || c == '*' || c == '+' || c == '-' || c == '.' || c == '^' || c == '_'
        || c == '`' || c == '|' || c == '~'
}

/// A legal header name: non-empty, all token characters.
pub open spec fn token_ok(s: Seq<char>) -> bool {
    s.len() > 0 && (forall|i: int| 0 <= i < s.len() ==> is_token_char(s[i]))
}

/// A character legal in a header value: horizontal tab or anything that is
/// not an ASCII control character.
pub open spec fn is_value_char(c: char) -> bool {
    c as u32 == 9 || (32 <= c as u32 && c as u32 != 127)
}

/// A legal header value: every character legal, the empty value included.
pub open spec fn value_ok(s: Seq<char>) -> bool {
    forall|i: int| 0 <= i < s.len() ==> is_value_char(s[i])
}

/// A recognized HTTP method token.
pub open spec fn known_method(s: Seq<char>) -> bool {
    s == "GET"@ || s == "HEAD"@ || s == "POST"@ || s == "PUT"@ || s == "DELETE"@
        || s == "CONNECT"@ || s == "OPTIONS"@ || s == "TRACE"@ || s == "PATCH"@
}

/// Whether a character may appear in an HTTP token.
fn is_token_char_exec(c: char) -> (r: bool)
    ensures
        r == is_token_char(c),
{
    let u = c as u32;
    (97 <= u && u <= 122) || (65 <= u && u <= 90) || (48 <= u && u <= 57)
        || u == 33 || u == 35 || u == 36 || u == 37 || u == 38 || u == 39
        || u == 42 || u == 43 || u == 45 || u == 46 || u == 94 || u == 95
        || u == 96 || u == 124 || u == 126
}

/// Whether a character may appear in a header value.
fn is_value_char_exec(c: char) -> (r: bool)
    ensures
        r == is_value_char(c),
{
    let u = c as u32;
    u == 9 || (32 <= u && u != 127)
}

/// Whether a string is a legal header name.
pub fn header_name_ok(name: &str) -> (r: bool)
    ensures
        r == token_ok(name@),
{
    let n = name.unicode_len();
    if n == 0 {
        return false;
    }
    let mut i: usize = 0;
    while i < n
        invariant
            n == name@.len(),
            i <= n,
            forall|j: int| 0 <= j < i ==> is_token_char(name@[j]),
        decreases n - i,
    {
        if !is_token_char_exec(name.get_char(i)) {
            return false;
        }
        i = i + 1;
    }
    true
}

/// Whether a string is a legal header value.
pub fn header_value_ok(value: &str) -> (r: bool)
    ensures
        r == value_ok(value@),
{
    let n = value.unicode_len();
    let mut i: usize = 0;
    while i < n
        invariant
            n == value@.len(),
            i <= n,
            forall|j: int| 0 <= j < i ==> is_value_char(value@[j]),
        decreases n - i,
    {
        if !is_value_char_exec(value.get_char(i)) {
            return false;
        }
        i = i + 1;
    }
    true
}

/// Whether a string is one of the recognized HTTP method tokens.
pub fn is_known_method(method: &str) -> (r: bool)
    ensures
        r == known_method(method@),
{
    str_eq(method, "GET") || str_eq(method, "HEAD") || str_eq(method, "POST")
        || str_eq(method, "PUT") || str_eq(method, "DELETE") || str_eq(method, "CONNECT")
        || str_eq(method, "OPTIONS") || str_eq(method, "TRACE") || str_eq(method, "PATCH")
}

} // verus!
