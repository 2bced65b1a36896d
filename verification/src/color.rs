//! Colour values written as `#rgb` or `#rrggbb`.

use vstd::prelude::*;

use crate::text::{chars_of, trim, trim_str, owned};

verus! {

/// An ASCII hexadecimal digit (`char::is_ascii_hexdigit`).
pub open spec fn is_hex(c: char) -> bool {
    ('0' <= c <= '9') || ('a' <= c <= 'f') || ('A' <= c <= 'F')
}

/// `c` is `#` followed by three or six hexadecimal digits.
pub open spec fn valid_color(c: Seq<char>) -> bool {
    &&& c.len() == 7 || c.len() == 4
    &&& c[0] == '#'
    &&& forall|i: int| 1 <= i < c.len() ==> is_hex(#[trigger] c[i])
}

/// Whether `c` is a hexadecimal digit.
pub fn is_hex_char(c: char) -> (r: bool)
    ensures
        r == is_hex(c),
{
    ('0' <= c && c <= '9') || ('a' <= c && c <= 'f') || ('A' <= c && c <= 'F')
}

/// Whether `c` is a colour as `#rgb` or `#rrggbb`.
pub fn is_valid_color(c: &str) -> (r: bool)
    ensures
        r == valid_color(c@),
{
    let v = chars_of(c);
    if !(v.len() == 7 || v.len() == 4) {
        return false;
    }
    if v[0] != '#' {
        return false;
    }
    let mut i: usize = 1;
    while i < v.len()
        invariant
            1 <= i <= v.len(),
            v@ == c@,
            forall|k: int| 1 <= k < i ==> is_hex(#[trigger] v@[k]),
        decreases v.len() - i,
    {
        if !is_hex_char(v[i]) {
            return false;
        }
        i = i + 1;
    }
    true
}

/// The colour written in `raw`, without surrounding white space, when it is
/// `#rgb` or `#rrggbb`.
pub fn checked_color(raw: &str) -> (r: Option<String>)
    ensures
        r is Some <==> valid_color(trim(raw@)),
        r matches Some(c) ==> c@ == trim(raw@),
{
    let c = trim_str(raw);
    if is_valid_color(c) {
        Some(owned(c))
    } else {
        None
    }
}

} // verus!
