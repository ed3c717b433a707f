//! Checks of e-mail addresses and passwords.
use vstd::prelude::*;
use vstd::utf8::encode_utf8;
use crate::text::{
    char_is_numeric,
    char_is_uppercase,
    chars_of,
    contains_char,
    has_char,
    is_numeric,
    is_uppercase,
    utf8_longer_than,
};

verus! {

/// An address is accepted when it holds an `@` and a `.`.
pub fn validate_email(email: &str) -> (r: bool)
    ensures
        r == (has_char(email@, '@') && has_char(email@, '.')),
{
    contains_char(email, '@') && contains_char(email, '.')
}

/// A password is strong enough: at least 8 bytes long (UTF-8), with a
/// numeric character and an uppercase one.
pub open spec fn strong_password(p: Seq<char>) -> bool {
    &&& encode_utf8(p).len() >= 8
    &&& exists|i: int| 0 <= i < p.len() && char_is_numeric(p[i])
    &&& exists|i: int| 0 <= i < p.len() && char_is_uppercase(p[i])
}

/// Whether a password is strong enough.
pub fn validate_password(password: &str) -> (r: bool)
    ensures
        r == strong_password(password@),
{
    if !utf8_longer_than(password, 7) {
        return false;
    }
    let cs = chars_of(password);
    let mut has_numeric = false;
    let mut i: usize = 0;
    while i < cs.len()
        invariant
            cs@ == password@,
            i <= cs@.len(),
            has_numeric == exists|k: int| 0 <= k < i && char_is_numeric(cs@[k]),
        decreases cs@.len() - i,
    {
        if is_numeric(cs[i]) {
            has_numeric = true;
        }
        i = i + 1;
    }
    if !has_numeric {
        return false;
    }
    let mut has_upper = false;
    let mut j: usize = 0;
    while j < cs.len()
        invariant
            cs@ == password@,
            j <= cs@.len(),
            has_upper == exists|k: int| 0 <= k < j && char_is_uppercase(cs@[k]),
        decreases cs@.len() - j,
    {
        if is_uppercase(cs[j]) {
            has_upper = true;
        }
        j = j + 1;
    }
    has_upper
}

} // verus!
