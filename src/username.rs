//! The rule a username must satisfy before it is offered to the peer.
use vstd::prelude::*;
use crate::text::chars_of;

verus! {

/// The longest username accepted.
pub const MAX_USERNAME_LEN: usize = 10;

/// An ASCII letter or digit.
pub open spec fn is_alnum_spec(c: char) -> bool {
    ('a' <= c && c <= 'z') || ('A' <= c && c <= 'Z') || ('0' <= c && c <= '9')
}

/// A username: 1 to 10 characters, ASCII letters, digits and periods, not
/// starting or ending with a period, with no two periods in a row.
pub open spec fn valid_username(s: Seq<char>) -> bool {
    &&& 1 <= s.len() <= MAX_USERNAME_LEN
    &&& forall|i: int| 0 <= i < s.len() ==> is_alnum_spec(#[trigger] s[i]) || s[i] == '.'
    &&& s[0] != '.'
    &&& s.last() != '.'
    &&& forall|i: int| 0 <= i < s.len() - 1 ==> !(#[trigger] s[i] == '.' && s[i + 1] == '.')
}

pub fn is_alnum(c: char) -> (r: bool)
    ensures
        r == is_alnum_spec(c),
{
    ('a' <= c && c <= 'z') || ('A' <= c && c <= 'Z') || ('0' <= c && c <= '9')
}

/// Whether `username` may be offered to the peer.
pub fn validate_username(username: &str) -> (r: bool)
    ensures
        r == valid_username(username@),
{
    let s = chars_of(username);
    let n = s.len();
    if n < 1 || n > MAX_USERNAME_LEN || s[0] == '.' || s[n - 1] == '.' {
        return false;
    }
    let mut i: usize = 0;
    while i < n
        invariant
            s@ == username@,
            n == s.len(),
            1 <= n <= MAX_USERNAME_LEN,
            s@[0] != '.',
            s@.last() != '.',
            i <= n,
            forall|k: int| 0 <= k < i ==> is_alnum_spec(#[trigger] s@[k]) || s@[k] == '.',
            forall|k: int| 0 <= k < i && k < n - 1 ==> !(#[trigger] s@[k] == '.' && s@[k + 1] == '.'),
        decreases n - i,
    {
        let c = s[i];
        if !is_alnum(c) && c != '.' {
            return false;
        }
        if c == '.' && i + 1 < n && s[i + 1] == '.' {
            return false;
        }
        i = i + 1;
    }
    true
}

} // verus!
