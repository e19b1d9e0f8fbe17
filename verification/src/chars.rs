//! Small helpers for moving between strings and character vectors.

use vstd::prelude::*;

verus! {

/// Relies on `core::iter::Iterator::collect` for `String`: collecting a
/// sequence of characters yields the string of exactly those characters.
#[verifier::external_body]
pub fn chars_to_string(v: &Vec<char>) -> (r: String)
    ensures
        r@ == v@,
{
    v.iter().collect()
}

/// Copy the characters of a string slice into a vector.
pub fn to_chars(s: &str) -> (v: Vec<char>)
    ensures
        v@ == s@,
{
    let m: usize = s.unicode_len();
    let mut v: Vec<char> = Vec::new();
    let mut i: usize = 0;
    while i < m
        invariant
            m == s@.len(),
            i <= m,
            v@ == s@.take(i as int),
        decreases m - i,
    {
        let c = s.get_char(i);
        v.push(c);
        proof {
            assert(s@.take(i + 1 as int) =~= s@.take(i as int).push(s@[i as int]));
        }
        i = i + 1;
    }
    proof {
        assert(s@.take(m as int) =~= s@);
    }
    v
}

} // verus!
