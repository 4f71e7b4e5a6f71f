//! Case-insensitive equivalence of HTTP header names.
//!
//! Header names are ASCII tokens and compare case-insensitively: `Accept`,
//! `accept` and `ACCEPT` all pick out the same header. The folding is
//! ASCII-only; characters outside `A`..`Z` are left as they are.

use vstd::prelude::*;

verus! {

/// The case-folded code of one character: upper-case ASCII letters map to
/// their lower-case counterparts, everything else to its own code point.
pub open spec fn fold_char(c: char) -> u32 {
    if 65 <= c as u32 && c as u32 <= 90 {
        (c as u32 + 32) as u32
    } else {
        c as u32
    }
}

/// The case-folded form of a header name.
pub open spec fn fold_name(s: Seq<char>) -> Seq<u32> {
    s.map_values(|c: char| fold_char(c))
}

/// Two header names denote the same header.
pub open spec fn name_eq(a: Seq<char>, b: Seq<char>) -> bool {
    fold_name(a) == fold_name(b)
}

fn fold_char_exec(c: char) -> (r: u32)
    ensures
        r == fold_char(c),
{
    let code = c as u32;
    if 65 <= code && code <= 90 {
        code + 32
    } else {
        code
    }
}

/// Case-insensitive equality of header names.
pub fn names_equal(a: &str, b: &str) -> (r: bool)
    ensures
        r == name_eq(a@, b@),
{
    let a_len = a.unicode_len();
    let b_len = b.unicode_len();
    if a_len != b_len {
        assert(fold_name(a@).len() != fold_name(b@).len());
        return false;
    }
    let mut i: usize = 0;
    while i < a_len
        invariant
            i <= a_len,
            a_len == a@.len(),
            b_len == b@.len(),
            a_len == b_len,
            forall|k: int| 0 <= k < i ==> fold_char(a@[k]) == fold_char(b@[k]),
        decreases a_len - i,
    {
        let ca = a.get_char(i);
        let cb = b.get_char(i);
        if fold_char_exec(ca) != fold_char_exec(cb) {
            assert(fold_name(a@)[i as int] != fold_name(b@)[i as int]);
            return false;
        }
        i += 1;
    }
    assert(fold_name(a@) =~= fold_name(b@));
    true
}

/// Exact, case-sensitive equality of two strings.
pub fn strings_equal(a: &str, b: &str) -> (r: bool)
    ensures
        r == (a@ == b@),
{
    let a_len = a.unicode_len();
    let b_len = b.unicode_len();
    if a_len != b_len {
        return false;
    }
    let mut i: usize = 0;
    while i < a_len
        invariant
            i <= a_len,
            a_len == a@.len(),
            b_len == b@.len(),
            a_len == b_len,
            forall|k: int| 0 <= k < i ==> a@[k] == b@[k],
        decreases a_len - i,
    {
        if a.get_char(i) != b.get_char(i) {
            return false;
        }
        i += 1;
    }
    assert(a@ =~= b@);
    true
}

} // verus!
