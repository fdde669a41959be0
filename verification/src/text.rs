//! Case-insensitive text matching.
//!
//! The condition parser matches provider text against tag synonyms as a
//! case-insensitive substring search, and the file scanner compares
//! extensions the same way.  Case is folded for ASCII letters only; any other
//! character matches itself exactly.

use vstd::prelude::*;

verus! {

/// The code point of `c`, with uppercase ASCII letters folded to lowercase.
pub open spec fn lower_code(c: char) -> int {
    if 65 <= c as int && c as int <= 90 {
        c as int + 32
    } else {
        c as int
    }
}

/// Two characters are equal up to ASCII case.
pub open spec fn ci_char_eq(a: char, b: char) -> bool {
    lower_code(a) == lower_code(b)
}

/// `needle` occurs at offset `i` of `hay`, up to ASCII case.
pub open spec fn ci_matches_at(hay: Seq<char>, needle: Seq<char>, i: int) -> bool {
    &&& 0 <= i
    &&& i + needle.len() <= hay.len()
    &&& forall|j: int| 0 <= j < needle.len() ==> ci_char_eq(hay[i + j], needle[j])
}

/// `needle` occurs somewhere in `hay`, up to ASCII case.
pub open spec fn ci_contains(hay: Seq<char>, needle: Seq<char>) -> bool {
    exists|i: int| ci_matches_at(hay, needle, i)
}

/// The two texts are equal up to ASCII case.
pub open spec fn ci_equal(a: Seq<char>, b: Seq<char>) -> bool {
    &&& a.len() == b.len()
    &&& forall|j: int| 0 <= j < a.len() ==> ci_char_eq(a[j], b[j])
}

/// Compares two characters up to ASCII case.
pub fn chars_eq_ignore_case(a: char, b: char) -> (r: bool)
    ensures
        r == ci_char_eq(a, b),
{
    let av = a as u32;
    let bv = b as u32;
    let al = if 65 <= av && av <= 90 {
        av + 32
    } else {
        av
    };
    let bl = if 65 <= bv && bv <= 90 {
        bv + 32
    } else {
        bv
    };
    al == bl
}

/// Does `needle` occur at character offset `at` of `hay`, up to ASCII case?
pub fn str_matches_at(hay: &str, needle: &str, at: usize) -> (r: bool)
    requires
        hay@.len() <= usize::MAX,
        at + needle@.len() <= hay@.len(),
    ensures
        r == ci_matches_at(hay@, needle@, at as int),
{
    let needle_len = needle.unicode_len();
    let mut j: usize = 0;
    while j < needle_len
        invariant
            hay@.len() <= usize::MAX,
            needle_len == needle@.len(),
            at + needle_len <= hay@.len(),
            0 <= j <= needle_len,
            forall|k: int| 0 <= k < j ==> ci_char_eq(hay@[at + k], needle@[k]),
        decreases needle_len - j,
    {
        let hc = hay.get_char(at + j);
        let nc = needle.get_char(j);
        if !chars_eq_ignore_case(hc, nc) {
            return false;
        }
        j += 1;
    }
    true
}

/// Does `needle` occur anywhere in `hay`, up to ASCII case?
pub fn str_contains_ignore_case(hay: &str, needle: &str) -> (r: bool)
    ensures
        r == ci_contains(hay@, needle@),
{
    let hay_len = hay.unicode_len();
    let needle_len = needle.unicode_len();
    if needle_len > hay_len {
        proof {
            assert forall|i: int| !ci_matches_at(hay@, needle@, i) by {}
        }
        return false;
    }
    let mut i: usize = 0;
    loop
        invariant
            hay_len == hay@.len(),
            needle_len == needle@.len(),
            needle_len <= hay_len,
            0 <= i <= hay_len - needle_len + 1,
            forall|k: int| 0 <= k < i ==> !ci_matches_at(hay@, needle@, k),
        decreases hay_len - needle_len + 1 - i,
    {
        if i > hay_len - needle_len {
            proof {
                assert forall|k: int| !ci_matches_at(hay@, needle@, k) by {}
            }
            return false;
        }
        if str_matches_at(hay, needle, i) {
            return true;
        }
        i += 1;
    }
}

/// Are the two texts equal up to ASCII case?
pub fn str_eq_ignore_case(a: &str, b: &str) -> (r: bool)
    ensures
        r == ci_equal(a@, b@),
{
    let a_len = a.unicode_len();
    let b_len = b.unicode_len();
    if a_len != b_len {
        return false;
    }
    str_matches_at(a, b, 0)
}

} // verus!
