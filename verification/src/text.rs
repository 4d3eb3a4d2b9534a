//! Character and text helpers for the tolerant row parser: Unicode
//! classification of single characters (taken on trust from the standard
//! library), verified whitespace trimming, and verified ASCII
//! case-insensitive comparison.

use vstd::prelude::*;

verus! {

/// Whether a character has the Unicode Alphabetic property, as
/// `char::is_alphabetic` decides it.
pub uninterp spec fn spec_alphabetic(c: char) -> bool;

/// Whether a character has the Unicode White_Space property, as
/// `char::is_whitespace` decides it.
pub uninterp spec fn spec_whitespace(c: char) -> bool;

/// Relies on char::is_alphabetic: whether the character has the Unicode
/// Alphabetic property, a function of the character alone.
#[verifier::external_body]
pub(crate) fn char_is_alphabetic(c: char) -> (r: bool)
    ensures
        r == spec_alphabetic(c),
{
    c.is_alphabetic()
}

/// Relies on char::is_whitespace: whether the character has the Unicode
/// White_Space property, a function of the character alone.
#[verifier::external_body]
pub(crate) fn char_is_whitespace(c: char) -> (r: bool)
    ensures
        r == spec_whitespace(c),
{
    c.is_whitespace()
}

/// The sequence with leading whitespace characters removed.
pub open spec fn spec_drop_leading_ws(s: Seq<char>) -> Seq<char>
    decreases s.len(),
{
    if s.len() > 0 && spec_whitespace(s.first()) {
        spec_drop_leading_ws(s.drop_first())
    } else {
        s
    }
}

/// The sequence with trailing whitespace characters removed.
pub open spec fn spec_drop_trailing_ws(s: Seq<char>) -> Seq<char>
    decreases s.len(),
{
    if s.len() > 0 && spec_whitespace(s.last()) {
        spec_drop_trailing_ws(s.drop_last())
    } else {
        s
    }
}

/// The sequence with leading and trailing whitespace removed.
pub open spec fn spec_trim(s: Seq<char>) -> Seq<char> {
    spec_drop_trailing_ws(spec_drop_leading_ws(s))
}

proof fn lemma_drop_leading_ws_subrange(s: Seq<char>, i: int)
    requires
        0 <= i <= s.len(),
        forall|k: int| 0 <= k < i ==> spec_whitespace(s[k]),
        i < s.len() ==> !spec_whitespace(s[i]),
    ensures
        spec_drop_leading_ws(s) == s.subrange(i, s.len() as int),
    decreases i,
{
    if i == 0 {
        assert(s.subrange(0, s.len() as int) =~= s);
    } else {
        lemma_drop_leading_ws_subrange(s.drop_first(), i - 1);
        assert(s.drop_first().subrange(i - 1, s.drop_first().len() as int) =~= s.subrange(
            i,
            s.len() as int,
        ));
    }
}

proof fn lemma_drop_trailing_ws_subrange(s: Seq<char>, j: int)
    requires
        0 <= j <= s.len(),
        forall|k: int| j <= k < s.len() ==> spec_whitespace(s[k]),
        j > 0 ==> !spec_whitespace(s[j - 1]),
    ensures
        spec_drop_trailing_ws(s) == s.subrange(0, j),
    decreases s.len() - j,
{
    if j == s.len() {
        assert(s.subrange(0, s.len() as int) =~= s);
    } else {
        lemma_drop_trailing_ws_subrange(s.drop_last(), j);
        assert(s.drop_last().subrange(0, j) =~= s.subrange(0, j));
    }
}

/// Removes leading and trailing whitespace, as the standard library's
/// `str::trim` does.
pub fn trim(s: &str) -> (r: &str)
    ensures
        r@ == spec_trim(s@),
{
    let n = s.unicode_len();
    let mut i: usize = 0;
    while i < n && char_is_whitespace(s.get_char(i))
        invariant
            0 <= i <= n,
            n == s@.len(),
            forall|k: int| 0 <= k < i ==> spec_whitespace(s@[k]),
        decreases n - i,
    {
        i = i + 1;
    }
    proof {
        lemma_drop_leading_ws_subrange(s@, i as int);
    }
    let mut j: usize = n;
    while j > i && char_is_whitespace(s.get_char(j - 1))
        invariant
            i <= j <= n,
            n == s@.len(),
            forall|k: int| j <= k < n ==> spec_whitespace(s@[k]),
        decreases j,
    {
        j = j - 1;
    }
    proof {
        let tail = s@.subrange(i as int, n as int);
        lemma_drop_trailing_ws_subrange(tail, j - i);
        assert(tail.subrange(0, j - i) =~= s@.subrange(i as int, j as int));
    }
    s.substring_char(i, j)
}

/// Whether an uppercase ASCII letter stands at `c`.
pub open spec fn spec_ascii_upper(c: char) -> bool {
    65 <= c as u32 <= 90
}

/// Whether two characters are equal up to ASCII case, as
/// `char::eq_ignore_ascii_case` decides it: equal outright, or the same
/// ASCII letter in the two cases (which differ by 32 code points).
pub open spec fn spec_eq_ic_char(a: char, b: char) -> bool {
    a == b || (spec_ascii_upper(a) && b as u32 == a as u32 + 32) || (spec_ascii_upper(b) && a as u32
        == b as u32 + 32)
}

/// Whether two character sequences are equal up to ASCII case.
pub open spec fn spec_eq_ic(a: Seq<char>, b: Seq<char>) -> bool {
    a.len() == b.len() && forall|k: int| 0 <= k < a.len() ==> spec_eq_ic_char(a[k], b[k])
}

/// Compares two characters up to ASCII case.
pub fn eq_ic_char(a: char, b: char) -> (r: bool)
    ensures
        r == spec_eq_ic_char(a, b),
{
    let au = a as u32;
    let bu = b as u32;
    a == b || (65 <= au && au <= 90 && bu == au + 32) || (65 <= bu && bu <= 90 && au == bu + 32)
}

/// Compares two strings up to ASCII case, as the standard library's
/// `str::eq_ignore_ascii_case` does.
pub fn eq_ignore_ascii_case(a: &str, b: &str) -> (r: bool)
    ensures
        r == spec_eq_ic(a@, b@),
{
    let na = a.unicode_len();
    let nb = b.unicode_len();
    if na != nb {
        return false;
    }
    let mut k: usize = 0;
    while k < na
        invariant
            0 <= k <= na,
            na == a@.len(),
            na == b@.len(),
            forall|m: int| 0 <= m < k ==> spec_eq_ic_char(a@[m], b@[m]),
        decreases na - k,
    {
        if !eq_ic_char(a.get_char(k), b.get_char(k)) {
            return false;
        }
        k = k + 1;
    }
    true
}

} // verus!
