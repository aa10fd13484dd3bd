//! Character-level string helpers.
//!
//! Release tags, artifact names and the persisted state record are all plain
//! text, so the library needs prefix/suffix tests, searches and substring
//! copies whose results are pinned down over `Seq<char>` views.

use vstd::prelude::*;
use vstd::string::StrSliceExecFns;

verus! {

/// Relies on std's `String::push`: appends exactly one character.
#[verifier::external_body]
pub(crate) fn push_char(s: &mut String, c: char)
    ensures
        final(s)@ == old(s)@.push(c),
{
    s.push(c);
}

/// True exactly when `p` is a prefix of `s`.
pub fn starts_with_str(s: &str, p: &str) -> (r: bool)
    ensures
        r == p@.is_prefix_of(s@),
{
    let n = p.unicode_len();
    if s.unicode_len() < n {
        return false;
    }
    let mut i: usize = 0;
    while i < n
        invariant
            i <= n,
            n == p@.len(),
            n <= s@.len(),
            forall|j: int| 0 <= j < i ==> s@[j] == p@[j],
        decreases n - i,
    {
        if s.get_char(i) != p.get_char(i) {
            return false;
        }
        i += 1;
    }
    assert(p@ =~= s@.subrange(0, n as int));
    true
}

/// True exactly when `p` is a suffix of `s`.
pub fn ends_with_str(s: &str, p: &str) -> (r: bool)
    ensures
        r == p@.is_suffix_of(s@),
{
    let n = p.unicode_len();
    let m = s.unicode_len();
    if m < n {
        return false;
    }
    let off = m - n;
    let mut i: usize = 0;
    while i < n
        invariant
            i <= n,
            n == p@.len(),
            m == s@.len(),
            off == m - n,
            forall|j: int| 0 <= j < i ==> s@[off + j] == p@[j],
        decreases n - i,
    {
        if s.get_char(off + i) != p.get_char(i) {
            assert(s@.subrange(off as int, m as int)[i as int] != p@[i as int]);
            return false;
        }
        i += 1;
    }
    assert(p@ =~= s@.subrange(off as int, m as int));
    true
}

/// True exactly when the two slices hold the same characters.
pub fn eq_str(a: &str, b: &str) -> (r: bool)
    ensures
        r == (a@ == b@),
{
    let n = a.unicode_len();
    if b.unicode_len() != n {
        return false;
    }
    let mut i: usize = 0;
    while i < n
        invariant
            i <= n,
            n == a@.len(),
            n == b@.len(),
            forall|j: int| 0 <= j < i ==> a@[j] == b@[j],
        decreases n - i,
    {
        if a.get_char(i) != b.get_char(i) {
            return false;
        }
        i += 1;
    }
    assert(a@ =~= b@);
    true
}

/// An owned copy of the characters of `s` between `from` and `to`.
pub fn substring_copy(s: &str, from: usize, to: usize) -> (r: String)
    requires
        from <= to <= s@.len(),
    ensures
        r@ == s@.subrange(from as int, to as int),
{
    s.substring_char(from, to).to_owned()
}

/// The first occurrence of `c` in `s`, if any.
pub fn find_char(s: &str, c: char) -> (r: Option<usize>)
    ensures
        match r {
            Some(i) => i < s@.len() && s@[i as int] == c && (forall|j: int|
                0 <= j < i ==> s@[j] != c),
            None => forall|j: int| 0 <= j < s@.len() ==> s@[j] != c,
        },
{
    let n = s.unicode_len();
    let mut i: usize = 0;
    while i < n
        invariant
            i <= n,
            n == s@.len(),
            forall|j: int| 0 <= j < i ==> s@[j] != c,
        decreases n - i,
    {
        if s.get_char(i) == c {
            return Some(i);
        }
        i += 1;
    }
    None
}

/// The last occurrence of `c` in `s`, if any.
pub fn rfind_char(s: &str, c: char) -> (r: Option<usize>)
    ensures
        match r {
            Some(i) => i < s@.len() && s@[i as int] == c && (forall|j: int|
                i < j < s@.len() ==> s@[j] != c),
            None => forall|j: int| 0 <= j < s@.len() ==> s@[j] != c,
        },
{
    let n = s.unicode_len();
    let mut i: usize = n;
    while i > 0
        invariant
            i <= n,
            n == s@.len(),
            forall|j: int| i <= j < n ==> s@[j] != c,
        decreases i,
    {
        i -= 1;
        if s.get_char(i) == c {
            return Some(i);
        }
    }
    None
}

/// The last occurrence of `c` in `s`, as a spec-level search.
pub open spec fn spec_rfind(s: Seq<char>, c: char) -> Option<int>
    decreases s.len(),
{
    if s.len() == 0 {
        None
    } else if s.last() == c {
        Some(s.len() - 1)
    } else {
        spec_rfind(s.drop_last(), c)
    }
}

/// `spec_rfind` returns the greatest index holding `c`, or reports that none
/// does.
pub proof fn lemma_spec_rfind(s: Seq<char>, c: char)
    ensures
        match spec_rfind(s, c) {
            Some(i) => 0 <= i < s.len() && s[i] == c && (forall|j: int|
                i < j < s.len() ==> s[j] != c),
            None => forall|j: int| 0 <= j < s.len() ==> s[j] != c,
        },
    decreases s.len(),
{
    if s.len() > 0 && s.last() != c {
        let front = s.drop_last();
        lemma_spec_rfind(front, c);
        assert(forall|j: int| 0 <= j < front.len() ==> front[j] == s[j]);
    }
}

/// All copies of the suffix `suf` removed from the end of `s`, repeatedly.
pub open spec fn spec_trim_suffix_all(s: Seq<char>, suf: Seq<char>) -> Seq<char>
    decreases s.len(),
{
    if suf.len() > 0 && suf.is_suffix_of(s) {
        spec_trim_suffix_all(s.subrange(0, s.len() - suf.len()), suf)
    } else {
        s
    }
}

/// Removes every trailing copy of `suf` from `s`.
pub fn trim_suffix_all(s: &str, suf: &str) -> (r: String)
    requires
        suf@.len() > 0,
    ensures
        r@ == spec_trim_suffix_all(s@, suf@),
{
    let mut cur = s.to_owned();
    let suf_len = suf.unicode_len();
    while ends_with_str(cur.as_str(), suf)
        invariant
            suf_len == suf@.len(),
            suf@.len() > 0,
            spec_trim_suffix_all(cur@, suf@) == spec_trim_suffix_all(s@, suf@),
        decreases cur@.len(),
    {
        let n = cur.unicode_len();
        cur = substring_copy(cur.as_str(), 0, n - suf_len);
    }
    cur
}

} // verus!
