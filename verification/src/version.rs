//! Semantic versions: the ordering key of a release.
//!
//! A release tag is usable only when, after the configured prefix is removed,
//! the remainder reads as `major.minor.patch` with three runs of decimal
//! digits.  Anything else is silently dropped from the candidate set, so the
//! parser returns `None` rather than an error.

use crate::strutil::find_char;
use vstd::prelude::*;
use vstd::string::StrSliceExecFns;

verus! {

/// A parsed semantic version, ordered lexicographically by
/// (major, minor, patch).
#[derive(Clone, Copy, Debug, PartialEq, Eq, Structural)]
pub struct Version {
    pub major: u64,
    pub minor: u64,
    pub patch: u64,
}

/// Strict ordering of versions: lexicographic on (major, minor, patch).
pub open spec fn version_lt(a: Version, b: Version) -> bool {
    ||| a.major < b.major
    ||| (a.major == b.major && a.minor < b.minor)
    ||| (a.major == b.major && a.minor == b.minor && a.patch < b.patch)
}

/// Non-strict ordering of versions.
pub open spec fn version_le(a: Version, b: Version) -> bool {
    version_lt(a, b) || a == b
}

impl Version {
    /// True when `self` is strictly newer than `other`.
    pub fn newer_than(&self, other: &Version) -> (r: bool)
        ensures
            r == version_lt(*other, *self),
    {
        if self.major != other.major {
            self.major > other.major
        } else if self.minor != other.minor {
            self.minor > other.minor
        } else {
            self.patch > other.patch
        }
    }
}

/// The ordering is total: any two versions are comparable, and two versions
/// that neither precede one another are equal.
pub proof fn lemma_version_order_total(a: Version, b: Version)
    ensures
        version_le(a, b) || version_le(b, a),
        version_le(a, b) && version_le(b, a) ==> a == b,
        version_lt(a, b) ==> !version_lt(b, a),
{
}

/// A decimal digit.
pub open spec fn is_digit(c: char) -> bool {
    48 <= c as int && c as int <= 57
}

/// The numeric value of a decimal digit.
pub open spec fn digit_val(c: char) -> int {
    c as int - 48
}

/// A non-empty run of decimal digits.
pub open spec fn all_digits(s: Seq<char>) -> bool {
    s.len() > 0 && forall|i: int| 0 <= i < s.len() ==> is_digit(#[trigger] s[i])
}

/// The value of a run of decimal digits, most significant first.
pub open spec fn dec_val(s: Seq<char>) -> int
    decreases s.len(),
{
    if s.len() == 0 {
        0
    } else {
        dec_val(s.drop_last()) * 10 + digit_val(s.last())
    }
}

/// A version component parses when the text is all digits and its value fits
/// the component's width.
pub open spec fn spec_parse_component(s: Seq<char>) -> Option<u64> {
    if all_digits(s) && dec_val(s) <= u64::MAX {
        Some(dec_val(s) as u64)
    } else {
        None
    }
}

/// A version string parses when it splits at its first two dots into three
/// parseable components.
pub open spec fn spec_parse_version(s: Seq<char>) -> Option<Version> {
    match spec_find(s, '.') {
        None => None,
        Some(i) => {
            let rest = s.skip(i + 1);
            match spec_find(rest, '.') {
                None => None,
                Some(j) => {
                    let c1 = spec_parse_component(s.take(i));
                    let c2 = spec_parse_component(rest.take(j));
                    let c3 = spec_parse_component(rest.skip(j + 1));
                    if c1 is Some && c2 is Some && c3 is Some {
                        Some(Version { major: c1->0, minor: c2->0, patch: c3->0 })
                    } else {
                        None
                    }
                },
            }
        },
    }
}

/// The first occurrence of `c` in `s`, as a spec-level search.
pub open spec fn spec_find(s: Seq<char>, c: char) -> Option<int>
    decreases s.len(),
{
    if s.len() == 0 {
        None
    } else if s[0] == c {
        Some(0)
    } else {
        match spec_find(s.drop_first(), c) {
            None => None,
            Some(i) => Some(i + 1),
        }
    }
}

/// `spec_find` returns the least index holding `c`, or reports that none does.
pub proof fn lemma_spec_find(s: Seq<char>, c: char)
    ensures
        match spec_find(s, c) {
            Some(i) => 0 <= i < s.len() && s[i] == c && (forall|j: int| 0 <= j < i ==> s[j] != c),
            None => forall|j: int| 0 <= j < s.len() ==> s[j] != c,
        },
    decreases s.len(),
{
    if s.len() > 0 && s[0] != c {
        let rest = s.drop_first();
        lemma_spec_find(rest, c);
        assert(forall|j: int| 0 <= j < rest.len() ==> rest[j] == s[j + 1]);
        match spec_find(rest, c) {
            Some(i) => {
                assert(spec_find(s, c) == Some(i + 1));
                assert(s[i + 1] == rest[i]);
                assert forall|j: int| 0 <= j < i + 1 implies s[j] != c by {
                    if j > 0 {
                        assert(s[j] == rest[j - 1]);
                    }
                }
            },
            None => {
                assert forall|j: int| 0 <= j < s.len() implies s[j] != c by {
                    if j > 0 {
                        assert(s[j] == rest[j - 1]);
                    }
                }
            },
        }
    }
}

/// Digit values never shrink as digits are appended on the right.
pub proof fn lemma_dec_val_take_monotone(s: Seq<char>, k: int, m: int)
    requires
        0 <= k <= m <= s.len(),
        forall|i: int| 0 <= i < s.len() ==> is_digit(#[trigger] s[i]),
    ensures
        0 <= dec_val(s.take(k)) <= dec_val(s.take(m)),
    decreases m - k,
{
    lemma_dec_val_nonneg(s.take(k));
    if k < m {
        lemma_dec_val_take_monotone(s, k + 1, m);
        assert(s.take(k + 1).drop_last() =~= s.take(k));
        lemma_dec_val_nonneg(s.take(k));
    }
}

/// A run of digits has a non-negative value.
pub proof fn lemma_dec_val_nonneg(s: Seq<char>)
    requires
        forall|i: int| 0 <= i < s.len() ==> is_digit(#[trigger] s[i]),
    ensures
        dec_val(s) >= 0,
    decreases s.len(),
{
    if s.len() > 0 {
        lemma_dec_val_nonneg(s.drop_last());
    }
}

/// Parses a run of decimal digits as a `u64`, rejecting empty input, stray
/// characters and overflow.
fn parse_component(s: &str) -> (r: Option<u64>)
    ensures
        r == spec_parse_component(s@),
{
    let n = s.unicode_len();
    if n == 0 {
        return None;
    }
    let mut acc: u64 = 0;
    let mut i: usize = 0;
    while i < n
        invariant
            i <= n,
            n == s@.len(),
            n > 0,
            forall|j: int| 0 <= j < i ==> is_digit(#[trigger] s@[j]),
            acc == dec_val(s@.take(i as int)),
        decreases n - i,
    {
        let c = s.get_char(i);
        if c < '0' || c > '9' {
            assert(!all_digits(s@));
            return None;
        }
        let d: u64 = (c as u32 as u64) - 48;
        if acc > (u64::MAX - d) / 10 {
            proof {
                assert(s@.take(i as int + 1).drop_last() =~= s@.take(i as int));
                assert(dec_val(s@.take(i as int + 1)) > u64::MAX);
                if all_digits(s@) {
                    lemma_dec_val_take_monotone(s@, i as int + 1, n as int);
                    assert(s@.take(n as int) =~= s@);
                }
            }
            return None;
        }
        proof {
            assert(s@.take(i as int + 1).drop_last() =~= s@.take(i as int));
        }
        acc = acc * 10 + d;
        i += 1;
    }
    proof {
        assert(s@.take(n as int) =~= s@);
    }
    Some(acc)
}

impl Version {
    /// Parses `major.minor.patch`; returns `None` for anything else, since an
    /// unparsable tag is skipped rather than reported.
    pub fn parse(s: &str) -> (r: Option<Version>)
        ensures
            r == spec_parse_version(s@),
    {
        proof {
            lemma_spec_find(s@, '.');
        }
        let i = match find_char(s, '.') {
            None => {
                return None;
            },
            Some(i) => i,
        };
        proof {
            match spec_find(s@, '.') {
                Some(si) => {
                    assert(si == i);
                },
                None => {
                    assert(false);
                },
            }
        }
        let n = s.unicode_len();
        let rest = s.substring_char(i + 1, n);
        assert(rest@ == s@.skip(i + 1));
        proof {
            lemma_spec_find(rest@, '.');
        }
        let j = match find_char(rest, '.') {
            None => {
                return None;
            },
            Some(j) => j,
        };
        proof {
            match spec_find(rest@, '.') {
                Some(sj) => {
                    assert(sj == j);
                },
                None => {
                    assert(false);
                },
            }
        }
        let m = rest.unicode_len();
        let c1 = Version::parse_part(s, 0, i);
        let c2 = Version::parse_part(rest, 0, j);
        let c3 = Version::parse_part(rest, j + 1, m);
        assert(s@.subrange(0, i as int) =~= s@.take(i as int));
        assert(rest@.subrange(0, j as int) =~= rest@.take(j as int));
        assert(rest@.subrange(j + 1, m as int) =~= rest@.skip(j + 1));
        match (c1, c2, c3) {
            (Some(major), Some(minor), Some(patch)) => Some(Version { major, minor, patch }),
            _ => None,
        }
    }

    /// Parses the digits of `s` between `from` and `to` as one component.
    fn parse_part(s: &str, from: usize, to: usize) -> (r: Option<u64>)
        requires
            from <= to <= s@.len(),
        ensures
            r == spec_parse_component(s@.subrange(from as int, to as int)),
    {
        let part = s.substring_char(from, to);
        parse_component(part)
    }
}

} // verus!
