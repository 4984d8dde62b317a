//! Report-ready values derived from the raw counts: the numeric ordinal
//! of a release version's minor component, the edition identifier, and
//! the per-package record header.

use vstd::prelude::*;
use vstd::string::StrSliceExecFns;

verus! {

/// Identity of one analyzed package version.
pub struct CrateInfo {
    pub name: String,
    pub version: String,
    pub published_at: i64,
}

/// The language editions a manifest can declare.
pub enum Edition {
    E2015,
    E2018,
    E2021,
}

/// The numeric identifier a report records for an edition.
pub fn edition_id(edition: &Edition) -> (r: usize)
    ensures
        r == match edition {
            Edition::E2015 => 0usize,
            Edition::E2018 => 1usize,
            Edition::E2021 => 2usize,
        },
{
    match edition {
        Edition::E2015 => 0,
        Edition::E2018 => 1,
        Edition::E2021 => 2,
    }
}

pub open spec fn is_digit(c: char) -> bool {
    '0' <= c && c <= '9'
}

pub open spec fn digit_val(c: char) -> nat {
    (c as nat - '0' as nat) as nat
}

/// The value of a digit string, most significant first.
pub open spec fn digits_val(s: Seq<char>) -> nat
    decreases s.len(),
{
    if s.len() == 0 {
        0
    } else {
        digits_val(s.drop_last()) * 10 + digit_val(s.last())
    }
}

pub open spec fn all_digits(s: Seq<char>) -> bool {
    forall|i: int| 0 <= i < s.len() ==> is_digit(#[trigger] s[i])
}

/// First index at or after `from` holding a dot, or the length.
pub open spec fn find_dot(s: Seq<char>, from: int) -> int
    decreases s.len() - from,
{
    if from < 0 || from >= s.len() {
        s.len() as int
    } else if s[from] == '.' {
        from
    } else {
        find_dot(s, from + 1)
    }
}

/// The minor-version ordinal of a version string: the characters between
/// the first dot and the following dot (or the end), when that segment
/// is a nonempty digit string whose value fits the machine; anything
/// else has no ordinal.
pub open spec fn spec_minor_version(s: Seq<char>) -> Option<nat> {
    let d1 = find_dot(s, 0);
    if d1 >= s.len() {
        None
    } else {
        let d2 = find_dot(s, d1 + 1);
        let seg = s.subrange(d1 + 1, d2);
        if seg.len() > 0 && all_digits(seg) && digits_val(seg) <= usize::MAX {
            Some(digits_val(seg))
        } else {
            None
        }
    }
}

pub proof fn lemma_find_dot(s: Seq<char>, from: int)
    requires
        0 <= from <= s.len(),
    ensures
        from <= find_dot(s, from) <= s.len(),
        find_dot(s, from) < s.len() ==> s[find_dot(s, from)] == '.',
        forall|k: int| from <= k < find_dot(s, from) ==> s[k] != '.',
    decreases s.len() - from,
{
    if from < s.len() && s[from] != '.' {
        lemma_find_dot(s, from + 1);
    }
}

proof fn lemma_digits_val_take(s: Seq<char>, i: int)
    requires
        0 <= i < s.len(),
    ensures
        digits_val(s.take(i + 1)) == digits_val(s.take(i)) * 10 + digit_val(s[i]),
{
    assert(s.take(i + 1).drop_last() =~= s.take(i));
    assert(s.take(i + 1).last() == s[i]);
}

/// The minor-version ordinal of `version`, or nothing when the string
/// has no parseable minor component.
#[verifier::loop_isolation(false)]
pub fn rust_version_to_number(version: &str) -> (r: Option<usize>)
    ensures
        match r {
            Some(n) => spec_minor_version(version@) == Some(n as nat),
            None => spec_minor_version(version@) is None,
        },
{
    let n = version.unicode_len();
    proof {
        lemma_find_dot(version@, 0);
    }
    // Find the first dot.
    let mut d1: usize = 0;
    while d1 < n && version.get_char(d1) != '.'
        invariant
            0 <= d1 <= n,
            n == version@.len(),
            forall|k: int| 0 <= k < d1 ==> version@[k] != '.',
        decreases n - d1,
    {
        d1 = d1 + 1;
    }
    proof {
        assert(d1 as int == find_dot(version@, 0)) by {
            lemma_find_dot(version@, 0);
            if (d1 as int) < version@.len() {
                assert(version@[d1 as int] == '.');
            }
        }
    }
    if d1 >= n {
        return None;
    }
    // Find the end of the minor segment.
    let mut d2: usize = d1 + 1;
    while d2 < n && version.get_char(d2) != '.'
        invariant
            d1 + 1 <= d2 <= n,
            n == version@.len(),
            forall|k: int| d1 + 1 <= k < d2 ==> version@[k] != '.',
        decreases n - d2,
    {
        d2 = d2 + 1;
    }
    proof {
        assert(d2 as int == find_dot(version@, d1 + 1)) by {
            lemma_find_dot(version@, d1 + 1);
            if (d2 as int) < version@.len() {
                assert(version@[d2 as int] == '.');
            }
        }
    }
    let ghost seg = version@.subrange(d1 + 1, d2 as int);
    if d2 == d1 + 1 {
        proof {
            assert(seg.len() == 0);
        }
        return None;
    }
    // Parse the digits with an overflow guard.
    let mut acc: usize = 0;
    let mut i: usize = d1 + 1;
    while i < d2
        invariant
            d1 + 1 <= i <= d2 <= n,
            n == version@.len(),
            seg == version@.subrange(d1 + 1, d2 as int),
            all_digits(seg.take(i - d1 - 1)),
            acc == digits_val(seg.take(i - d1 - 1)),
        decreases d2 - i,
    {
        let c = version.get_char(i);
        proof {
            assert(seg[i - d1 - 1] == version@[i as int]);
        }
        let cu = c as u32;
        if !(cu >= 48 && cu <= 57) {
            proof {
                assert(!is_digit(seg[i - d1 - 1]));
                assert(!all_digits(seg));
                assert(spec_minor_version(version@) is None);
            }
            return None;
        }
        let d = (cu - 48) as usize;
        proof {
            assert(is_digit(seg[i - d1 - 1]));
            assert(d == digit_val(seg[i - d1 - 1]));
        }
        if acc > (usize::MAX - d) / 10 {
            // The value cannot fit; no larger prefix can either.
            proof {
                lemma_digits_val_take(seg, i - d1 - 1);
                assert(acc * 10 + d > usize::MAX) by (nonlinear_arith)
                    requires
                        acc > (usize::MAX - d) / 10,
                        0 <= d <= 9,
                {}
                lemma_digits_monotone(seg, i - d1);
                assert(digits_val(seg) > usize::MAX);
                assert(spec_minor_version(version@) is None);
            }
            return None;
        }
        proof {
            lemma_digits_val_take(seg, i - d1 - 1);
        }
        acc = acc * 10 + d;
        i = i + 1;
        proof {
            assert(all_digits(seg.take(i - d1 - 1)));
        }
    }
    proof {
        assert(seg.take(d2 - d1 - 1) =~= seg);
    }
    Some(acc)
}

/// The indices of an even spread of `count` samples over `total`
/// positions: the first and last positions are always kept.
pub fn sample_indices(total: usize, count: usize) -> (r: Vec<usize>)
    requires
        2 <= count <= total,
        (count - 1) * (total - 1) <= usize::MAX,
    ensures
        r@.len() == count,
        forall|i: int|
            0 <= i < count ==> r@[i] == (i * (total - 1) as int) / (count - 1) as int,
{
    let mut r: Vec<usize> = Vec::new();
    let mut i: usize = 0;
    while i < count
        invariant
            0 <= i <= count,
            2 <= count <= total,
            (count - 1) * (total - 1) <= usize::MAX,
            r@.len() == i,
            forall|j: int|
                0 <= j < i ==> r@[j] == (j * (total - 1) as int) / (count - 1) as int,
        decreases count - i,
    {
        proof {
            assert(i * (total - 1) <= (count - 1) * (total - 1)) by (nonlinear_arith)
                requires
                    0 <= i <= count - 1,
                    0 <= total - 1,
            {}
        }
        r.push((i * (total - 1)) / (count - 1));
        i = i + 1;
    }
    r
}

/// A digit string's value only grows with a longer prefix.
proof fn lemma_digits_monotone(s: Seq<char>, from: int)
    requires
        0 <= from <= s.len(),
    ensures
        digits_val(s.take(from)) <= digits_val(s),
    decreases s.len() - from,
{
    if from < s.len() {
        lemma_digits_monotone(s, from + 1);
        lemma_digits_val_take(s, from);
    } else {
        assert(s.take(from) =~= s);
    }
}

} // verus!
