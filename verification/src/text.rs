//! Case-insensitive text primitives: ASCII case folding, substring search,
//! and whole-string comparison, over `Seq<char>` views of `&str`.

use vstd::prelude::*;
use vstd::string::StrSliceExecFns;

verus! {

/// ASCII lowercase of one character; characters outside `'A'..='Z'` are kept.
pub open spec fn to_lower_char(c: char) -> char {
    if 'A' <= c && c <= 'Z' {
        (((c as u8) + 32) as char)
    } else {
        c
    }
}

/// ASCII lowercase of a whole character sequence.
pub open spec fn lower(s: Seq<char>) -> Seq<char> {
    s.map_values(|c: char| to_lower_char(c))
}

/// `needle` occurs contiguously inside `hay`.
pub open spec fn seq_contains(hay: Seq<char>, needle: Seq<char>) -> bool {
    exists|i: int|
        0 <= i && i + needle.len() <= hay.len() && #[trigger] hay.subrange(i, i + needle.len())
            == needle
}

/// `needle` occurs inside `hay`, compared without regard to ASCII case.
pub open spec fn ci_contains(hay: Seq<char>, needle: Seq<char>) -> bool {
    seq_contains(lower(hay), lower(needle))
}

/// The two strings are equal without regard to ASCII case.
pub open spec fn ci_equal(a: Seq<char>, b: Seq<char>) -> bool {
    lower(a) == lower(b)
}

pub fn lower_char(c: char) -> (r: char)
    ensures
        r == to_lower_char(c),
{
    if 'A' <= c && c <= 'Z' {
        ((c as u8) + 32) as char
    } else {
        c
    }
}

/// Does the case-folded `hay` match the case-folded `needle` at offset `i`?
fn matches_at(hay: &str, needle: &str, i: usize) -> (b: bool)
    requires
        i + needle@.len() <= hay@.len(),
        hay@.len() <= usize::MAX,
    ensures
        b == (lower(hay@).subrange(i as int, i + needle@.len()) == lower(needle@)),
{
    let m = needle.unicode_len();
    let mut j: usize = 0;
    while j < m
        invariant
            i + m <= hay@.len() <= usize::MAX,
            m == needle@.len(),
            j <= m,
            forall|l: int| 0 <= l < j ==> lower(hay@)[i + l] == lower(needle@)[l],
        decreases m - j,
    {
        if lower_char(hay.get_char(i + j)) != lower_char(needle.get_char(j)) {
            proof {
                assert(lower(hay@).subrange(i as int, i + needle@.len())[j as int] == lower(
                    hay@,
                )[i + j]);
            }
            return false;
        }
        j += 1;
    }
    proof {
        assert(lower(hay@).subrange(i as int, i + needle@.len()) =~= lower(needle@));
    }
    true
}

/// Case-insensitive substring search: `needle` occurs in `hay` when both are
/// folded to ASCII lowercase.
pub fn contains_ci(hay: &str, needle: &str) -> (b: bool)
    ensures
        b == ci_contains(hay@, needle@),
{
    let n = hay.unicode_len();
    let m = needle.unicode_len();
    if m > n {
        return false;
    }
    if m == 0 {
        proof {
            let w = 0int;
            assert(lower(hay@).subrange(w, w + lower(needle@).len()) =~= lower(needle@));
        }
        return true;
    }
    let mut i: usize = 0;
    while i <= n - m
        invariant
            0 < m <= n,
            n == hay@.len(),
            m == needle@.len(),
            i <= n - m + 1,
            forall|k: int|
                0 <= k < i ==> #[trigger] lower(hay@).subrange(k, k + needle@.len()) != lower(
                    needle@,
                ),
        decreases n - m + 1 - i,
    {
        if matches_at(hay, needle, i) {
            proof {
                let w = i as int;
                assert(0 <= w && w + lower(needle@).len() <= lower(hay@).len() && lower(
                    hay@,
                ).subrange(w, w + lower(needle@).len()) == lower(needle@));
            }
            return true;
        }
        i += 1;
    }
    proof {
        assert forall|k: int|
            0 <= k && k + lower(needle@).len() <= lower(hay@).len() implies #[trigger] lower(
            hay@,
        ).subrange(k, k + lower(needle@).len()) != lower(needle@) by {
            assert(lower(hay@).subrange(k, k + needle@.len()) != lower(needle@));
        }
    }
    false
}

/// Case-insensitive string equality under ASCII folding.
pub fn eq_ci(a: &str, b: &str) -> (r: bool)
    ensures
        r == ci_equal(a@, b@),
{
    let n = a.unicode_len();
    let m = b.unicode_len();
    if n != m {
        proof {
            assert(lower(a@).len() == a@.len());
            assert(lower(b@).len() == b@.len());
        }
        return false;
    }
    let r = matches_at(a, b, 0);
    proof {
        assert(lower(a@).subrange(0, m as int) =~= lower(a@));
    }
    r
}

} // verus!
