//! Path-string inspection: final component (base name), stem and extension,
//! and the `zh` path-segment test. Paths are plain character sequences; both
//! `/` and `\` count as separators.

use vstd::prelude::*;
use vstd::string::StrSliceExecFns;

use crate::text::{ci_equal, eq_ci, lower_char, to_lower_char};

verus! {

/// The character separates path components.
pub open spec fn is_sep(c: char) -> bool {
    c == '/' || c == '\\'
}

/// `s` with every trailing separator removed.
pub open spec fn strip_trailing_seps(s: Seq<char>) -> Seq<char>
    decreases s.len(),
{
    if s.len() > 0 && is_sep(s.last()) {
        strip_trailing_seps(s.drop_last())
    } else {
        s
    }
}

/// The suffix of `s` after its last separator (all of `s` if it has none).
pub open spec fn tail_component(s: Seq<char>) -> Seq<char>
    decreases s.len(),
{
    if s.len() == 0 {
        s
    } else if is_sep(s.last()) {
        Seq::empty()
    } else {
        tail_component(s.drop_last()).push(s.last())
    }
}

/// The final path component of `s`: trailing separators are dropped first,
/// then everything after the last remaining separator is the base name.
pub open spec fn base_name(s: Seq<char>) -> Seq<char> {
    tail_component(strip_trailing_seps(s))
}

/// Split a filename at its last dot, provided that dot is not the first
/// character: `Some((stem, extension))`, or `None` for a name with no such
/// dot (then the whole name is the stem and there is no extension).
pub open spec fn split_at_last_dot(name: Seq<char>) -> Option<(Seq<char>, Seq<char>)>
    decreases name.len(),
{
    if name.len() <= 1 {
        None
    } else if name.last() == '.' {
        Some((name.drop_last(), Seq::empty()))
    } else {
        match split_at_last_dot(name.drop_last()) {
            Some(p) => Some((p.0, p.1.push(name.last()))),
            None => None,
        }
    }
}

/// The filename without its extension.
pub open spec fn stem_of(name: Seq<char>) -> Seq<char> {
    match split_at_last_dot(name) {
        Some(p) => p.0,
        None => name,
    }
}

/// The filename's extension, without the dot.
pub open spec fn ext_of(name: Seq<char>) -> Option<Seq<char>> {
    match split_at_last_dot(name) {
        Some(p) => Some(p.1),
        None => None,
    }
}

/// The filename names an executable: its extension is `exe` in any case mix.
pub open spec fn is_exe_name(name: Seq<char>) -> bool {
    match ext_of(name) {
        Some(e) => ci_equal(e, "exe"@),
        None => false,
    }
}

/// A path segment exactly `zh` (case-insensitively) starts at offset `i`:
/// separators stand immediately on either side of it.
pub open spec fn zh_at(s: Seq<char>, i: int) -> bool {
    &&& 0 <= i
    &&& i + 4 <= s.len()
    &&& is_sep(s[i])
    &&& to_lower_char(s[i + 1]) == 'z'
    &&& to_lower_char(s[i + 2]) == 'h'
    &&& is_sep(s[i + 3])
}

/// Some path segment of `s` is exactly `zh`, delimited by separators.
pub open spec fn has_zh_segment(s: Seq<char>) -> bool {
    exists|i: int| zh_at(s, i)
}

pub fn is_sep_c(c: char) -> (b: bool)
    ensures
        b == is_sep(c),
{
    c == '/' || c == '\\'
}

proof fn lemma_strip(s: Seq<char>, end: int)
    requires
        0 <= end <= s.len(),
        forall|k: int| end <= k < s.len() ==> is_sep(#[trigger] s[k]),
        end > 0 ==> !is_sep(s[end - 1]),
    ensures
        strip_trailing_seps(s) == s.take(end),
    decreases s.len(),
{
    if end == s.len() {
        assert(s.take(end) =~= s);
    } else {
        assert(is_sep(s[s.len() - 1]));
        lemma_strip(s.drop_last(), end);
        assert(s.drop_last().take(end) =~= s.take(end));
    }
}

proof fn lemma_tail(s: Seq<char>, start: int)
    requires
        0 <= start <= s.len(),
        forall|k: int| start <= k < s.len() ==> !is_sep(#[trigger] s[k]),
        start > 0 ==> is_sep(s[start - 1]),
    ensures
        tail_component(s) == s.skip(start),
    decreases s.len(),
{
    if s.len() == 0 {
        assert(s.skip(start) =~= s);
    } else if start == s.len() {
        assert(is_sep(s.last()));
        assert(s.skip(start) =~= Seq::<char>::empty());
    } else {
        assert(!is_sep(s.last()));
        lemma_tail(s.drop_last(), start);
        assert(s.drop_last().skip(start).push(s.last()) =~= s.skip(start));
    }
}

proof fn lemma_dot_some(s: Seq<char>, d: int)
    requires
        1 <= d < s.len(),
        s[d] == '.',
        forall|k: int| d < k < s.len() ==> #[trigger] s[k] != '.',
    ensures
        split_at_last_dot(s) == Some((s.take(d), s.skip(d + 1))),
    decreases s.len(),
{
    if d == s.len() - 1 {
        assert(s.drop_last() =~= s.take(d));
        assert(s.skip(d + 1) =~= Seq::<char>::empty());
    } else {
        assert(s[s.len() - 1] != '.');
        lemma_dot_some(s.drop_last(), d);
        assert(s.drop_last().take(d) =~= s.take(d));
        assert(s.drop_last().skip(d + 1).push(s.last()) =~= s.skip(d + 1));
    }
}

proof fn lemma_dot_none(s: Seq<char>)
    requires
        forall|k: int| 1 <= k < s.len() ==> #[trigger] s[k] != '.',
    ensures
        split_at_last_dot(s) is None,
    decreases s.len(),
{
    if s.len() <= 1 {
    } else {
        assert(s[s.len() - 1] != '.');
        lemma_dot_none(s.drop_last());
    }
}

/// The final path component of `path`, as a slice of it.
pub fn base_name_str<'a>(path: &'a str) -> (r: &'a str)
    ensures
        r@ == base_name(path@),
{
    let n = path.unicode_len();
    let mut end: usize = n;
    loop
        invariant
            end <= n,
            n == path@.len(),
            forall|k: int| end <= k < n ==> is_sep(#[trigger] path@[k]),
        ensures
            end <= n,
            forall|k: int| end <= k < n ==> is_sep(#[trigger] path@[k]),
            end > 0 ==> !is_sep(path@[end - 1]),
        decreases end,
    {
        if end == 0 {
            break ;
        }
        if !is_sep_c(path.get_char(end - 1)) {
            break ;
        }
        end -= 1;
    }
    let mut start: usize = end;
    loop
        invariant
            start <= end <= n,
            n == path@.len(),
            forall|k: int| start <= k < end ==> !is_sep(#[trigger] path@[k]),
        ensures
            start <= end,
            forall|k: int| start <= k < end ==> !is_sep(#[trigger] path@[k]),
            start > 0 ==> is_sep(path@[start - 1]),
        decreases start,
    {
        if start == 0 {
            break ;
        }
        if is_sep_c(path.get_char(start - 1)) {
            break ;
        }
        start -= 1;
    }
    let r = path.substring_char(start, end);
    proof {
        lemma_strip(path@, end as int);
        let t = path@.take(end as int);
        assert(forall|k: int| start <= k < end ==> !is_sep(#[trigger] t[k]));
        lemma_tail(t, start as int);
        assert(t.skip(start as int) =~= path@.subrange(start as int, end as int));
    }
    r
}

/// Split a filename into stem and extension, as slices of it.
pub fn stem_and_ext<'a>(name: &'a str) -> (r: (&'a str, Option<&'a str>))
    ensures
        r.0@ == stem_of(name@),
        r.1 is Some <==> ext_of(name@) is Some,
        (r.1 matches Some(e) ==> ext_of(name@) == Some(e@)),
{
    let n = name.unicode_len();
    let mut k: usize = n;
    while k > 1
        invariant
            k <= n,
            n == name@.len(),
            forall|j: int| k <= j < n ==> #[trigger] name@[j] != '.',
        decreases k,
    {
        if name.get_char(k - 1) == '.' {
            let stem = name.substring_char(0, k - 1);
            let ext = name.substring_char(k, n);
            proof {
                lemma_dot_some(name@, k - 1);
                assert(name@.take(k - 1) =~= name@.subrange(0, k - 1));
                assert(name@.skip(k as int) =~= name@.subrange(k as int, n as int));
            }
            return (stem, Some(ext));
        }
        k -= 1;
    }
    proof {
        lemma_dot_none(name@);
    }
    (name, None)
}

/// The path names an executable: the extension of its base name is `exe`.
pub fn is_exe_path(path: &str) -> (b: bool)
    ensures
        b == is_exe_name(base_name(path@)),
{
    let name = base_name_str(path);
    let se = stem_and_ext(name);
    match se.1 {
        Some(e) => eq_ci(e, "exe"),
        None => false,
    }
}

/// Scan for a `zh` path segment, case-insensitively.
pub fn zh_segment(path: &str) -> (b: bool)
    ensures
        b == has_zh_segment(path@),
{
    let n = path.unicode_len();
    if n < 4 {
        proof {
            assert forall|k: int| !(#[trigger] zh_at(path@, k)) by {}
        }
        return false;
    }
    let mut i: usize = 0;
    while i <= n - 4
        invariant
            4 <= n,
            n == path@.len(),
            i <= n - 3,
            forall|k: int| 0 <= k < i ==> !(#[trigger] zh_at(path@, k)),
        decreases n - 3 - i,
    {
        if is_sep_c(path.get_char(i)) && lower_char(path.get_char(i + 1)) == 'z' && lower_char(
            path.get_char(i + 2),
        ) == 'h' && is_sep_c(path.get_char(i + 3)) {
            proof {
                assert(zh_at(path@, i as int));
            }
            return true;
        }
        i += 1;
    }
    proof {
        assert forall|k: int| !(#[trigger] zh_at(path@, k)) by {
            if 0 <= k < i {
            }
        }
    }
    false
}

} // verus!
