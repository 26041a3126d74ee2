//! Character-level text utilities shared by the event codec, the log
//! aggregation helpers and the trigger rules: conversions between `String`
//! and `Vec<char>`, substring search, and whitespace/trim predicates.
use vstd::prelude::*;

verus! {

/// Relies on `core::iter::Iterator::collect` for `String`: collecting a
/// sequence of characters yields the string of exactly those characters.
#[verifier::external_body]
pub(crate) fn chars_to_string(v: &Vec<char>) -> (s: String)
    ensures
        s@ == v@,
{
    v.iter().collect()
}

/// The characters of a string, in order, as a vector.
pub fn string_to_chars(s: &str) -> (v: Vec<char>)
    ensures
        v@ == s@,
{
    let n = s.unicode_len();
    let mut v: Vec<char> = Vec::new();
    let mut i: usize = 0;
    while i < n
        invariant
            i <= n,
            n == s@.len(),
            v@ == s@.take(i as int),
        decreases n - i,
    {
        let c = s.get_char(i);
        v.push(c);
        proof {
            assert(v@ =~= s@.take(i + 1));
        }
        i += 1;
    }
    proof {
        assert(v@ =~= s@);
    }
    v
}

/// Whether `needle` occurs in `hay` starting at position `at`.
pub open spec fn occurs_at(hay: Seq<char>, needle: Seq<char>, at: int) -> bool {
    0 <= at && at + needle.len() <= hay.len() && hay.subrange(at, at + needle.len()) == needle
}

/// Whether `needle` occurs anywhere in `hay`.
pub open spec fn contains_seq(hay: Seq<char>, needle: Seq<char>) -> bool {
    exists|at: int| occurs_at(hay, needle, at)
}

fn matches_at(hay: &Vec<char>, needle: &Vec<char>, at: usize) -> (r: bool)
    requires
        at + needle@.len() <= hay@.len(),
    ensures
        r == occurs_at(hay@, needle@, at as int),
{
    let hn = hay.len();
    let nn = needle.len();
    let mut k: usize = 0;
    while k < nn
        invariant
            k <= nn,
            hn == hay@.len(),
            nn == needle@.len(),
            at + nn <= hn,
            forall|j: int| 0 <= j < k ==> hay@[at + j] == needle@[j],
        decreases nn - k,
    {
        assert(at + k < hn);
        if hay[at + k] != needle[k] {
            assert(hay@.subrange(at as int, at + needle@.len()) != needle@) by {
                assert(hay@.subrange(at as int, at + needle@.len())[k as int] != needle@[k as int]);
            }
            return false;
        }
        k += 1;
    }
    assert(hay@.subrange(at as int, at + needle@.len()) =~= needle@);
    true
}

/// The position of the first occurrence of `needle` in `hay`, if any.
pub fn find_chars(hay: &Vec<char>, needle: &Vec<char>) -> (r: Option<usize>)
    ensures
        match r {
            Some(at) => occurs_at(hay@, needle@, at as int) && forall|j: int|
                0 <= j < at ==> !occurs_at(hay@, needle@, j),
            None => !contains_seq(hay@, needle@),
        },
{
    if needle.len() > hay.len() {
        return None;
    }
    if needle.len() == 0 {
        assert(hay@.subrange(0, 0) =~= needle@);
        return Some(0);
    }
    let last = hay.len() - needle.len();
    let mut i: usize = 0;
    while i <= last
        invariant
            1 <= needle@.len() <= hay@.len(),
            hay@.len() <= usize::MAX,
            last == hay@.len() - needle@.len(),
            i <= last + 1,
            forall|j: int| 0 <= j < i ==> !occurs_at(hay@, needle@, j),
        decreases last + 1 - i,
    {
        if matches_at(hay, needle, i) {
            return Some(i);
        }
        i += 1;
    }
    None
}

/// Whether `needle` occurs anywhere in `hay`.
pub fn contains_chars(hay: &Vec<char>, needle: &Vec<char>) -> (r: bool)
    ensures
        r == contains_seq(hay@, needle@),
{
    find_chars(hay, needle).is_some()
}

/// A concatenation occurring somewhere occurs piecewise.
pub proof fn lemma_occurs_split(v: Seq<char>, a: Seq<char>, b: Seq<char>, i: int)
    requires
        occurs_at(v, a + b, i),
    ensures
        occurs_at(v, a, i),
        occurs_at(v, b, i + a.len()),
{
    let ab = a + b;
    assert(v.subrange(i, i + a.len()) =~= a) by {
        assert forall|q: int| 0 <= q < a.len() implies v.subrange(i, i + a.len())[q] == a[q] by {
            assert(v.subrange(i, i + ab.len())[q] == v[i + q]);
            assert(ab[q] == a[q]);
        }
    }
    assert(v.subrange(i + a.len(), i + a.len() + b.len()) =~= b) by {
        assert forall|q: int| 0 <= q < b.len() implies v.subrange(
            i + a.len(),
            i + a.len() + b.len(),
        )[q] == b[q] by {
            assert(v.subrange(i, i + ab.len())[a.len() + q] == v[i + a.len() + q]);
            assert(ab[a.len() + q] == b[q]);
        }
    }
}

/// Whitespace as the trim rules of this crate treat it: the ASCII whitespace
/// characters that show up in process output.
pub open spec fn is_space(c: char) -> bool {
    c == ' ' || c == '\t' || c == '\n' || c == '\r'
}

pub fn space_char(c: char) -> (r: bool)
    ensures
        r == is_space(c),
{
    c == ' ' || c == '\t' || c == '\n' || c == '\r'
}

/// The number of leading whitespace characters of `s`.
pub open spec fn leading_spaces(s: Seq<char>) -> int
    decreases s.len(),
{
    if s.len() == 0 || !is_space(s[0]) {
        0
    } else {
        1 + leading_spaces(s.skip(1))
    }
}

pub proof fn lemma_leading_spaces_bound(s: Seq<char>)
    ensures
        0 <= leading_spaces(s) <= s.len(),
        forall|j: int| 0 <= j < leading_spaces(s) ==> is_space(s[j]),
        leading_spaces(s) < s.len() ==> !is_space(s[leading_spaces(s)]),
    decreases s.len(),
{
    if s.len() != 0 && is_space(s[0]) {
        lemma_leading_spaces_bound(s.skip(1));
        assert forall|j: int| 0 <= j < leading_spaces(s) implies is_space(s[j]) by {
            if j > 0 {
                assert(s.skip(1)[j - 1] == s[j]);
            }
        }
        if leading_spaces(s) < s.len() {
            assert(s.skip(1)[leading_spaces(s) - 1] == s[leading_spaces(s)]);
        }
    }
}

/// The number of trailing whitespace characters of `s`.
pub open spec fn trailing_spaces(s: Seq<char>) -> int
    decreases s.len(),
{
    if s.len() == 0 || !is_space(s[s.len() - 1]) {
        0
    } else {
        1 + trailing_spaces(s.take(s.len() - 1))
    }
}

pub proof fn lemma_trailing_spaces_bound(s: Seq<char>)
    ensures
        0 <= trailing_spaces(s) <= s.len(),
        forall|j: int| s.len() - trailing_spaces(s) <= j < s.len() ==> is_space(s[j]),
        trailing_spaces(s) < s.len() ==> !is_space(s[s.len() - trailing_spaces(s) - 1]),
    decreases s.len(),
{
    if s.len() != 0 && is_space(s[s.len() - 1]) {
        lemma_trailing_spaces_bound(s.take(s.len() - 1));
        assert forall|j: int| s.len() - trailing_spaces(s) <= j < s.len() implies is_space(
            s[j],
        ) by {
            if j < s.len() - 1 {
                assert(s.take(s.len() - 1)[j] == s[j]);
            }
        }
        if trailing_spaces(s) < s.len() {
            assert(s.take(s.len() - 1)[s.len() - trailing_spaces(s) - 1] == s[s.len()
                - trailing_spaces(s) - 1]);
        }
    }
}

/// `s` with leading and trailing whitespace removed, as `str::trim` behaves
/// on the whitespace characters above.
pub open spec fn trim_spec(s: Seq<char>) -> Seq<char> {
    if leading_spaces(s) == s.len() {
        Seq::empty()
    } else {
        s.subrange(leading_spaces(s), s.len() - trailing_spaces(s))
    }
}

/// Trims whitespace from both ends of a character vector.
pub fn trim_chars(s: &Vec<char>) -> (r: Vec<char>)
    ensures
        r@ == trim_spec(s@),
{
    let n = s.len();
    proof {
        assert(s@.skip(0) =~= s@);
    }
    let mut start: usize = 0;
    while start < n && space_char(s[start])
        invariant
            start <= n,
            n == s@.len(),
            forall|j: int| 0 <= j < start ==> is_space(s@[j]),
            leading_spaces(s@.skip(start as int)) + start == leading_spaces(s@),
        decreases n - start,
    {
        proof {
            assert(s@.skip(start as int).skip(1) =~= s@.skip(start + 1));
            assert(s@.skip(start as int)[0] == s@[start as int]);
        }
        start += 1;
    }
    proof {
        lemma_leading_spaces_bound(s@.skip(start as int));
        if start < n {
            assert(s@.skip(start as int)[0] == s@[start as int]);
        }
        assert(leading_spaces(s@) == start);
    }
    if start == n {
        let r: Vec<char> = Vec::new();
        proof {
            assert(r@ =~= trim_spec(s@));
        }
        return r;
    }
    let mut end: usize = n;
    proof {
        assert(s@.take(n as int) =~= s@);
    }
    while end > start && space_char(s[end - 1])
        invariant
            start <= end <= n,
            n == s@.len(),
            start < n,
            start == leading_spaces(s@),
            !is_space(s@[start as int]),
            forall|j: int| end <= j < n ==> is_space(s@[j]),
            trailing_spaces(s@.take(end as int)) + (n - end) == trailing_spaces(s@),
        decreases end,
    {
        proof {
            assert(s@.take(end as int).take(end - 1) =~= s@.take(end - 1));
            assert(is_space(s@.take(end as int)[end - 1]));
        }
        end -= 1;
    }
    proof {
        lemma_trailing_spaces_bound(s@.take(end as int));
        if end > start {
            assert(s@.take(end as int)[end - 1] == s@[end - 1]);
            assert(trailing_spaces(s@.take(end as int)) == 0);
        } else {
            assert(end == start);
            assert(!is_space(s@.take(end as int)[end - 1])) by {
                assert(s@.take(end as int)[end - 1] == s@[start as int]);
            }
        }
        assert(trailing_spaces(s@) == n - end);
    }
    let mut r: Vec<char> = Vec::new();
    let mut i: usize = start;
    while i < end
        invariant
            start <= i <= end <= n,
            n == s@.len(),
            r@ == s@.subrange(start as int, i as int),
        decreases end - i,
    {
        r.push(s[i]);
        proof {
            assert(r@ =~= s@.subrange(start as int, i + 1));
        }
        i += 1;
    }
    proof {
        assert(r@ =~= trim_spec(s@));
    }
    r
}

/// `line` with every carriage return removed, then trimmed: how each raw
/// process-output line is normalized before it is logged or forwarded.
pub open spec fn strip_cr(s: Seq<char>) -> Seq<char> {
    s.filter(|c: char| c != '\r')
}

pub open spec fn normalize_log_line_spec(s: Seq<char>) -> Seq<char> {
    trim_spec(strip_cr(s))
}

/// Normalizes one raw output line: strips carriage returns and trims it.
pub fn normalize_log_line(line: &str) -> (r: String)
    ensures
        r@ == normalize_log_line_spec(line@),
{
    let chars = string_to_chars(line);
    let mut kept: Vec<char> = Vec::new();
    let mut i: usize = 0;
    while i < chars.len()
        invariant
            i <= chars@.len(),
            kept@ == chars@.take(i as int).filter(|c: char| c != '\r'),
        decreases chars@.len() - i,
    {
        proof {
            reveal_with_fuel(Seq::filter, 2);
            assert(chars@.take(i + 1).drop_last() =~= chars@.take(i as int));
            assert(chars@.take(i + 1).last() == chars@[i as int]);
        }
        let c = chars[i];
        if c != '\r' {
            kept.push(c);
        }
        i += 1;
    }
    proof {
        assert(chars@.take(chars@.len() as int) =~= chars@);
    }
    let trimmed = trim_chars(&kept);
    chars_to_string(&trimmed)
}

} // verus!
