//! Searching and trimming of character sequences.

use vstd::prelude::*;
use vstd::slice::slice_subrange;
use crate::chars::{is_quote, is_whitespace, quote_mark, white_space};

verus! {

/// How many elements at the front of `s` satisfy `p` without a gap.
pub open spec fn leading(s: Seq<char>, p: spec_fn(char) -> bool) -> nat
    decreases s.len(),
{
    if s.len() > 0 && p(s[0]) {
        1 + leading(s.drop_first(), p)
    } else {
        0
    }
}

/// How many elements at the back of `s` satisfy `p` without a gap.
pub open spec fn trailing(s: Seq<char>, p: spec_fn(char) -> bool) -> nat
    decreases s.len(),
{
    if s.len() > 0 && p(s.last()) {
        1 + trailing(s.drop_last(), p)
    } else {
        0
    }
}

/// `s` without the elements at its front and at its back that satisfy `p`.
pub open spec fn strip(s: Seq<char>, p: spec_fn(char) -> bool) -> Seq<char> {
    let rest = s.skip(leading(s, p) as int);
    rest.take(rest.len() - trailing(rest, p))
}

/// The characters that stripping removes: white space, and quotes if `quotes`.
pub open spec fn strippable(quotes: bool) -> spec_fn(char) -> bool {
    |c: char| white_space(c) || (quotes && quote_mark(c))
}

/// `s` without white space at either end.
pub open spec fn trimmed(s: Seq<char>) -> Seq<char> {
    strip(s, strippable(false))
}

/// `s` without white space and quotes at either end.
pub open spec fn unwrapped(s: Seq<char>) -> Seq<char> {
    strip(s, strippable(true))
}

/// Whether `needle` stands in `hay` at index `i`.
pub open spec fn occurs_at(hay: Seq<char>, needle: Seq<char>, i: int) -> bool {
    0 <= i && i + needle.len() <= hay.len() && hay.subrange(i, i + needle.len()) == needle
}

/// The first index at or after `from` at which `needle` stands in `hay`.
pub open spec fn find_from(hay: Seq<char>, needle: Seq<char>, from: int) -> Option<int>
    decreases hay.len() - from + 1,
{
    if 0 <= from && from + needle.len() <= hay.len() {
        if occurs_at(hay, needle, from) {
            Some(from)
        } else {
            find_from(hay, needle, from + 1)
        }
    } else {
        None
    }
}

/// The first index at which `needle` stands in `hay`.
pub open spec fn find(hay: Seq<char>, needle: Seq<char>) -> Option<int> {
    find_from(hay, needle, 0)
}

/// Whether `needle` stands somewhere in `hay`.
pub open spec fn contains(hay: Seq<char>, needle: Seq<char>) -> bool {
    find(hay, needle) is Some
}

/// Whether `hay` begins with `needle`.
pub open spec fn starts_with(hay: Seq<char>, needle: Seq<char>) -> bool {
    occurs_at(hay, needle, 0)
}

/// The search finds the least index at which the needle stands, and fails
/// only where it stands nowhere at or after `from`.
pub proof fn lemma_find_from(hay: Seq<char>, needle: Seq<char>, from: int)
    requires
        0 <= from,
    ensures
        match find_from(hay, needle, from) {
            Some(i) => from <= i && occurs_at(hay, needle, i) && forall|j: int|
                from <= j < i ==> !occurs_at(hay, needle, j),
            None => forall|j: int| from <= j ==> !occurs_at(hay, needle, j),
        },
    decreases hay.len() - from + 1,
{
    if from + needle.len() <= hay.len() && !occurs_at(hay, needle, from) {
        lemma_find_from(hay, needle, from + 1);
    }
}

/// A run of `k` elements that satisfy `p`, ended by one that does not or by
/// the end of `s`, is the leading run of `s`.
pub proof fn lemma_leading_is(s: Seq<char>, p: spec_fn(char) -> bool, k: int)
    requires
        0 <= k <= s.len(),
        forall|i: int| 0 <= i < k ==> p(#[trigger] s[i]),
        k < s.len() ==> !p(s[k]),
    ensures
        leading(s, p) == k,
    decreases k,
{
    if k > 0 {
        let t = s.drop_first();
        assert forall|i: int| 0 <= i < k - 1 implies p(#[trigger] t[i]) by {
            assert(t[i] == s[i + 1]);
        }
        lemma_leading_is(t, p, k - 1);
    }
}

/// A run of `k` elements at the back that satisfy `p`, begun after one that
/// does not or at the start of `s`, is the trailing run of `s`.
pub proof fn lemma_trailing_is(s: Seq<char>, p: spec_fn(char) -> bool, k: int)
    requires
        0 <= k <= s.len(),
        forall|i: int| s.len() - k <= i < s.len() ==> p(#[trigger] s[i]),
        k < s.len() ==> !p(s[s.len() - k - 1]),
    ensures
        trailing(s, p) == k,
    decreases k,
{
    if k > 0 {
        let t = s.drop_last();
        assert forall|i: int| t.len() - (k - 1) <= i < t.len() implies p(#[trigger] t[i]) by {
            assert(t[i] == s[i]);
        }
        lemma_trailing_is(t, p, k - 1);
    }
}

/// An index at which the needle stands, with none before it, is what the
/// search finds.
pub proof fn lemma_find_is(hay: Seq<char>, needle: Seq<char>, i: int)
    requires
        occurs_at(hay, needle, i),
        forall|j: int| 0 <= j < i ==> !occurs_at(hay, needle, j),
    ensures
        find(hay, needle) == Some(i),
{
    lemma_find_from(hay, needle, 0);
}

/// The leading run lies within `s`, holds only elements that satisfy `p`,
/// and ends before one that does not.
pub proof fn lemma_leading_run(s: Seq<char>, p: spec_fn(char) -> bool)
    ensures
        leading(s, p) <= s.len(),
        forall|i: int| 0 <= i < leading(s, p) ==> p(#[trigger] s[i]),
        leading(s, p) < s.len() ==> !p(s[leading(s, p) as int]),
    decreases s.len(),
{
    if s.len() > 0 && p(s[0]) {
        let t = s.drop_first();
        lemma_leading_run(t, p);
        assert forall|i: int| 0 <= i < leading(s, p) implies p(#[trigger] s[i]) by {
            if i > 0 {
                assert(s[i] == t[i - 1]);
            }
        }
        if leading(s, p) < s.len() {
            assert(s[leading(s, p) as int] == t[leading(t, p) as int]);
        }
    }
}

/// The trailing run lies within `s`, holds only elements that satisfy `p`,
/// and begins behind one that does not.
pub proof fn lemma_trailing_run(s: Seq<char>, p: spec_fn(char) -> bool)
    ensures
        trailing(s, p) <= s.len(),
        forall|i: int| s.len() - trailing(s, p) <= i < s.len() ==> p(#[trigger] s[i]),
        trailing(s, p) < s.len() ==> !p(s[s.len() - trailing(s, p) - 1]),
    decreases s.len(),
{
    if s.len() > 0 && p(s.last()) {
        let t = s.drop_last();
        lemma_trailing_run(t, p);
        assert forall|i: int| s.len() - trailing(s, p) <= i < s.len() implies p(
            #[trigger] s[i],
        ) by {
            if i < s.len() - 1 {
                assert(s[i] == t[i]);
            }
        }
        if trailing(s, p) < s.len() {
            assert(s[s.len() - trailing(s, p) - 1] == t[t.len() - trailing(t, p) - 1]);
        }
    }
}

/// Stripping cuts `s` down to the part between two indices; what lies
/// before the first and from the second on satisfies `p`.
pub proof fn lemma_strip_is_subrange(s: Seq<char>, p: spec_fn(char) -> bool) -> (bounds: (int, int))
    ensures
        0 <= bounds.0 <= bounds.1 <= s.len(),
        strip(s, p) == s.subrange(bounds.0, bounds.1),
        forall|i: int| 0 <= i < bounds.0 ==> p(#[trigger] s[i]),
        forall|i: int| bounds.1 <= i < s.len() ==> p(#[trigger] s[i]),
{
    lemma_leading_run(s, p);
    let lo = leading(s, p) as int;
    let rest = s.skip(lo);
    lemma_trailing_run(rest, p);
    let hi = s.len() - trailing(rest, p);
    assert(strip(s, p) =~= s.subrange(lo, hi));
    assert forall|i: int| hi <= i < s.len() implies p(#[trigger] s[i]) by {
        assert(s[i] == rest[i - lo]);
    }
    (lo, hi)
}

/// A sequence of which no element passes the test `q` is filtered away.
pub proof fn lemma_filter_none(s: Seq<char>, q: spec_fn(char) -> bool)
    requires
        forall|i: int| 0 <= i < s.len() ==> !q(#[trigger] s[i]),
    ensures
        s.filter(q) == Seq::<char>::empty(),
{
    s.lemma_all_neg_filter_empty(q);
    assert(s.filter(q) =~= Seq::<char>::empty());
}

/// A sequence of which every element passes the test `q` is kept whole.
pub proof fn lemma_filter_all(s: Seq<char>, q: spec_fn(char) -> bool)
    requires
        forall|i: int| 0 <= i < s.len() ==> q(#[trigger] s[i]),
    ensures
        s.filter(q) == s,
    decreases s.len(),
{
    reveal(Seq::filter);
    if s.len() > 0 {
        let t = s.drop_last();
        assert forall|i: int| 0 <= i < t.len() implies q(#[trigger] t[i]) by {
            assert(t[i] == s[i]);
        }
        lemma_filter_all(t, q);
        assert(t.push(s.last()) =~= s);
    }
}

/// Filtering by `p` and then by `q` is filtering by both at once.
pub proof fn lemma_filter_twice(
    s: Seq<char>,
    p: spec_fn(char) -> bool,
    q: spec_fn(char) -> bool,
    both: spec_fn(char) -> bool,
)
    requires
        forall|c: char| #[trigger] both(c) == (p(c) && q(c)),
    ensures
        s.filter(p).filter(q) == s.filter(both),
    decreases s.len(),
{
    reveal(Seq::filter);
    if s.len() > 0 {
        let t = s.drop_last();
        let x = s.last();
        lemma_filter_twice(t, p, q, both);
        if p(x) {
            t.filter(p).lemma_filter_push(x, q);
        }
    }
}

/// Stripping by `p` takes nothing from what a filter by `q` keeps, where no
/// character satisfies both.
pub proof fn lemma_strip_then_filter(s: Seq<char>, p: spec_fn(char) -> bool, q: spec_fn(char) -> bool)
    requires
        forall|c: char| #[trigger] p(c) ==> !q(c),
    ensures
        strip(s, p).filter(q) == s.filter(q),
{
    let (lo, hi) = lemma_strip_is_subrange(s, p);
    let head = s.take(lo);
    let mid = s.subrange(lo, hi);
    let tail = s.skip(hi);
    lemma_filter_none(head, q);
    lemma_filter_none(tail, q);
    assert(s =~= head + mid + tail);
    Seq::filter_distributes_over_add(head + mid, tail, q);
    Seq::filter_distributes_over_add(head, mid, q);
    assert(s.filter(q) =~= mid.filter(q));
}

fn is_strippable(c: char, quotes: bool) -> (b: bool)
    ensures
        b == strippable(quotes)(c),
{
    is_whitespace(c) || (quotes && is_quote(c))
}

fn strip_slice(s: &[char], quotes: bool) -> (r: &[char])
    ensures
        r@ == strip(s@, strippable(quotes)),
{
    let ghost p = strippable(quotes);
    let mut lo: usize = 0;
    while lo < s.len() && is_strippable(s[lo], quotes)
        invariant
            lo <= s.len(),
            p == strippable(quotes),
            forall|i: int| 0 <= i < lo ==> p(#[trigger] s@[i]),
        decreases s.len() - lo,
    {
        lo += 1;
    }
    let mut hi: usize = s.len();
    while hi > lo && is_strippable(s[hi - 1], quotes)
        invariant
            lo <= hi <= s.len(),
            p == strippable(quotes),
            forall|i: int| hi <= i < s.len() ==> p(#[trigger] s@[i]),
        decreases hi,
    {
        hi -= 1;
    }
    proof {
        lemma_leading_is(s@, p, lo as int);
        let rest = s@.skip(lo as int);
        assert forall|i: int| rest.len() - (s.len() - hi) <= i < rest.len() implies p(
            #[trigger] rest[i],
        ) by {
            assert(rest[i] == s@[i + lo]);
        }
        if hi > lo {
            assert(rest[hi - lo - 1] == s@[hi - 1]);
        }
        lemma_trailing_is(rest, p, s.len() - hi);
        assert(rest.take(rest.len() - (s.len() - hi)) =~= s@.subrange(lo as int, hi as int));
    }
    slice_subrange(s, lo, hi)
}

/// Drops white space from both ends of `s`.
pub fn trim(s: &[char]) -> (r: &[char])
    ensures
        r@ == trimmed(s@),
{
    strip_slice(s, false)
}

/// Drops white space and quotes from both ends of `s`.
pub fn unwrap_quotes(s: &[char]) -> (r: &[char])
    ensures
        r@ == unwrapped(s@),
{
    strip_slice(s, true)
}

/// Whether `needle` stands in `hay` at index `i`.
pub fn matches_at(hay: &[char], needle: &[char], i: usize) -> (b: bool)
    ensures
        b == occurs_at(hay@, needle@, i as int),
{
    if needle.len() > hay.len() || i > hay.len() - needle.len() {
        return false;
    }
    let mut k: usize = 0;
    while k < needle.len()
        invariant
            k <= needle.len(),
            i + needle.len() <= hay.len(),
            forall|j: int| 0 <= j < k ==> hay@[i + j] == needle@[j],
        decreases needle.len() - k,
    {
        if hay[i + k] != needle[k] {
            proof {
                let part = hay@.subrange(i as int, i + needle.len());
                assert(part[k as int] == hay@[i + k]);
            }
            return false;
        }
        k += 1;
    }
    assert(hay@.subrange(i as int, i + needle.len()) =~= needle@);
    true
}

/// The first index at which `needle` stands in `hay`.
pub fn find_in(hay: &[char], needle: &[char]) -> (r: Option<usize>)
    ensures
        match r {
            Some(i) => find(hay@, needle@) == Some(i as int),
            None => find(hay@, needle@) is None,
        },
{
    if needle.len() > hay.len() {
        return None;
    }
    let last: usize = hay.len() - needle.len();
    let mut i: usize = 0;
    while i <= last
        invariant
            i <= last,
            last == hay.len() - needle.len(),
            find(hay@, needle@) == find_from(hay@, needle@, i as int),
        decreases last - i,
    {
        if matches_at(hay, needle, i) {
            return Some(i);
        }
        if i == last {
            assert(find_from(hay@, needle@, i + 1) is None);
            return None;
        }
        i += 1;
    }
    None
}

/// Whether `needle` stands somewhere in `hay`.
pub fn contains_seq(hay: &[char], needle: &[char]) -> (b: bool)
    ensures
        b == contains(hay@, needle@),
{
    find_in(hay, needle).is_some()
}

/// Whether `hay` begins with `needle`.
pub fn begins_with(hay: &[char], needle: &[char]) -> (b: bool)
    ensures
        b == starts_with(hay@, needle@),
{
    matches_at(hay, needle, 0)
}

} // verus!
