//! Cleaning of the transported text down to its base64 symbols.

use vstd::prelude::*;
use vstd::slice::slice_subrange;
use crate::chars::{base64_symbol, is_base64_symbol, quote_mark, white_space};
use crate::strings::chars_of;
use crate::text::{
    find, find_in, lemma_filter_all, lemma_filter_none, lemma_filter_twice, lemma_find_from,
    lemma_find_is, lemma_strip_is_subrange, lemma_strip_then_filter, occurs_at, strippable, trim,
    trimmed, unwrap_quotes, unwrapped,
};

verus! {

/// The text that ends a data-URI prefix.
pub open spec fn marker() -> Seq<char> {
    seq!['b', 'a', 's', 'e', '6', '4', ',']
}

/// `s` from behind the first marker on, or all of `s` where it has none.
pub open spec fn after_marker(s: Seq<char>) -> Seq<char> {
    match find(s, marker()) {
        Some(i) => s.skip(i + marker().len()),
        None => s,
    }
}

/// The test that keeps a character of the cleaned text.
pub open spec fn symbols() -> spec_fn(char) -> bool {
    |c: char| base64_symbol(c)
}

/// The cleaned text: `input` trimmed, cut behind the marker, freed of the
/// quotes and white space around it, and reduced to its base64 symbols.
pub open spec fn sanitized(input: Seq<char>) -> Seq<char> {
    unwrapped(after_marker(trimmed(input))).filter(symbols())
}

/// Cuts `s` behind its first marker, if it has one.
pub fn strip_prefix(s: &[char]) -> (r: &[char])
    ensures
        r@ == after_marker(s@),
{
    broadcast use vstd::array::group_array_axioms;

    let needle: [char; 7] = ['b', 'a', 's', 'e', '6', '4', ','];
    let needle = needle.as_slice();
    assert(needle@ =~= marker());
    match find_in(s, needle) {
        Some(i) => {
            proof {
                lemma_find_from(s@, marker(), 0);
                lemma_marker_chars(s@, i as int);
                assert(i + 7 <= s.len());
            }
            slice_subrange(s, i + 7, s.len())
        },
        None => s,
    }
}

/// The base64 symbols of `s`, in order.
pub fn keep_symbols(s: &[char]) -> (r: String)
    ensures
        r@ == s@.filter(symbols()),
{
    let mut r = String::new();
    let mut i: usize = 0;
    proof {
        reveal(Seq::filter);
    }
    while i < s.len()
        invariant
            i <= s.len(),
            r@ == s@.take(i as int).filter(symbols()),
        decreases s.len() - i,
    {
        let c = s[i];
        proof {
            let next = s@.take(i + 1);
            assert(next =~= s@.take(i as int).push(c));
            s@.take(i as int).lemma_filter_push(c, symbols());
        }
        if is_base64_symbol(c) {
            r.push(c);
        }
        i += 1;
    }
    assert(s@.take(s@.len() as int) =~= s@);
    r
}

/// Cleans `input` down to the base64 symbols of its payload.
pub fn sanitize(input: &str) -> (cleaned: String)
    ensures
        cleaned@ == sanitized(input@),
{
    let chars = chars_of(input);
    let body = strip_prefix(trim(chars.as_slice()));
    keep_symbols(unwrap_quotes(body))
}

/// Where the marker stands in `s` at `i`, the seven characters from `i`
/// on are those of the marker.
proof fn lemma_marker_chars(s: Seq<char>, i: int)
    requires
        occurs_at(s, marker(), i),
    ensures
        s[i] == 'b',
        s[i + 6] == ',',
        i + 7 <= s.len(),
{
    let part = s.subrange(i, i + marker().len());
    assert(part[0] == s[i]);
    assert(part[6] == s[i + 6]);
}

/// Trimming the input before the cut changes nothing in the symbols that
/// are left behind the marker.
proof fn lemma_cut_of_trimmed(s: Seq<char>)
    ensures
        after_marker(trimmed(s)).filter(symbols()) == after_marker(s).filter(symbols()),
{
    let p = strippable(false);
    let m = marker();
    let (lo, hi) = lemma_strip_is_subrange(s, p);
    let t = trimmed(s);
    assert(m.len() == 7);
    assert forall|j: int| occurs_at(t, m, j) implies occurs_at(s, m, lo + j) by {
        assert(t.subrange(j, j + 7) =~= s.subrange(lo + j, lo + j + 7));
    }
    lemma_find_from(s, m, 0);
    lemma_find_from(t, m, 0);
    match find(s, m) {
        None => {
            assert(find(t, m) is None) by {
                if let Some(j) = find(t, m) {
                    assert(occurs_at(s, m, lo + j));
                }
            }
            assert forall|c: char| #[trigger] p(c) implies !symbols()(c) by {}
            lemma_strip_then_filter(s, p, symbols());
        },
        Some(k) => {
            lemma_marker_chars(s, k);
            assert(lo <= k) by {
                if k < lo {
                    assert(p(s[k]));
                }
            }
            assert(k + 7 <= hi) by {
                if hi < k + 7 {
                    assert(p(s[k + 6]));
                }
            }
            assert(occurs_at(t, m, k - lo)) by {
                assert(t.subrange(k - lo, k - lo + 7) =~= s.subrange(k, k + 7));
            }
            assert forall|j: int| 0 <= j < k - lo implies !occurs_at(t, m, j) by {
                if occurs_at(t, m, j) {
                    assert(occurs_at(s, m, lo + j));
                }
            }
            lemma_find_is(t, m, k - lo);
            let kept = s.subrange(k + 7, hi);
            let tail = s.skip(hi);
            assert(after_marker(t) =~= kept);
            assert(after_marker(s) =~= kept + tail);
            lemma_filter_none(tail, symbols());
            Seq::filter_distributes_over_add(kept, tail, symbols());
            assert(after_marker(s).filter(symbols()) =~= kept.filter(symbols()));
        },
    }
}

/// The cleaned text is made of the base64 symbols that stand behind the
/// first marker of the input, or of all its base64 symbols where it has no
/// marker: trimming and unquoting take nothing from them.
pub proof fn lemma_sanitized_is_symbols_behind_marker(input: Seq<char>)
    ensures
        sanitized(input) == after_marker(input).filter(symbols()),
{
    let p = strippable(true);
    assert forall|c: char| #[trigger] p(c) implies !symbols()(c) by {}
    lemma_strip_then_filter(after_marker(trimmed(input)), p, symbols());
    lemma_cut_of_trimmed(input);
}

/// Keeping the base64 alphabet and white space, then dropping the white
/// space, then dropping quotes, keeps exactly the base64 symbols.
pub proof fn lemma_filter_in_steps(s: Seq<char>)
    ensures
        s.filter(|c: char| base64_symbol(c) || white_space(c)).filter(
            |c: char| !white_space(c),
        ).filter(|c: char| !quote_mark(c)) == s.filter(symbols()),
{
    let keep = |c: char| base64_symbol(c) || white_space(c);
    let solid = |c: char| !white_space(c);
    let bare = |c: char| !quote_mark(c);
    lemma_filter_twice(s, keep, solid, symbols());
    lemma_filter_twice(s, symbols(), bare, symbols());
}

/// Every character of the cleaned text is a base64 symbol.
pub proof fn lemma_sanitized_holds_symbols(input: Seq<char>)
    ensures
        forall|i: int| 0 <= i < sanitized(input).len() ==> base64_symbol(#[trigger] sanitized(input)[i]),
{
    let part = unwrapped(after_marker(trimmed(input)));
    assert forall|i: int| 0 <= i < sanitized(input).len() implies base64_symbol(
        #[trigger] sanitized(input)[i],
    ) by {
        part.lemma_filter_pred(symbols(), i);
    }
}

/// A text made of base64 symbols alone is its own cleaned text.
pub proof fn lemma_symbols_stay(text: Seq<char>)
    requires
        forall|i: int| 0 <= i < text.len() ==> base64_symbol(#[trigger] text[i]),
    ensures
        sanitized(text) == text,
{
    lemma_sanitized_is_symbols_behind_marker(text);
    lemma_find_from(text, marker(), 0);
    if let Some(k) = find(text, marker()) {
        lemma_marker_chars(text, k);
        assert(base64_symbol(text[k + 6]));
    }
    lemma_filter_all(text, symbols());
}

/// Cleaning is idempotent: the cleaned text holds no marker, so cleaning it
/// once more changes nothing.
pub proof fn lemma_sanitize_idempotent(input: Seq<char>)
    ensures
        find(sanitized(input), marker()) is None,
        sanitized(sanitized(input)) == sanitized(input),
{
    let once = sanitized(input);
    lemma_sanitized_holds_symbols(input);
    lemma_symbols_stay(once);
    lemma_find_from(once, marker(), 0);
    if let Some(k) = find(once, marker()) {
        lemma_marker_chars(once, k);
        assert(base64_symbol(once[k + 6]));
    }
}

/// An input of quotes and white space alone, the empty one among them,
/// leaves nothing after cleaning.
pub proof fn lemma_blank_input_is_empty(input: Seq<char>)
    requires
        forall|i: int| 0 <= i < input.len() ==> quote_mark(#[trigger] input[i]) || white_space(input[i]),
    ensures
        sanitized(input) == Seq::<char>::empty(),
{
    lemma_sanitized_is_symbols_behind_marker(input);
    lemma_find_from(input, marker(), 0);
    if let Some(k) = find(input, marker()) {
        lemma_marker_chars(input, k);
    }
    lemma_filter_none(input, symbols());
}

/// An input made of a lead, a scheme, the marker, a body and a trail is
/// cleaned to its body, where lead and trail are quotes and white space,
/// the scheme holds no `b`, and the body is made of base64 symbols.
pub proof fn lemma_wrapped_body(
    lead: Seq<char>,
    scheme: Seq<char>,
    body: Seq<char>,
    trail: Seq<char>,
)
    requires
        forall|i: int| 0 <= i < lead.len() ==> quote_mark(#[trigger] lead[i]) || white_space(lead[i]),
        forall|i: int| 0 <= i < trail.len() ==> quote_mark(#[trigger] trail[i]) || white_space(trail[i]),
        forall|i: int| 0 <= i < scheme.len() ==> #[trigger] scheme[i] != 'b',
        forall|i: int| 0 <= i < body.len() ==> base64_symbol(#[trigger] body[i]),
    ensures
        sanitized(lead + scheme + marker() + body + trail) == body,
{
    let input = lead + scheme + marker() + body + trail;
    let k = (lead.len() + scheme.len()) as int;
    lemma_sanitized_is_symbols_behind_marker(input);
    assert(marker().len() == 7);
    assert(occurs_at(input, marker(), k)) by {
        assert(input.subrange(k, k + 7) =~= marker());
    }
    assert forall|j: int| 0 <= j < k implies !occurs_at(input, marker(), j) by {
        if occurs_at(input, marker(), j) {
            lemma_marker_chars(input, j);
            if j < lead.len() {
                assert(input[j] == lead[j]);
            } else {
                assert(input[j] == scheme[j - lead.len()]);
            }
        }
    }
    lemma_find_is(input, marker(), k);
    assert(after_marker(input) =~= body + trail);
    lemma_filter_all(body, symbols());
    lemma_filter_none(trail, symbols());
    Seq::filter_distributes_over_add(body, trail, symbols());
    assert(body + Seq::<char>::empty() =~= body);
}

} // verus!
