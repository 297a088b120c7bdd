//! The tag-span splitter: separates text inside `<think>` ... `</think>` spans
//! (reasoning) from visible content, with the "inside a span" flag carried
//! across calls.

use vstd::prelude::*;
use crate::frames::{first_match, occurs_at, lemma_first_match_bounds, lemma_first_match_skip, lemma_first_match_extend};
use crate::text::{chars_of, string_of, find_chars, push_range};

verus! {

/// The marker that opens a reasoning span.
pub open spec fn open_marker() -> Seq<char> {
    seq!['<', 't', 'h', 'i', 'n', 'k', '>']
}

/// The marker that closes a reasoning span.
pub open spec fn close_marker() -> Seq<char> {
    seq!['<', '/', 't', 'h', 'i', 'n', 'k', '>']
}

/// Splits `t`, scanned from a state that is inside a span when `inside` holds,
/// into (visible content, reasoning text, whether the scan ends inside a span).
/// Markers are matched exactly, first occurrence first, and are dropped.
pub open spec fn split_spec(t: Seq<char>, inside: bool) -> (Seq<char>, Seq<char>, bool)
    decreases t.len(),
{
    if t.len() == 0 {
        (Seq::empty(), Seq::empty(), inside)
    } else if inside {
        match first_match(t, close_marker(), 0) {
            Some(k) => if 0 <= k && k + 8 <= t.len() {
                let r = split_spec(t.skip(k + 8), false);
                (r.0, t.take(k) + r.1, r.2)
            } else {
                (Seq::empty(), t, true)
            },
            None => (Seq::empty(), t, true),
        }
    } else {
        match first_match(t, open_marker(), 0) {
            Some(k) => if 0 <= k && k + 7 <= t.len() {
                let r = split_spec(t.skip(k + 7), true);
                (t.take(k) + r.0, r.1, r.2)
            } else {
                (t, Seq::empty(), false)
            },
            None => (t, Seq::empty(), false),
        }
    }
}

fn open_marker_exec() -> (r: Vec<char>)
    ensures
        r@ == open_marker(),
{
    let r = vec!['<', 't', 'h', 'i', 'n', 'k', '>'];
    assert(r@ =~= open_marker());
    r
}

fn close_marker_exec() -> (r: Vec<char>)
    ensures
        r@ == close_marker(),
{
    let r = vec!['<', '/', 't', 'h', 'i', 'n', 'k', '>'];
    assert(r@ =~= close_marker());
    r
}

/// Separates `<think>...</think>` spans of `raw` from the visible content.
/// `in_thinking` says whether the scan starts inside a span, and is left
/// saying whether it ends inside one. The reasoning part is `None` exactly
/// when no reasoning text was found.
pub fn split_thinking(raw: &str, in_thinking: &mut bool) -> (r: (String, Option<String>))
    ensures
        r.0@ == split_spec(raw@, *old(in_thinking)).0,
        match r.1 {
            Some(t) => t@ == split_spec(raw@, *old(in_thinking)).1 && t@.len() > 0,
            None => split_spec(raw@, *old(in_thinking)).1.len() == 0,
        },
        *final(in_thinking) == split_spec(raw@, *old(in_thinking)).2,
{
    let chars = chars_of(raw);
    let ghost whole = chars@;
    let ghost inside0 = *in_thinking;
    let open = open_marker_exec();
    let close = close_marker_exec();
    let mut content: Vec<char> = Vec::new();
    let mut thinking: Vec<char> = Vec::new();
    let mut pos: usize = 0;
    let n = chars.len();
    assert(whole.skip(0) =~= whole);
    loop
        invariant
            chars@ == whole,
            n == whole.len(),
            open@ == open_marker(),
            close@ == close_marker(),
            pos <= n,
            ({
                let rest = split_spec(whole.skip(pos as int), *in_thinking);
                let all = split_spec(whole, inside0);
                content@ + rest.0 == all.0 && thinking@ + rest.1 == all.1 && rest.2 == all.2
            }),
        ensures
            pos == n,
        decreases n - pos,
    {
        if pos == n {
            break;
        }
        let ghost rest = whole.skip(pos as int);
        let ghost scan_start = pos as int;
        let ghost before_c = content@;
        let ghost before_t = thinking@;
        if *in_thinking {
            let found = find_chars(&chars, &close, pos);
            proof {
                lemma_first_match_skip(whole, close_marker(), pos as int, 0);
                lemma_first_match_bounds(whole, close_marker(), pos as int);
            }
            match found {
                Some(k) => {
                    assert(occurs_at(whole, close_marker(), k as int));
                    assert(rest.take(k - pos) =~= whole.subrange(pos as int, k as int));
                    assert(rest.skip(k - pos + 8) =~= whole.skip(k + 8));
                    push_range(&mut thinking, &chars, pos, k);
                    *in_thinking = false;
                    pos = k + 8;
                    let ghost r = split_spec(whole.skip(pos as int), false);
                    assert(before_t + (whole.subrange(scan_start, k as int) + r.1)
                        =~= (before_t + whole.subrange(scan_start, k as int)) + r.1);
                },
                None => {
                    assert(rest =~= whole.subrange(pos as int, n as int));
                    push_range(&mut thinking, &chars, pos, n);
                    pos = n;
                    assert(whole.skip(n as int) =~= Seq::<char>::empty());
                    assert(content@ + Seq::<char>::empty() =~= content@);
                    assert(thinking@ + Seq::<char>::empty() =~= thinking@);
                },
            }
        } else {
            let found = find_chars(&chars, &open, pos);
            proof {
                lemma_first_match_skip(whole, open_marker(), pos as int, 0);
                lemma_first_match_bounds(whole, open_marker(), pos as int);
            }
            match found {
                Some(k) => {
                    assert(occurs_at(whole, open_marker(), k as int));
                    assert(rest.take(k - pos) =~= whole.subrange(pos as int, k as int));
                    assert(rest.skip(k - pos + 7) =~= whole.skip(k + 7));
                    push_range(&mut content, &chars, pos, k);
                    *in_thinking = true;
                    pos = k + 7;
                    let ghost r = split_spec(whole.skip(pos as int), true);
                    assert(before_c + (whole.subrange(scan_start, k as int) + r.0)
                        =~= (before_c + whole.subrange(scan_start, k as int)) + r.0);
                },
                None => {
                    assert(rest =~= whole.subrange(pos as int, n as int));
                    push_range(&mut content, &chars, pos, n);
                    pos = n;
                    assert(whole.skip(n as int) =~= Seq::<char>::empty());
                    assert(content@ + Seq::<char>::empty() =~= content@);
                    assert(thinking@ + Seq::<char>::empty() =~= thinking@);
                },
            }
        }
    }
    assert(whole.skip(n as int) =~= Seq::<char>::empty());
    assert(content@ + Seq::<char>::empty() =~= content@);
    assert(thinking@ + Seq::<char>::empty() =~= thinking@);
    let c = string_of(content.as_slice());
    if thinking.len() == 0 {
        (c, None)
    } else {
        (c, Some(string_of(thinking.as_slice())))
    }
}

/// Some occurrence of `m` in `a + b` begins in `a` and ends in `b`.
pub open spec fn straddles(a: Seq<char>, b: Seq<char>, m: Seq<char>) -> bool {
    exists|k: int| a.len() - m.len() < k < a.len() && #[trigger] occurs_at(a + b, m, k)
}

proof fn lemma_first_match_gap(s: Seq<char>, m: Seq<char>, i: int, p: int)
    requires
        0 <= i <= p,
        forall|k: int| i <= k < p ==> !occurs_at(s, m, k),
    ensures
        first_match(s, m, i) == first_match(s, m, p),
    decreases p - i,
{
    if i < p && i + m.len() <= s.len() {
        lemma_first_match_gap(s, m, i + 1, p);
    }
}

/// With no occurrence in `a` and none across the boundary, the first
/// occurrence in `a + b` is the first occurrence in `b`, shifted.
proof fn lemma_first_match_past(a: Seq<char>, b: Seq<char>, m: Seq<char>)
    requires
        m.len() > 0,
        first_match(a, m, 0) is None,
        !straddles(a, b, m),
    ensures
        first_match(a + b, m, 0) == match first_match(b, m, 0) {
            Some(j) => Some(j + a.len()),
            None => None::<int>,
        },
{
    lemma_first_match_bounds(a, m, 0);
    assert forall|k: int| 0 <= k < a.len() implies !occurs_at(a + b, m, k) by {
        if k + m.len() <= a.len() {
            assert((a + b).subrange(k, k + m.len()) =~= a.subrange(k, k + m.len()));
            assert(!occurs_at(a, m, k));
        } else {
            assert(a.len() - m.len() < k < a.len());
        }
    }
    lemma_first_match_gap(a + b, m, 0, a.len() as int);
    lemma_first_match_skip(a + b, m, a.len() as int, 0);
    assert((a + b).skip(a.len() as int) =~= b);
}

proof fn lemma_straddle_skip(a: Seq<char>, b: Seq<char>, m: Seq<char>, n: int)
    requires
        0 <= n <= a.len(),
        !straddles(a, b, m),
    ensures
        !straddles(a.skip(n), b, m),
{
    let a2 = a.skip(n);
    if straddles(a2, b, m) {
        let j = choose|j: int| a2.len() - m.len() < j < a2.len() && #[trigger] occurs_at(a2 + b, m, j);
        assert((a2 + b).subrange(j, j + m.len()) =~= (a + b).subrange(j + n, j + n + m.len()));
        assert(occurs_at(a + b, m, j + n));
    }
}

/// Splitting is an online form of one offline split: splitting `a` and then
/// `b`, with the span state carried from one call to the next, gives what
/// splitting `a + b` at once gives, provided no marker straddles the boundary.
pub proof fn lemma_split_concat(a: Seq<char>, b: Seq<char>, inside: bool)
    requires
        !straddles(a, b, open_marker()),
        !straddles(a, b, close_marker()),
    ensures
        split_spec(a + b, inside) == (
            split_spec(a, inside).0 + split_spec(b, split_spec(a, inside).2).0,
            split_spec(a, inside).1 + split_spec(b, split_spec(a, inside).2).1,
            split_spec(b, split_spec(a, inside).2).2,
        ),
    decreases a.len(),
{
    let x = split_spec(a, inside);
    if a.len() == 0 {
        assert(a + b =~= b);
        assert(Seq::<char>::empty() + split_spec(b, inside).0 =~= split_spec(b, inside).0);
        assert(Seq::<char>::empty() + split_spec(b, inside).1 =~= split_spec(b, inside).1);
        return;
    }
    let m = if inside {
        close_marker()
    } else {
        open_marker()
    };
    let n = m.len();
    lemma_first_match_bounds(a, m, 0);
    match first_match(a, m, 0) {
        Some(k) => {
            lemma_first_match_extend(a, b, m, 0);
            let a2 = a.skip(k + n);
            assert((a + b).skip(k + n) =~= a2 + b);
            assert((a + b).take(k) =~= a.take(k));
            lemma_straddle_skip(a, b, open_marker(), k + n);
            lemma_straddle_skip(a, b, close_marker(), k + n);
            lemma_split_concat(a2, b, !inside);
            let x2 = split_spec(a2, !inside);
            let y = split_spec(b, x2.2);
            if inside {
                assert(a.take(k) + (x2.1 + y.1) =~= (a.take(k) + x2.1) + y.1);
            } else {
                assert(a.take(k) + (x2.0 + y.0) =~= (a.take(k) + x2.0) + y.0);
            }
        },
        None => {
            lemma_first_match_past(a, b, m);
            let y = split_spec(b, inside);
            if b.len() == 0 {
                assert(a + b =~= a);
                assert(x.0 + y.0 =~= x.0);
                assert(x.1 + y.1 =~= x.1);
            } else {
                lemma_first_match_bounds(b, m, 0);
                match first_match(b, m, 0) {
                    Some(j) => {
                        let k = j + a.len();
                        assert((a + b).take(k) =~= a + b.take(j));
                        assert((a + b).skip(k + n) =~= b.skip(j + n));
                        let r = split_spec(b.skip(j + n), !inside);
                        if inside {
                            assert(Seq::<char>::empty() + r.0 =~= r.0);
                            assert(a + (b.take(j) + r.1) =~= (a + b.take(j)) + r.1);
                        } else {
                            assert(Seq::<char>::empty() + r.1 =~= r.1);
                            assert(a + (b.take(j) + r.0) =~= (a + b.take(j)) + r.0);
                        }
                    },
                    None => {
                        assert(Seq::<char>::empty() + Seq::<char>::empty() =~= Seq::<char>::empty());
                    },
                }
            }
        },
    }
}

} // verus!
