//! What holds of a rendered template: where the name of a variable can
//! nowhere lie over a written colour, neither within it nor across one of
//! its ends, no such name is left in the output.

use crate::template::{formatted, substituted, NamedColor};
use crate::text::{
    contains_text, first_occurrence, lemma_first_occurrence, none_between, occurs_at, replaced,
    replaced_from,
};
use vstd::prelude::*;

verus! {

/// `x`, laid so that it begins `d` places behind the start of `t` (before
/// it where `d` is negative), has the character of `t` in every place that
/// the two share.
pub open spec fn agree_at(x: Seq<char>, t: Seq<char>, d: int) -> bool {
    forall|k: int| 0 <= k < t.len() && 0 <= k - d < x.len() ==> #[trigger] t[k] == x[k - d]
}

/// `x` can nowhere lie over `t`: however `x` is laid so that the two share
/// a place, they differ in a place they share. So `x` does not occur in
/// `t`, `t` does not occur in `x`, and no end of `x` is the other end of
/// `t`: in no text does an occurrence of `x` touch an occurrence of `t`.
pub open spec fn never_meets(x: Seq<char>, t: Seq<char>) -> bool {
    forall|d: int| -x.len() < d < t.len() ==> !#[trigger] agree_at(x, t, d)
}

/// A text that occurs neither in `g` nor in `r`, and can nowhere lie over
/// `t`, does not occur in `g`, `t` and `r` in a row.
pub proof fn lemma_no_occurrence_across(g: Seq<char>, t: Seq<char>, r: Seq<char>, x: Seq<char>)
    requires
        x.len() > 0,
        t.len() > 0,
        never_meets(x, t),
        !contains_text(g, x),
        !contains_text(r, x),
    ensures
        !contains_text(g + t + r, x),
{
    let w = g + t + r;
    assert forall|q: int| !occurs_at(w, x, q) by {
        if occurs_at(w, x, q) {
            let win = w.subrange(q, q + x.len());
            if q + x.len() <= g.len() {
                assert(g.subrange(q, q + x.len()) =~= win);
                assert(occurs_at(g, x, q));
            } else if q >= g.len() + t.len() {
                let q2 = q - g.len() - t.len();
                assert(r.subrange(q2, q2 + x.len()) =~= win);
                assert(occurs_at(r, x, q2));
            } else {
                let d = q - g.len();
                assert(-x.len() < d < t.len());
                assert(agree_at(x, t, d)) by {
                    assert forall|k: int| 0 <= k < t.len() && 0 <= k - d < x.len() implies
                        #[trigger] t[k] == x[k - d] by {
                        assert(w[g.len() + k] == t[k]);
                        assert(win[k - d] == w[q + (k - d)]);
                    }
                }
            }
        }
    }
}

/// Where every occurrence of `x` in `s` is an occurrence of `from`, and
/// `to` is not empty and `x` can nowhere lie over it, what `s` becomes from
/// `i` on when `from` is replaced by `to` holds no `x`.
pub proof fn lemma_replaced_from_clean(
    s: Seq<char>,
    from: Seq<char>,
    to: Seq<char>,
    x: Seq<char>,
    i: int,
)
    requires
        0 <= i <= s.len(),
        from.len() > 0,
        to.len() > 0,
        x.len() > 0,
        never_meets(x, to),
        forall|q: int| occurs_at(s, x, q) ==> occurs_at(s, from, q),
    ensures
        !contains_text(replaced_from(s, from, to, i), x),
    decreases s.len() - i,
{
    let p = first_occurrence(s, from, i);
    lemma_first_occurrence(s, from, i);
    if p > s.len() {
        let tail = s.subrange(i, s.len() as int);
        assert forall|q: int| !occurs_at(tail, x, q) by {
            if occurs_at(tail, x, q) {
                assert(s.subrange(i + q, i + q + x.len()) =~= tail.subrange(q, q + x.len()));
                assert(occurs_at(s, x, i + q));
                assert(occurs_at(s, from, i + q));
                assert(none_between(s, from, i, p));
            }
        }
    } else {
        let gap = s.subrange(i, p);
        let rest = replaced_from(s, from, to, p + from.len());
        lemma_replaced_from_clean(s, from, to, x, p + from.len());
        assert forall|q: int| !occurs_at(gap, x, q) by {
            if occurs_at(gap, x, q) {
                assert(s.subrange(i + q, i + q + x.len()) =~= gap.subrange(q, q + x.len()));
                assert(occurs_at(s, x, i + q));
                assert(occurs_at(s, from, i + q));
                assert(none_between(s, from, i, p));
            }
        }
        lemma_no_occurrence_across(gap, to, rest, x);
    }
}

/// Where `to` is not empty and `from` can nowhere lie over it, what `s`
/// becomes when `from` is replaced by `to` holds no `from`.
pub proof fn lemma_replaced_is_clean(s: Seq<char>, from: Seq<char>, to: Seq<char>)
    requires
        from.len() > 0,
        to.len() > 0,
        never_meets(from, to),
    ensures
        !contains_text(replaced(s, from, to), from),
{
    lemma_replaced_from_clean(s, from, to, from, 0);
}

/// A text that does not occur in `s` and can nowhere lie over `to` does
/// not occur in what `s` becomes when `from` is replaced by `to`.
pub proof fn lemma_replaced_stays_clean(s: Seq<char>, from: Seq<char>, to: Seq<char>, x: Seq<char>)
    requires
        from.len() > 0,
        to.len() > 0,
        x.len() > 0,
        never_meets(x, to),
        !contains_text(s, x),
    ensures
        !contains_text(replaced(s, from, to), x),
{
    assert forall|q: int| occurs_at(s, x, q) implies occurs_at(s, from, q) by {
        assert(!occurs_at(s, x, q));
    }
    lemma_replaced_from_clean(s, from, to, x, 0);
}

/// Every name is at least one character, every colour as it is written is
/// at least one character, and no name can lie over a colour as it is
/// written: none occurs in one, and none can arise where a written colour
/// meets the text beside it.
pub open spec fn names_apart(colors: Seq<NamedColor>, format: Seq<char>) -> bool {
    &&& forall|k: int| 0 <= k < colors.len() ==> (#[trigger] colors[k]).name.len() > 0
    &&& forall|k: int| 0 <= k < colors.len() ==> formatted(format, #[trigger] colors[k]).len() > 0
    &&& forall|k: int, m: int|
        0 <= k < colors.len() && 0 <= m < colors.len() ==> never_meets(
            (#[trigger] colors[m]).name,
            formatted(format, #[trigger] colors[k]),
        )
}

/// Substitution totality: where no name of a variable can lie over a
/// colour as it is written, and names and written colours are not empty,
/// the body after substitution holds none of the names.
pub proof fn lemma_substituted_is_clean(
    body: Seq<char>,
    colors: Seq<NamedColor>,
    format: Seq<char>,
    n: int,
)
    requires
        names_apart(colors, format),
        0 <= n <= colors.len(),
    ensures
        forall|m: int|
            0 <= m < n ==> !contains_text(
                substituted(body, colors.subrange(0, n), format),
                (#[trigger] colors[m]).name,
            ),
    decreases n,
{
    if n > 0 {
        lemma_substituted_is_clean(body, colors, format, n - 1);
        let head = colors.subrange(0, n);
        assert(head.drop_last() =~= colors.subrange(0, n - 1));
        assert(head.last() == colors[n - 1]);
        let before = substituted(body, colors.subrange(0, n - 1), format);
        let from = colors[n - 1].name;
        let to = formatted(format, colors[n - 1]);
        assert(substituted(body, head, format) == replaced(before, from, to));
        assert forall|m: int| 0 <= m < n implies !contains_text(
            substituted(body, head, format),
            (#[trigger] colors[m]).name,
        ) by {
            assert(never_meets(colors[m].name, formatted(format, colors[n - 1])));
            if m == n - 1 {
                lemma_replaced_is_clean(before, from, to);
            } else {
                lemma_replaced_stays_clean(before, from, to, colors[m].name);
            }
        }
    }
}

/// Substitution totality for all colours of a template at once.
pub proof fn lemma_rendered_is_clean(body: Seq<char>, colors: Seq<NamedColor>, format: Seq<char>)
    requires
        names_apart(colors, format),
    ensures
        forall|m: int|
            0 <= m < colors.len() ==> !contains_text(
                substituted(body, colors, format),
                (#[trigger] colors[m]).name,
            ),
{
    lemma_substituted_is_clean(body, colors, format, colors.len() as int);
    assert(colors.subrange(0, colors.len() as int) =~= colors);
}

/// A text that shares no character with another can nowhere lie over it,
/// if neither is empty.
pub proof fn lemma_no_shared_character_never_meets(x: Seq<char>, t: Seq<char>)
    requires
        x.len() > 0,
        t.len() > 0,
        forall|a: int, b: int| 0 <= a < x.len() && 0 <= b < t.len() ==> x[a] != t[b],
    ensures
        never_meets(x, t),
{
    assert forall|d: int| -x.len() < d < t.len() implies !#[trigger] agree_at(x, t, d) by {
        let k = if d > 0 {
            d
        } else {
            0
        };
        assert(0 <= k < t.len() && 0 <= k - d < x.len());
        assert(x[k - d] != t[k]);
    }
}

} // verus!
