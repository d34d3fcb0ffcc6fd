//! Settings with a fractional part, held as exact decimal text.

use crate::number::{all_digits, digit_of, digit_value};
use crate::text::{
    append, chars_of, lemma_split_of_appended, lemma_split_of_one_piece, slice_of, split, split_on,
    string_of, views, without,
};
use vstd::prelude::*;

verus! {

/// A setting with a fractional part (a contrast, a blur radius, a bound of
/// the brightness band), held as decimal text. What it stands for is the
/// text in its shortest form: an optional `-`, the whole part without
/// leading zeros, and, where there is one, a `.` and the fraction without
/// trailing zeros. Two texts of one shortest form are one setting.
pub struct Decimal {
    pub text: String,
}

impl View for Decimal {
    type V = Seq<char>;

    open spec fn view(&self) -> Seq<char> {
        shortest_of(self.text@)
    }
}

impl Clone for Decimal {
    fn clone(&self) -> (r: Self)
        ensures
            r == *self,
    {
        Decimal { text: self.text.clone() }
    }
}

/// `s` without the zeros at its front.
pub open spec fn without_leading_zeros(s: Seq<char>) -> Seq<char>
    decreases s.len(),
{
    if s.len() > 0 && s[0] == '0' {
        without_leading_zeros(s.subrange(1, s.len() as int))
    } else {
        s
    }
}

/// `s` without the zeros at its end.
pub open spec fn without_trailing_zeros(s: Seq<char>) -> Seq<char>
    decreases s.len(),
{
    if s.len() > 0 && s.last() == '0' {
        without_trailing_zeros(s.drop_last())
    } else {
        s
    }
}

/// The text of a number with its sign, whole part and fraction written in
/// the shortest way.
pub open spec fn shortest(minus: bool, whole: Seq<char>, fraction: Seq<char>) -> Seq<char> {
    let w = without_leading_zeros(whole);
    let f = without_trailing_zeros(fraction);
    (if minus {
        seq!['-']
    } else {
        Seq::<char>::empty()
    }) + (if w.len() == 0 {
        seq!['0']
    } else {
        w
    }) + (if f.len() == 0 {
        Seq::<char>::empty()
    } else {
        seq!['.'] + f
    })
}

/// The shortest decimal text of the number that `s` writes, if `s` is a
/// plain decimal: an optional sign, digits, and at most one `.` among them,
/// with at least one digit.
pub open spec fn canonical_decimal(s: Seq<char>) -> Option<Seq<char>> {
    let minus = s.len() > 0 && s[0] == '-';
    let plus = s.len() > 0 && s[0] == '+';
    let body = if minus || plus {
        s.subrange(1, s.len() as int)
    } else {
        s
    };
    let parts = split_on(body, '.');
    let whole = parts[0];
    let fraction = if parts.len() == 2 {
        parts[1]
    } else {
        Seq::<char>::empty()
    };
    if parts.len() > 2 || !all_digits(whole, 10) || !all_digits(fraction, 10) || whole.len()
        + fraction.len() == 0 {
        None
    } else {
        Some(shortest(minus, whole, fraction))
    }
}

/// The shortest form of a text that is a plain decimal, and any other text
/// as it is.
pub open spec fn shortest_of(t: Seq<char>) -> Seq<char> {
    match canonical_decimal(t) {
        Some(c) => c,
        None => t,
    }
}

/// `t` is a decimal in its shortest form.
pub open spec fn is_canonical(t: Seq<char>) -> bool {
    canonical_decimal(t) == Some(t)
}

/// Zero, with either sign.
pub open spec fn reads_zero(text: Seq<char>) -> bool {
    text == seq!['0'] || text == seq!['-', '0']
}

proof fn lemma_leading_skip(s: Seq<char>, i: int)
    requires
        0 <= i <= s.len(),
        forall|j: int| 0 <= j < i ==> s[j] == '0',
    ensures
        without_leading_zeros(s) == without_leading_zeros(s.subrange(i, s.len() as int)),
    decreases i,
{
    if i == 0 {
        assert(s.subrange(0, s.len() as int) == s);
    } else {
        let t = s.subrange(1, s.len() as int);
        lemma_leading_skip(t, i - 1);
        assert(t.subrange(i - 1, t.len() as int) == s.subrange(i, s.len() as int));
    }
}

proof fn lemma_trailing_skip(s: Seq<char>, i: int)
    requires
        0 <= i <= s.len(),
        forall|j: int| i <= j < s.len() ==> s[j] == '0',
    ensures
        without_trailing_zeros(s) == without_trailing_zeros(s.subrange(0, i)),
    decreases s.len() - i,
{
    if i == s.len() {
        assert(s.subrange(0, s.len() as int) == s);
    } else {
        let t = s.drop_last();
        lemma_trailing_skip(t, i);
        assert(t.subrange(0, i) == s.subrange(0, i));
    }
}

/// What is left of digits without their leading zeros is digits, and does
/// not begin with a zero.
proof fn lemma_without_leading_zeros(s: Seq<char>)
    requires
        all_digits(s, 10),
    ensures
        all_digits(without_leading_zeros(s), 10),
        without_leading_zeros(s).len() > 0 ==> without_leading_zeros(s)[0] != '0',
        without_leading_zeros(without_leading_zeros(s)) == without_leading_zeros(s),
    decreases s.len(),
{
    if s.len() > 0 && s[0] == '0' {
        let t = s.subrange(1, s.len() as int);
        assert forall|i: int| 0 <= i < t.len() implies (#[trigger] digit_value(t[i], 10)) is Some by {
            assert(t[i] == s[i + 1]);
        }
        lemma_without_leading_zeros(t);
    }
}

/// What is left of digits without their trailing zeros is digits, and does
/// not end with a zero.
proof fn lemma_without_trailing_zeros(s: Seq<char>)
    requires
        all_digits(s, 10),
    ensures
        all_digits(without_trailing_zeros(s), 10),
        without_trailing_zeros(s).len() > 0 ==> without_trailing_zeros(s).last() != '0',
        without_trailing_zeros(without_trailing_zeros(s)) == without_trailing_zeros(s),
    decreases s.len(),
{
    if s.len() > 0 && s.last() == '0' {
        let t = s.drop_last();
        assert forall|i: int| 0 <= i < t.len() implies (#[trigger] digit_value(t[i], 10)) is Some by {
            assert(t[i] == s[i]);
        }
        lemma_without_trailing_zeros(t);
    }
}

/// Nothing is left of `0` without its leading zeros.
proof fn lemma_zero_without_leading_zeros()
    ensures
        without_leading_zeros(seq!['0']).len() == 0,
{
    let z = seq!['0'];
    let e = z.subrange(1, z.len() as int);
    assert(e.len() == 0);
    assert(without_leading_zeros(e) == e);
    assert(z[0] == '0');
    assert(without_leading_zeros(z) == without_leading_zeros(e));
}

/// Digits hold no `.`.
proof fn lemma_digits_without_point(s: Seq<char>)
    requires
        all_digits(s, 10),
    ensures
        without(s, '.'),
{
    assert forall|k: int| 0 <= k < s.len() implies s[k] != '.' by {
        assert(digit_value(s[k], 10) is Some);
    }
}

/// The shortest form of a decimal is a decimal, and is its own shortest
/// form.
pub proof fn lemma_canonical_is_fixed(s: Seq<char>)
    requires
        canonical_decimal(s) is Some,
    ensures
        is_canonical(canonical_decimal(s).unwrap()),
{
    let minus = s.len() > 0 && s[0] == '-';
    let plus = s.len() > 0 && s[0] == '+';
    let body = if minus || plus {
        s.subrange(1, s.len() as int)
    } else {
        s
    };
    let parts = split_on(body, '.');
    let whole = parts[0];
    let fraction = if parts.len() == 2 {
        parts[1]
    } else {
        Seq::<char>::empty()
    };
    lemma_without_leading_zeros(whole);
    lemma_without_trailing_zeros(fraction);
    let w = without_leading_zeros(whole);
    let f = without_trailing_zeros(fraction);
    let sign = if minus {
        seq!['-']
    } else {
        Seq::<char>::empty()
    };
    let w1 = if w.len() == 0 {
        seq!['0']
    } else {
        w
    };
    let tail = if f.len() == 0 {
        Seq::<char>::empty()
    } else {
        seq!['.'] + f
    };
    let t = sign + w1 + tail;
    assert(t == canonical_decimal(s).unwrap());
    assert(all_digits(w1, 10)) by {
        if w.len() == 0 {
            assert(digit_value('0', 10) is Some);
        }
    }
    assert(w1.len() > 0);
    assert(digit_value(w1[0], 10) is Some);
    assert(t[0] == (if minus {
        '-'
    } else {
        w1[0]
    }));
    let minus2 = t.len() > 0 && t[0] == '-';
    let plus2 = t.len() > 0 && t[0] == '+';
    assert(minus2 == minus);
    assert(!plus2);
    let body2 = if minus2 || plus2 {
        t.subrange(1, t.len() as int)
    } else {
        t
    };
    assert(body2 =~= w1 + tail);
    lemma_digits_without_point(w1);
    lemma_split_of_one_piece(w1, '.');
    if f.len() == 0 {
        assert(w1 + tail =~= w1);
        assert(split_on(body2, '.') == seq![w1]);
        assert(without_trailing_zeros(Seq::<char>::empty()) =~= Seq::<char>::empty());
    } else {
        lemma_digits_without_point(f);
        lemma_split_of_appended(w1, f, '.');
        assert(w1 + tail =~= w1 + seq!['.'] + f);
        assert(split_on(body2, '.') =~= seq![w1, f]);
    }
    if w.len() == 0 {
        lemma_zero_without_leading_zeros();
    }
    assert(canonical_decimal(t) == Some(t)) by {
        let parts2 = split_on(body2, '.');
        let whole2 = parts2[0];
        let fraction2 = if parts2.len() == 2 {
            parts2[1]
        } else {
            Seq::<char>::empty()
        };
        assert(whole2 == w1);
        assert(fraction2 == f);
        assert(shortest(minus2, whole2, fraction2) =~= t);
    }
}

/// Whether `s` holds nothing but decimal digits.
fn only_digits(s: &Vec<char>) -> (b: bool)
    ensures
        b == all_digits(s@, 10),
{
    let mut i: usize = 0;
    while i < s.len()
        invariant
            i <= s.len(),
            forall|j: int| 0 <= j < i ==> (#[trigger] crate::number::digit_value(s@[j], 10)) is Some,
        decreases s.len() - i,
    {
        if digit_of(s[i], 10).is_none() {
            return false;
        }
        i += 1;
    }
    true
}

/// `s` without the zeros at its front.
fn strip_leading_zeros(s: &Vec<char>) -> (r: Vec<char>)
    ensures
        r@ == without_leading_zeros(s@),
{
    let mut a: usize = 0;
    while a < s.len() && s[a] == '0'
        invariant
            a <= s.len(),
            forall|j: int| 0 <= j < a ==> s@[j] == '0',
        decreases s.len() - a,
    {
        a += 1;
    }
    proof {
        lemma_leading_skip(s@, a as int);
    }
    slice_of(s, a, s.len())
}

/// `s` without the zeros at its end.
fn strip_trailing_zeros(s: &Vec<char>) -> (r: Vec<char>)
    ensures
        r@ == without_trailing_zeros(s@),
{
    let mut b: usize = s.len();
    while b > 0 && s[b - 1] == '0'
        invariant
            b <= s.len(),
            forall|j: int| b <= j < s.len() ==> s@[j] == '0',
        decreases b,
    {
        b -= 1;
    }
    proof {
        lemma_trailing_skip(s@, b as int);
        let u = s@.subrange(0, b as int);
        if u.len() > 0 {
            assert(u.last() == s@[b - 1]);
        }
    }
    slice_of(s, 0, b)
}

/// The shortest decimal text of the number that `s` writes, if `s` is a
/// plain decimal.
pub fn canonical_text(s: &Vec<char>) -> (r: Option<Vec<char>>)
    ensures
        match r {
            Some(t) => canonical_decimal(s@) == Some(t@) && is_canonical(t@),
            None => canonical_decimal(s@) is None,
        },
{
    let minus = s.len() > 0 && s[0] == '-';
    let plus = s.len() > 0 && s[0] == '+';
    let body = if minus || plus {
        slice_of(s, 1, s.len())
    } else {
        slice_of(s, 0, s.len())
    };
    proof {
        assert(s@.subrange(0, s.len() as int) == s@);
    }
    let parts = split(&body, '.');
    if parts.len() > 2 {
        return None;
    }
    proof {
        assert(views(parts@)[0] == parts@[0]@);
        if parts.len() == 2 {
            assert(views(parts@)[1] == parts@[1]@);
        }
    }
    let empty: Vec<char> = Vec::new();
    let whole = &parts[0];
    let fraction = if parts.len() == 2 {
        &parts[1]
    } else {
        &empty
    };
    if !only_digits(whole) || !only_digits(fraction) || (whole.len() == 0 && fraction.len() == 0) {
        return None;
    }
    let w = strip_leading_zeros(whole);
    let f = strip_trailing_zeros(fraction);
    let mut r: Vec<char> = Vec::new();
    if minus {
        r.push('-');
    }
    if w.len() == 0 {
        r.push('0');
    } else {
        append(&mut r, &w);
    }
    if f.len() > 0 {
        r.push('.');
        append(&mut r, &f);
    }
    proof {
        assert(r@ =~= shortest(minus, whole@, fraction@));
        lemma_canonical_is_fixed(s@);
    }
    Some(r)
}

/// Digits that do not begin with a zero, and the single digit `0`, are a
/// decimal in its shortest form.
pub proof fn lemma_whole_number_is_canonical(s: Seq<char>)
    requires
        s.len() > 0,
        all_digits(s, 10),
        s[0] != '0' || s.len() == 1,
    ensures
        is_canonical(s),
{
    assert(digit_value(s[0], 10) is Some);
    lemma_digits_without_point(s);
    lemma_split_of_one_piece(s, '.');
    let e = Seq::<char>::empty();
    assert(without_trailing_zeros(e) =~= e);
    if s[0] == '0' {
        assert(s =~= seq!['0']);
        lemma_zero_without_leading_zeros();
        assert(shortest(false, s, e) =~= s);
    } else {
        assert(without_leading_zeros(s) == s);
        assert(shortest(false, s, e) =~= s);
    }
}

/// `0` is a decimal in its shortest form.
pub proof fn lemma_zero_is_canonical()
    ensures
        is_canonical(seq!['0']),
{
    let z = seq!['0'];
    assert(digit_value('0', 10) is Some);
    assert(all_digits(z, 10));
    lemma_digits_without_point(z);
    lemma_split_of_one_piece(z, '.');
    lemma_zero_without_leading_zeros();
    assert(without_trailing_zeros(Seq::<char>::empty()) =~= Seq::<char>::empty());
    assert(shortest(false, z, Seq::<char>::empty()) =~= z);
}

impl Decimal {
    /// The text is a decimal in its shortest form. `parse` and `zero` give
    /// such decimals; one made by hand need not be, and stands for the
    /// shortest form of its text all the same.
    pub open spec fn wf(&self) -> bool {
        is_canonical(self.text@)
    }

    /// The shortest form of the text.
    pub fn shortest(&self) -> (r: Vec<char>)
        ensures
            r@ == self@,
    {
        let t = chars_of(self.text.as_str());
        match canonical_text(&t) {
            Some(c) => c,
            None => t,
        }
    }

    /// The number that `s` writes as a plain decimal, if it is one.
    pub fn parse(s: &str) -> (r: Option<Decimal>)
        ensures
            match r {
                Some(v) => canonical_decimal(s@) == Some(v@) && v.wf(),
                None => canonical_decimal(s@) is None,
            },
    {
        let chars = chars_of(s);
        match canonical_text(&chars) {
            Some(t) => Some(Decimal { text: string_of(&t) }),
            None => None,
        }
    }

    /// Zero.
    pub fn zero() -> (r: Decimal)
        ensures
            r@ == seq!['0'],
            r.wf(),
    {
        let mut t: Vec<char> = Vec::new();
        t.push('0');
        proof {
            lemma_zero_is_canonical();
        }
        Decimal { text: string_of(&t) }
    }

    /// Whether this is zero, with either sign.
    pub fn is_zero(&self) -> (b: bool)
        ensures
            b == reads_zero(self@),
    {
        let t = self.shortest();
        let b = (t.len() == 1 && t[0] == '0') || (t.len() == 2 && t[0] == '-' && t[1] == '0');
        proof {
            if b {
                assert(t@ =~= seq!['0'] || t@ =~= seq!['-', '0']);
            } else {
                if t@ == seq!['0'] {
                    assert(t@.len() == 1 && t@[0] == '0');
                }
                if t@ == seq!['-', '0'] {
                    assert(t@.len() == 2 && t@[0] == '-' && t@[1] == '0');
                }
            }
        }
        b
    }
}

} // verus!
