//! Text as sequences of characters: searching, trimming, splitting and
//! replacing, each with a model over `Seq<char>`.

use vstd::prelude::*;

verus! {

/// `pat` occurs in `s` starting at position `i`.
pub open spec fn occurs_at(s: Seq<char>, pat: Seq<char>, i: int) -> bool {
    &&& 0 <= i
    &&& i + pat.len() <= s.len()
    &&& s.subrange(i, i + pat.len()) == pat
}

/// `s` begins with `pat`.
pub open spec fn has_prefix(s: Seq<char>, pat: Seq<char>) -> bool {
    occurs_at(s, pat, 0)
}

/// `s` ends with `pat`.
pub open spec fn has_suffix(s: Seq<char>, pat: Seq<char>) -> bool {
    occurs_at(s, pat, s.len() - pat.len())
}

/// `pat` occurs somewhere in `s`.
pub open spec fn contains_text(s: Seq<char>, pat: Seq<char>) -> bool {
    exists|i: int| occurs_at(s, pat, i)
}

/// The position of the first occurrence of `pat` in `s` at or after `from`,
/// or `s.len() + 1` when there is none.
pub open spec fn first_occurrence(s: Seq<char>, pat: Seq<char>, from: int) -> int
    decreases s.len() + 1 - from,
{
    if from < 0 || from > s.len() {
        (s.len() + 1) as int
    } else if occurs_at(s, pat, from) {
        from
    } else {
        first_occurrence(s, pat, from + 1)
    }
}

/// The characters that `str::trim` removes: Unicode's `White_Space` set.
pub open spec fn is_space(c: char) -> bool {
    let n = c as u32;
    ||| 0x09 <= n <= 0x0D
    ||| n == 0x20
    ||| n == 0x85
    ||| n == 0xA0
    ||| n == 0x1680
    ||| 0x2000 <= n <= 0x200A
    ||| n == 0x2028
    ||| n == 0x2029
    ||| n == 0x202F
    ||| n == 0x205F
    ||| n == 0x3000
}

/// `s` without its leading white space.
pub open spec fn trim_front(s: Seq<char>) -> Seq<char>
    decreases s.len(),
{
    if s.len() > 0 && is_space(s[0]) {
        trim_front(s.subrange(1, s.len() as int))
    } else {
        s
    }
}

/// `s` without its trailing white space.
pub open spec fn trim_back(s: Seq<char>) -> Seq<char>
    decreases s.len(),
{
    if s.len() > 0 && is_space(s[s.len() - 1]) {
        trim_back(s.subrange(0, s.len() - 1))
    } else {
        s
    }
}

/// `s` without its leading and trailing white space.
pub open spec fn trimmed(s: Seq<char>) -> Seq<char> {
    trim_back(trim_front(s))
}

/// The characters of `s`, in order.
pub fn chars_of(s: &str) -> (v: Vec<char>)
    ensures
        v@ == s@,
{
    let mut v: Vec<char> = Vec::new();
    for c in it: s.chars()
        invariant
            it.seq() == s@,
            v@ == s@.subrange(0, it.index() as int),
    {
        v.push(c);
    }
    proof {
        assert(s@.subrange(0, s@.len() as int) == s@);
    }
    v
}

/// Builds the string whose characters are `v`, through the standard
/// library's `FromIterator<&char>` for `String`, which appends each
/// character in turn.
#[verifier::external_body]
pub(crate) fn string_of(v: &Vec<char>) -> (s: String)
    ensures
        s@ == v@,
{
    v.iter().collect()
}

/// A copy of `s[from..to]`.
pub fn slice_of(s: &Vec<char>, from: usize, to: usize) -> (r: Vec<char>)
    requires
        from <= to <= s.len(),
    ensures
        r@ == s@.subrange(from as int, to as int),
{
    let mut r: Vec<char> = Vec::new();
    let mut i: usize = from;
    while i < to
        invariant
            from <= i <= to <= s.len(),
            r@ == s@.subrange(from as int, i as int),
        decreases to - i,
    {
        r.push(s[i]);
        i += 1;
    }
    r
}

/// Appends the characters of `tail` to `head`.
pub fn append(head: &mut Vec<char>, tail: &Vec<char>)
    ensures
        final(head)@ == old(head)@ + tail@,
{
    let mut i: usize = 0;
    while i < tail.len()
        invariant
            i <= tail.len(),
            head@ == old(head)@ + tail@.subrange(0, i as int),
        decreases tail.len() - i,
    {
        head.push(tail[i]);
        i += 1;
    }
    assert(tail@.subrange(0, tail.len() as int) == tail@);
}

/// Whether `pat` occurs in `s` at position `i`.
pub fn matches_at(s: &Vec<char>, pat: &Vec<char>, i: usize) -> (b: bool)
    ensures
        b == occurs_at(s@, pat@, i as int),
{
    if pat.len() > s.len() || i > s.len() - pat.len() {
        return false;
    }
    let mut k: usize = 0;
    while k < pat.len()
        invariant
            k <= pat.len(),
            i + pat.len() <= s.len(),
            forall|j: int| 0 <= j < k ==> s@[i + j] == pat@[j],
        decreases pat.len() - k,
    {
        if s[i + k] != pat[k] {
            proof {
                let w = s@.subrange(i as int, i + pat.len());
                assert(w[k as int] == s@[i + k]);
            }
            return false;
        }
        k += 1;
    }
    assert(s@.subrange(i as int, i + pat.len()) =~= pat@);
    true
}

/// Whether `s` begins with `pat`.
pub fn starts_with(s: &Vec<char>, pat: &Vec<char>) -> (b: bool)
    ensures
        b == has_prefix(s@, pat@),
{
    matches_at(s, pat, 0)
}

/// Whether `s` ends with `pat`.
pub fn ends_with(s: &Vec<char>, pat: &Vec<char>) -> (b: bool)
    ensures
        b == has_suffix(s@, pat@),
{
    if pat.len() > s.len() {
        return false;
    }
    matches_at(s, pat, s.len() - pat.len())
}

/// No occurrence of `pat` in `s` starts in `from..to`.
pub open spec fn none_between(s: Seq<char>, pat: Seq<char>, from: int, to: int) -> bool {
    forall|j: int| from <= j < to ==> !occurs_at(s, pat, j)
}

/// `first_occurrence` is the least position at or after `from` at which
/// `pat` occurs, and is past the end exactly when there is none.
pub proof fn lemma_first_occurrence(s: Seq<char>, pat: Seq<char>, from: int)
    requires
        0 <= from <= s.len() + 1,
    ensures
        from <= first_occurrence(s, pat, from) <= s.len() + 1,
        first_occurrence(s, pat, from) <= s.len() ==> occurs_at(
            s,
            pat,
            first_occurrence(s, pat, from),
        ),
        none_between(s, pat, from, first_occurrence(s, pat, from)),
    decreases s.len() + 1 - from,
{
    if from > s.len() {
    } else if occurs_at(s, pat, from) {
    } else {
        lemma_first_occurrence(s, pat, from + 1);
    }
}

/// A position `p` at which `pat` occurs, with none before it from `from`
/// on, is the first occurrence.
pub proof fn lemma_first_occurrence_is(s: Seq<char>, pat: Seq<char>, from: int, p: int)
    requires
        0 <= from <= p <= s.len() + 1,
        none_between(s, pat, from, p),
        p <= s.len() ==> occurs_at(s, pat, p),
    ensures
        first_occurrence(s, pat, from) == p,
    decreases p - from,
{
    if from == p {
        if p > s.len() {
        }
    } else {
        assert(!occurs_at(s, pat, from));
        lemma_first_occurrence_is(s, pat, from + 1, p);
    }
}

/// The first position at or after `from` at which `pat` occurs in `s`.
pub fn find_from(s: &Vec<char>, pat: &Vec<char>, from: usize) -> (r: Option<usize>)
    requires
        from <= s.len(),
    ensures
        match r {
            Some(p) => p as int == first_occurrence(s@, pat@, from as int) && p <= s.len(),
            None => first_occurrence(s@, pat@, from as int) == s.len() + 1,
        },
{
    let mut i: usize = from;
    while i <= s.len()
        invariant
            from <= i <= s.len() + 1,
            none_between(s@, pat@, from as int, i as int),
        decreases s.len() + 1 - i,
    {
        if matches_at(s, pat, i) {
            proof {
                lemma_first_occurrence_is(s@, pat@, from as int, i as int);
            }
            return Some(i);
        }
        if i == s.len() {
            proof {
                lemma_first_occurrence_is(s@, pat@, from as int, s.len() + 1);
            }
            return None;
        }
        i += 1;
    }
    proof {
        lemma_first_occurrence_is(s@, pat@, from as int, s.len() + 1);
    }
    None
}

/// Whether `pat` occurs in `s`.
pub fn contains(s: &Vec<char>, pat: &Vec<char>) -> (b: bool)
    ensures
        b == contains_text(s@, pat@),
{
    let r = find_from(s, pat, 0);
    proof {
        lemma_first_occurrence(s@, pat@, 0);
        if r is None {
            assert forall|i: int| !occurs_at(s@, pat@, i) by {
                if 0 <= i <= s@.len() {
                    assert(none_between(s@, pat@, 0, (s@.len() + 1) as int));
                }
            }
        }
    }
    r.is_some()
}

/// Whether `c` is white space.
pub fn is_whitespace(c: char) -> (b: bool)
    ensures
        b == is_space(c),
{
    let n: u32 = c as u32;
    (0x09 <= n && n <= 0x0D) || n == 0x20 || n == 0x85 || n == 0xA0 || n == 0x1680 || (0x2000 <= n
        && n <= 0x200A) || n == 0x2028 || n == 0x2029 || n == 0x202F || n == 0x205F || n == 0x3000
}

/// Once the first `i` characters are known to be white space, trimming the
/// front of `s` is trimming the front of what follows them.
proof fn lemma_trim_front_skip(s: Seq<char>, i: int)
    requires
        0 <= i <= s.len(),
        forall|j: int| 0 <= j < i ==> is_space(s[j]),
    ensures
        trim_front(s) == trim_front(s.subrange(i, s.len() as int)),
    decreases i,
{
    if i == 0 {
        assert(s.subrange(0, s.len() as int) == s);
    } else {
        let t = s.subrange(1, s.len() as int);
        lemma_trim_front_skip(t, i - 1);
        assert(t.subrange(i - 1, t.len() as int) == s.subrange(i, s.len() as int));
    }
}

/// The same from the back.
proof fn lemma_trim_back_skip(s: Seq<char>, i: int)
    requires
        0 <= i <= s.len(),
        forall|j: int| i <= j < s.len() ==> is_space(s[j]),
    ensures
        trim_back(s) == trim_back(s.subrange(0, i)),
    decreases s.len() - i,
{
    if i == s.len() {
        assert(s.subrange(0, s.len() as int) == s);
    } else {
        let t = s.subrange(0, s.len() - 1);
        lemma_trim_back_skip(t, i);
        assert(t.subrange(0, i) == s.subrange(0, i));
    }
}

/// `s` without leading and trailing white space, as `str::trim` gives it.
pub fn trim(s: &Vec<char>) -> (r: Vec<char>)
    ensures
        r@ == trimmed(s@),
{
    let mut a: usize = 0;
    while a < s.len() && is_whitespace(s[a])
        invariant
            a <= s.len(),
            forall|j: int| 0 <= j < a ==> is_space(s@[j]),
        decreases s.len() - a,
    {
        a += 1;
    }
    let mut b: usize = s.len();
    while b > a && is_whitespace(s[b - 1])
        invariant
            a <= b <= s.len(),
            forall|j: int| b <= j < s.len() ==> is_space(s@[j]),
        decreases b,
    {
        b -= 1;
    }
    proof {
        lemma_trim_front_skip(s@, a as int);
        let t = s@.subrange(a as int, s.len() as int);
        assert(trim_front(t) == t);
        assert forall|j: int| b - a <= j < t.len() implies is_space(t[j]) by {
            assert(t[j] == s@[a + j]);
        }
        lemma_trim_back_skip(t, b - a);
        let u = t.subrange(0, b - a);
        assert(u == s@.subrange(a as int, b as int));
        if u.len() > 0 {
            assert(u[u.len() - 1] == s@[b - 1]);
        }
        assert(trim_back(u) == u);
    }
    slice_of(s, a, b)
}

/// The pieces of `s` between the occurrences of `sep`, as `str::split` gives
/// them for a pattern of one character: a text without `sep` is one piece,
/// and each `sep` closes a piece and opens the next.
pub open spec fn split_on(s: Seq<char>, sep: char) -> Seq<Seq<char>>
    decreases s.len(),
{
    if s.len() == 0 {
        seq![Seq::<char>::empty()]
    } else {
        let before = split_on(s.drop_last(), sep);
        if s.last() == sep {
            before.push(Seq::<char>::empty())
        } else {
            before.drop_last().push(before.last().push(s.last()))
        }
    }
}

/// The views of the elements of a vector of texts.
pub open spec fn views(v: Seq<Vec<char>>) -> Seq<Seq<char>> {
    Seq::new(v.len(), |i: int| v[i]@)
}

/// The pieces of `s` between the occurrences of `sep`.
pub fn split(s: &Vec<char>, sep: char) -> (r: Vec<Vec<char>>)
    ensures
        views(r@) == split_on(s@, sep),
        r.len() >= 1,
{
    let mut done: Vec<Vec<char>> = Vec::new();
    let mut piece: Vec<char> = Vec::new();
    let mut i: usize = 0;
    while i < s.len()
        invariant
            i <= s.len(),
            views(done@).push(piece@) == split_on(s@.subrange(0, i as int), sep),
        decreases s.len() - i,
    {
        let ghost head = s@.subrange(0, i as int);
        let ghost next = s@.subrange(0, i + 1);
        proof {
            assert(next.drop_last() == head);
            assert(next.last() == s@[i as int]);
            assert(views(done@).push(piece@).drop_last() == views(done@));
        }
        if s[i] == sep {
            let ghost old_done = done@;
            done.push(piece);
            piece = Vec::new();
            proof {
                assert(views(done@) == views(old_done).push(done@[old_done.len() as int]@));
            }
        } else {
            piece.push(s[i]);
        }
        i += 1;
    }
    proof {
        assert(s@.subrange(0, s.len() as int) == s@);
        let ghost old_done = done@;
        assert(views(old_done.push(piece)) == views(old_done).push(piece@));
    }
    done.push(piece);
    done
}

/// `l` without one trailing carriage return.
pub open spec fn strip_cr(l: Seq<char>) -> Seq<char> {
    if l.len() > 0 && l.last() == '\r' {
        l.drop_last()
    } else {
        l
    }
}

/// The lines of `s`, as `str::lines` gives them: each ends at a line feed,
/// which is dropped together with a carriage return just before it; what
/// follows the last line feed is a line only if it is not empty.
pub open spec fn lines_of(s: Seq<char>) -> Seq<Seq<char>> {
    let pieces = split_on(s, '\n');
    let closed = Seq::new((pieces.len() - 1) as nat, |i: int| strip_cr(pieces[i]));
    if pieces.last().len() == 0 {
        closed
    } else {
        closed.push(pieces.last())
    }
}

/// The lines of `s`.
pub fn lines(s: &Vec<char>) -> (r: Vec<Vec<char>>)
    ensures
        views(r@) == lines_of(s@),
{
    let pieces = split(s, '\n');
    let mut r: Vec<Vec<char>> = Vec::new();
    let n: usize = pieces.len();
    let mut i: usize = 0;
    while i + 1 < n
        invariant
            n == pieces.len(),
            n >= 1,
            i + 1 <= n,
            views(pieces@) == split_on(s@, '\n'),
            views(r@) == Seq::new(i as nat, |k: int| strip_cr(split_on(s@, '\n')[k])),
        decreases n - i,
    {
        let p = &pieces[i];
        proof {
            assert(views(pieces@)[i as int] == p@);
        }
        let line = if p.len() > 0 && p[p.len() - 1] == '\r' {
            slice_of(p, 0, p.len() - 1)
        } else {
            slice_of(p, 0, p.len())
        };
        proof {
            assert(p@.subrange(0, p.len() as int) == p@);
            assert(p@.subrange(0, p.len() - 1) == p@.drop_last());
            assert(line@ == strip_cr(p@));
        }
        let ghost before = r@;
        r.push(line);
        proof {
            assert(views(r@) =~= views(before).push(line@));
            assert(views(r@) =~= Seq::new(
                (i + 1) as nat,
                |k: int| strip_cr(split_on(s@, '\n')[k]),
            ));
        }
        i += 1;
    }
    let last = &pieces[n - 1];
    proof {
        assert(views(pieces@)[n - 1] == last@);
        assert(views(pieces@).last() == last@);
    }
    if last.len() > 0 {
        let copy = slice_of(last, 0, last.len());
        let ghost before = r@;
        r.push(copy);
        proof {
            assert(last@.subrange(0, last.len() as int) == last@);
            assert(views(r@) =~= views(before).push(last@));
        }
    }
    r
}

/// The texts of `parts` with `sep` between each two neighbours.
pub open spec fn joined(parts: Seq<Seq<char>>, sep: Seq<char>) -> Seq<char>
    decreases parts.len(),
{
    if parts.len() == 0 {
        Seq::<char>::empty()
    } else if parts.len() == 1 {
        parts[0]
    } else {
        joined(parts.drop_last(), sep) + sep + parts.last()
    }
}

/// The texts of `parts` with `sep` between each two neighbours.
pub fn join(parts: &Vec<Vec<char>>, sep: &Vec<char>) -> (r: Vec<char>)
    ensures
        r@ == joined(views(parts@), sep@),
{
    let mut r: Vec<char> = Vec::new();
    let mut i: usize = 0;
    while i < parts.len()
        invariant
            i <= parts.len(),
            r@ == joined(views(parts@).subrange(0, i as int), sep@),
        decreases parts.len() - i,
    {
        let ghost head = views(parts@).subrange(0, i as int);
        let ghost next = views(parts@).subrange(0, i + 1);
        proof {
            assert(next.drop_last() == head);
            assert(next.last() == parts@[i as int]@);
        }
        if i > 0 {
            append(&mut r, sep);
        }
        append(&mut r, &parts[i]);
        proof {
            if i == 0 {
                assert(head.len() == 0);
                assert(r@ == parts@[0]@);
                assert(next[0] == parts@[0]@);
            }
        }
        i += 1;
    }
    proof {
        assert(views(parts@).subrange(0, parts.len() as int) == views(parts@));
    }
    r
}

/// `s[i..]` with each occurrence of `from` replaced by `to`, scanning from
/// the left and resuming after each occurrence, as `str::replace` does. An
/// empty `from` occurs before each character and at the end.
pub open spec fn replaced_from(s: Seq<char>, from: Seq<char>, to: Seq<char>, i: int) -> Seq<char>
    decreases s.len() - i,
{
    if i < 0 || i > s.len() {
        Seq::<char>::empty()
    } else if from.len() == 0 {
        if i == s.len() {
            to
        } else {
            to + seq![s[i]] + replaced_from(s, from, to, i + 1)
        }
    } else {
        let p = first_occurrence(s, from, i);
        if p < i || p + from.len() > s.len() {
            s.subrange(i, s.len() as int)
        } else {
            s.subrange(i, p) + to + replaced_from(s, from, to, p + from.len())
        }
    }
}

/// `s` with each occurrence of `from` replaced by `to`.
pub open spec fn replaced(s: Seq<char>, from: Seq<char>, to: Seq<char>) -> Seq<char> {
    replaced_from(s, from, to, 0)
}

/// `s` with each occurrence of `from` replaced by `to`.
pub fn replace(s: &Vec<char>, from: &Vec<char>, to: &Vec<char>) -> (r: Vec<char>)
    ensures
        r@ == replaced(s@, from@, to@),
{
    let mut r: Vec<char> = Vec::new();
    let mut i: usize = 0;
    if from.len() == 0 {
        while i < s.len()
            invariant
                i <= s.len(),
                from.len() == 0,
                replaced(s@, from@, to@) == r@ + replaced_from(s@, from@, to@, i as int),
            decreases s.len() - i,
        {
            let ghost before = r@;
            append(&mut r, to);
            r.push(s[i]);
            proof {
                let rest = replaced_from(s@, from@, to@, i + 1);
                assert(replaced_from(s@, from@, to@, i as int) == to@ + seq![s@[i as int]] + rest);
                assert(r@ + rest =~= before + (to@ + seq![s@[i as int]] + rest));
            }
            i += 1;
        }
        append(&mut r, to);
        return r;
    }
    while i <= s.len()
        invariant
            i <= s.len() + 1,
            from.len() > 0,
            replaced(s@, from@, to@) == r@ + replaced_from(s@, from@, to@, i as int),
        decreases s.len() + 1 - i,
    {
        proof {
            lemma_first_occurrence(s@, from@, i as int);
        }
        match find_from(s, from, i) {
            Some(p) => {
                let ghost before = r@;
                let gap = slice_of(s, i, p);
                append(&mut r, &gap);
                append(&mut r, to);
                proof {
                    let rest = replaced_from(s@, from@, to@, p + from.len());
                    assert(r@ + rest =~= before + (s@.subrange(i as int, p as int) + to@ + rest));
                }
                i = p + from.len();
            },
            None => {
                let tail = slice_of(s, i, s.len());
                append(&mut r, &tail);
                proof {
                    assert(r@ + Seq::<char>::empty() =~= r@);
                }
                return r;
            },
        }
    }
    proof {
        assert(r@ + Seq::<char>::empty() =~= r@);
    }
    r
}

/// Whether `s` is the text `t`.
pub fn same(s: &Vec<char>, t: &str) -> (b: bool)
    ensures
        b == (s@ == t@),
{
    let other = chars_of(t);
    if s.len() != other.len() {
        return false;
    }
    let r = matches_at(s, &other, 0);
    proof {
        assert(s@.subrange(0, s.len() as int) == s@);
    }
    r
}

/// Whether two strings hold the same text.
pub fn str_eq(a: &str, b: &str) -> (r: bool)
    ensures
        r == (a@ == b@),
{
    let chars = chars_of(a);
    same(&chars, b)
}

/// Appends the text `t` to `head`.
pub fn append_str(head: &mut Vec<char>, t: &str)
    ensures
        final(head)@ == old(head)@ + t@,
{
    let tail = chars_of(t);
    append(head, &tail);
}

/// The position of the last occurrence of `c` in `s`, if there is one.
pub open spec fn last_index_of(s: Seq<char>, c: char) -> Option<int>
    decreases s.len(),
{
    if s.len() == 0 {
        None
    } else if s.last() == c {
        Some(s.len() - 1)
    } else {
        last_index_of(s.drop_last(), c)
    }
}

/// The last occurrence is an occurrence, and none follows it.
pub proof fn lemma_last_index_of(s: Seq<char>, c: char)
    ensures
        match last_index_of(s, c) {
            Some(p) => 0 <= p < s.len() && s[p] == c && forall|j: int| p < j < s.len() ==> s[j] != c,
            None => forall|j: int| 0 <= j < s.len() ==> s[j] != c,
        },
    decreases s.len(),
{
    if s.len() > 0 && s.last() != c {
        lemma_last_index_of(s.drop_last(), c);
        let t = s.drop_last();
        match last_index_of(t, c) {
            Some(p) => {
                assert forall|j: int| p < j < s.len() implies s[j] != c by {
                    if j < t.len() {
                        assert(t[j] == s[j]);
                    }
                }
            },
            None => {
                assert forall|j: int| 0 <= j < s.len() implies s[j] != c by {
                    if j < t.len() {
                        assert(t[j] == s[j]);
                    }
                }
            },
        }
    }
}

/// The position of the last occurrence of `c` in `s`.
pub fn rfind_char(s: &Vec<char>, c: char) -> (r: Option<usize>)
    ensures
        match r {
            Some(p) => last_index_of(s@, c) == Some(p as int) && p < s.len(),
            None => last_index_of(s@, c) is None,
        },
{
    let mut i: usize = s.len();
    assert(s@.subrange(0, s.len() as int) == s@);
    while i > 0
        invariant
            i <= s.len(),
            last_index_of(s@, c) == last_index_of(s@.subrange(0, i as int), c),
        decreases i,
    {
        let ghost head = s@.subrange(0, i as int);
        proof {
            assert(head.last() == s@[i - 1]);
            assert(head.drop_last() == s@.subrange(0, i - 1));
        }
        if s[i - 1] == c {
            return Some(i - 1);
        }
        i -= 1;
    }
    proof {
        assert(s@.subrange(0, 0).len() == 0);
    }
    None
}

/// The texts of the strings of a vector.
pub open spec fn texts(v: Seq<String>) -> Seq<Seq<char>> {
    Seq::new(v.len(), |i: int| v[i]@)
}

/// The characters of each string of `v`.
pub fn to_texts(v: &Vec<String>) -> (r: Vec<Vec<char>>)
    ensures
        views(r@) == texts(v@),
{
    let mut r: Vec<Vec<char>> = Vec::new();
    let mut i: usize = 0;
    while i < v.len()
        invariant
            i <= v.len(),
            r.len() == i,
            forall|k: int| 0 <= k < i ==> (#[trigger] r[k])@ == v[k]@,
        decreases v.len() - i,
    {
        r.push(chars_of(v[i].as_str()));
        i += 1;
    }
    proof {
        assert(views(r@) =~= texts(v@));
    }
    r
}

/// A string for each text of `v`.
pub fn to_strings(v: &Vec<Vec<char>>) -> (r: Vec<String>)
    ensures
        texts(r@) == views(v@),
{
    let mut r: Vec<String> = Vec::new();
    let mut i: usize = 0;
    while i < v.len()
        invariant
            i <= v.len(),
            r.len() == i,
            forall|k: int| 0 <= k < i ==> (#[trigger] r[k])@ == v[k]@,
        decreases v.len() - i,
    {
        r.push(string_of(&v[i]));
        i += 1;
    }
    proof {
        assert(texts(r@) =~= views(v@));
    }
    r
}

/// The number of bytes that a character takes in UTF-8.
pub open spec fn utf8_width(c: char) -> int {
    let n = c as u32;
    if n < 0x80 {
        1
    } else if n < 0x800 {
        2
    } else if n < 0x10000 {
        3
    } else {
        4
    }
}

/// The number of bytes that a text takes in UTF-8, which is the length
/// that `str::len` gives.
pub open spec fn utf8_length(s: Seq<char>) -> int
    decreases s.len(),
{
    if s.len() == 0 {
        0
    } else {
        utf8_length(s.drop_last()) + utf8_width(s.last())
    }
}

/// Whether `s` takes exactly `n` bytes in UTF-8.
pub fn has_utf8_length(s: &Vec<char>, n: usize) -> (b: bool)
    ensures
        b == (utf8_length(s@) == n),
{
    let mut total: usize = 0;
    let mut i: usize = 0;
    while i < s.len()
        invariant
            i <= s.len(),
            total == utf8_length(s@.subrange(0, i as int)),
            total <= n,
            total <= 4 * i,
        decreases s.len() - i,
    {
        let c: u32 = s[i] as u32;
        let w: usize = if c < 0x80 {
            1
        } else if c < 0x800 {
            2
        } else if c < 0x10000 {
            3
        } else {
            4
        };
        proof {
            let next = s@.subrange(0, i + 1);
            assert(next.drop_last() == s@.subrange(0, i as int));
            assert(next.last() == s@[i as int]);
            assert(s@.subrange(0, s.len() as int) == s@);
            lemma_utf8_length_grows(s@, i + 1);
        }
        if w > n - total {
            return false;
        }
        total = total + w;
        i += 1;
    }
    proof {
        assert(s@.subrange(0, s.len() as int) == s@);
    }
    total == n
}

/// A text takes at least as many bytes as any of its beginnings.
pub proof fn lemma_utf8_length_grows(s: Seq<char>, k: int)
    requires
        0 <= k <= s.len(),
    ensures
        0 <= utf8_length(s.subrange(0, k)) <= utf8_length(s),
    decreases s.len() - k,
{
    if k == s.len() {
        assert(s.subrange(0, k) == s);
        lemma_utf8_length_nonnegative(s);
    } else {
        let t = s.drop_last();
        assert(t.subrange(0, k) == s.subrange(0, k));
        lemma_utf8_length_grows(t, k);
    }
}

/// No text takes a negative number of bytes.
pub proof fn lemma_utf8_length_nonnegative(s: Seq<char>)
    ensures
        0 <= utf8_length(s),
    decreases s.len(),
{
    if s.len() > 0 {
        lemma_utf8_length_nonnegative(s.drop_last());
    }
}

/// No character of `s` is `c`.
pub open spec fn without(s: Seq<char>, c: char) -> bool {
    forall|k: int| 0 <= k < s.len() ==> s[k] != c
}

/// A text without the separator is one piece.
pub proof fn lemma_split_of_one_piece(s: Seq<char>, sep: char)
    requires
        without(s, sep),
    ensures
        split_on(s, sep) == seq![s],
    decreases s.len(),
{
    if s.len() == 0 {
        assert(s =~= Seq::<char>::empty());
    } else {
        let t = s.drop_last();
        assert(without(t, sep)) by {
            assert forall|k: int| 0 <= k < t.len() implies t[k] != sep by {
                assert(t[k] == s[k]);
            }
        }
        lemma_split_of_one_piece(t, sep);
        let before = split_on(t, sep);
        assert(before.last() == t);
        assert(t.push(s.last()) =~= s);
        assert(before.drop_last().push(before.last().push(s.last())) =~= seq![s]);
    }
}

/// A separator and a last piece behind a text add that piece to the pieces
/// of the text.
pub proof fn lemma_split_of_appended(a: Seq<char>, b: Seq<char>, sep: char)
    requires
        without(b, sep),
    ensures
        split_on(a + seq![sep] + b, sep) == split_on(a, sep).push(b),
    decreases b.len(),
{
    let s = a + seq![sep] + b;
    if b.len() == 0 {
        assert(s.drop_last() =~= a);
        assert(s.last() == sep);
        assert(b =~= Seq::<char>::empty());
    } else {
        let c = b.drop_last();
        assert(without(c, sep)) by {
            assert forall|k: int| 0 <= k < c.len() implies c[k] != sep by {
                assert(c[k] == b[k]);
            }
        }
        lemma_split_of_appended(a, c, sep);
        assert(s.drop_last() =~= a + seq![sep] + c);
        assert(s.last() == b.last());
        assert(b.last() != sep);
        let before = split_on(a, sep).push(c);
        assert(before.drop_last() =~= split_on(a, sep));
        assert(c.push(b.last()) =~= b);
    }
}

/// Texts without the separator, joined by it, split into the same texts.
pub proof fn lemma_split_of_joined(parts: Seq<Seq<char>>, sep: char)
    requires
        parts.len() >= 1,
        forall|i: int| 0 <= i < parts.len() ==> without(#[trigger] parts[i], sep),
    ensures
        split_on(joined(parts, seq![sep]), sep) == parts,
    decreases parts.len(),
{
    if parts.len() == 1 {
        lemma_split_of_one_piece(parts[0], sep);
        assert(seq![parts[0]] =~= parts);
    } else {
        let head = parts.drop_last();
        assert forall|i: int| 0 <= i < head.len() implies without(#[trigger] head[i], sep) by {
            assert(head[i] == parts[i]);
        }
        lemma_split_of_joined(head, sep);
        lemma_split_of_appended(joined(head, seq![sep]), parts.last(), sep);
        assert(head.push(parts.last()) =~= parts);
    }
}

/// The lines of texts that are joined by line feeds are those texts, if
/// none of them holds a line feed or ends with a carriage return and the
/// last is not empty.
pub proof fn lemma_lines_of_joined(parts: Seq<Seq<char>>)
    requires
        parts.len() >= 1,
        forall|i: int| 0 <= i < parts.len() ==> without(#[trigger] parts[i], '\n'),
        forall|i: int|
            0 <= i < parts.len() ==> (#[trigger] parts[i]).len() > 0 && parts[i].last() != '\r',
    ensures
        lines_of(joined(parts, seq!['\n'])) == parts,
{
    lemma_split_of_joined(parts, '\n');
    let pieces = split_on(joined(parts, seq!['\n']), '\n');
    let closed = Seq::new((pieces.len() - 1) as nat, |i: int| strip_cr(pieces[i]));
    assert(closed.push(pieces.last()) =~= parts);
}

} // verus!
