//! From the colours that clustering found to the palette of sixteen
//! entries: padding, ordering, the accent and its two blends, and the text
//! of each entry.

use crate::colors::{hex_of_channels, write_channels, RGB};
use crate::rwal_params::OrderBy;
use crate::text::{
    append, chars_of, join, joined, lines, lines_of, string_of, texts, to_strings, to_texts,
};
use vstd::prelude::*;

verus! {

/// The number of steps of a channel in one degree of hue, and in one
/// hundredth of saturation or value.
pub const UNIT: u32 = 1_000_000;

/// The number of colours of a palette between its two blends.
pub const COLORS: usize = 6;

/// A colour that clustering found: its hue, saturation and value in whole
/// steps (`UNIT` steps to the degree, `100 * UNIT` steps for full
/// saturation and for full value), and its red, green and blue.
pub struct Centroid {
    pub hue: u32,
    pub saturation: u32,
    pub value: u32,
    pub color: RGB,
}

impl Clone for Centroid {
    fn clone(&self) -> (r: Self)
        ensures
            r == *self,
    {
        Centroid {
            hue: self.hue,
            saturation: self.saturation,
            value: self.value,
            color: self.color.clone(),
        }
    }
}

/// The colour that fills a palette that clustering left short: white.
pub open spec fn white() -> Centroid {
    Centroid { hue: 0, saturation: 0, value: 100_000_000, color: RGB { r: 255, g: 255, b: 255 } }
}

/// `p`, and after it as many whites as it lacks for six colours.
pub open spec fn padded(p: Seq<Centroid>) -> Seq<Centroid>
    decreases 6 - p.len(),
{
    if p.len() >= 6 {
        p
    } else {
        padded(p.push(white()))
    }
}

/// The channel by which a rule orders colours.
pub open spec fn key_of(c: Centroid, order: OrderBy) -> int {
    match order {
        OrderBy::Saturation => c.saturation as int,
        OrderBy::Brightness => c.value as int,
        _ => c.hue as int,
    }
}

/// Where a colour of key `k` enters colours in ascending order: behind the
/// last whose key is not above `k`.
pub open spec fn insert_position(s: Seq<Centroid>, k: int, order: OrderBy) -> int
    decreases s.len(),
{
    if s.len() == 0 {
        0
    } else if key_of(s.last(), order) <= k {
        s.len() as int
    } else {
        insert_position(s.drop_last(), k, order)
    }
}

/// `p` in ascending order of the rule's channel, colours of equal key in
/// the order in which `p` has them.
pub open spec fn sorted_by(p: Seq<Centroid>, order: OrderBy) -> Seq<Centroid>
    decreases p.len(),
{
    if p.len() == 0 {
        p
    } else {
        let before = sorted_by(p.drop_last(), order);
        before.insert(insert_position(before, key_of(p.last(), order), order), p.last())
    }
}

/// The keys of `s` never fall from one colour to the next.
pub open spec fn ascending(s: Seq<Centroid>, order: OrderBy) -> bool {
    forall|i: int, j: int| 0 <= i <= j < s.len() ==> key_of(s[i], order) <= key_of(s[j], order)
}

/// The distance of a hue from a target on the circle of hues, both in
/// steps: the smaller of their difference and of what the difference lacks
/// for the full circle of 360 degrees.
pub open spec fn hue_distance(c: Centroid, target: int) -> int {
    let apart = if c.hue >= target {
        c.hue - target
    } else {
        target - c.hue
    };
    let around = 360 * UNIT - apart;
    if around < apart {
        around
    } else {
        apart
    }
}

/// Among the first `n` colours of `p`, the unused one whose hue is closest
/// to `target`; of several equally close, the first. None if all are used.
pub open spec fn closest_unused(p: Seq<Centroid>, used: Seq<bool>, target: int, n: int) -> Option<
    int,
>
    decreases n,
{
    if n <= 0 {
        None
    } else {
        let before = closest_unused(p, used, target, n - 1);
        if used[n - 1] {
            before
        } else {
            match before {
                None => Some(n - 1),
                Some(b) => if hue_distance(p[n - 1], target) < hue_distance(p[b], target) {
                    Some(n - 1)
                } else {
                    Some(b)
                },
            }
        }
    }
}

/// The hues that the places of a palette in semantic order stand for, in
/// steps: red, green, yellow, blue, magenta, cyan.
pub open spec fn semantic_targets() -> Seq<int> {
    seq![360_000_000, 120_000_000, 60_000_000, 240_000_000, 300_000_000, 180_000_000]
}

/// The index taken for a target: the closest unused colour, and the first
/// colour where none is unused.
pub open spec fn taken(p: Seq<Centroid>, used: Seq<bool>, target: int) -> int {
    match closest_unused(p, used, target, p.len() as int) {
        Some(i) => i,
        None => 0,
    }
}

/// The colours taken for the targets from `t` on, each target taking the
/// closest colour that no earlier target took.
pub open spec fn semantic_from(p: Seq<Centroid>, used: Seq<bool>, t: int) -> Seq<Centroid>
    decreases 6 - t,
{
    if t < 0 || t >= 6 || p.len() == 0 {
        Seq::<Centroid>::empty()
    } else {
        let i = taken(p, used, semantic_targets()[t]);
        seq![p[i]] + semantic_from(p, used.update(i, true), t + 1)
    }
}

/// `p` in the order of a rule. The semantic order has one colour for each
/// of the six targets; the other orders keep every colour.
pub open spec fn ordered(p: Seq<Centroid>, order: OrderBy) -> Seq<Centroid> {
    match order {
        OrderBy::Semantic => semantic_from(p, Seq::new(p.len(), |i: int| false), 0),
        _ => sorted_by(p, order),
    }
}

/// One channel of a blend: four parts of `a` and one of `b`, rounded down.
pub open spec fn blend(a: u8, b: u8) -> u8 {
    ((4 * a + b) / 5) as u8
}

/// The blend of two colours, four parts of `a` and one of `b`.
pub open spec fn merged(a: RGB, b: RGB) -> RGB {
    RGB { r: blend(a.r, b.r), g: blend(a.g, b.g), b: blend(a.b, b.b) }
}

/// The index of the accent among the six colours: the setting, and 5 where
/// it is above.
pub open spec fn accent_index(accent_color: u32) -> int {
    if accent_color > 5 {
        5
    } else {
        accent_color as int
    }
}

/// The eight colours of a palette: the blend of black with the accent, the
/// first six colours of `p`, and the blend of white with the accent.
pub open spec fn eight_colors(p: Seq<Centroid>, accent_color: u32) -> Seq<RGB> {
    let accent = p[accent_index(accent_color)].color;
    seq![merged(RGB { r: 0, g: 0, b: 0 }, accent)] + Seq::new(6, |i: int| p[i].color) + seq![
        merged(RGB { r: 255, g: 255, b: 255 }, accent),
    ]
}

/// The text of an entry of a palette: `#` and six upper-case hexadecimal
/// digits.
pub open spec fn entry_text(c: RGB) -> Seq<char> {
    seq!['#'] + hex_of_channels(c.r, c.g, c.b)
}

/// The texts of the eight colours.
pub open spec fn eight_entries(p: Seq<Centroid>, accent_color: u32) -> Seq<Seq<char>> {
    Seq::new(8, |i: int| entry_text(eight_colors(p, accent_color)[i]))
}

/// The palette of the colours that clustering found: they are padded to
/// six, ordered, and made into eight entries, which are given twice.
pub open spec fn palette_of(centroids: Seq<Centroid>, accent_color: u32, order: OrderBy) -> Seq<
    Seq<char>,
> {
    let eight = eight_entries(ordered(padded(centroids), order), accent_color);
    eight + eight
}

/// `p` with whites after it until it has six colours.
pub fn add_missing_colors(p: Vec<Centroid>) -> (r: Vec<Centroid>)
    ensures
        r@ == padded(p@),
        r.len() >= 6,
{
    let mut r = p;
    while r.len() < 6
        invariant
            padded(r@) == padded(p@),
        decreases 6 - r.len(),
    {
        r.push(
            Centroid {
                hue: 0,
                saturation: 0,
                value: 100_000_000,
                color: RGB { r: 255, g: 255, b: 255 },
            },
        );
    }
    r
}

/// The channel of `c` by which `order` orders.
pub fn key(c: &Centroid, order: OrderBy) -> (k: u32)
    ensures
        k == key_of(*c, order),
{
    match order {
        OrderBy::Saturation => c.saturation,
        OrderBy::Brightness => c.value,
        _ => c.hue,
    }
}

/// `p` in ascending order of the rule's channel, colours of equal key in
/// the order in which `p` has them.
pub fn sort_palette(p: &Vec<Centroid>, order: OrderBy) -> (r: Vec<Centroid>)
    ensures
        r@ == sorted_by(p@, order),
{
    let mut r: Vec<Centroid> = Vec::new();
    let mut i: usize = 0;
    while i < p.len()
        invariant
            i <= p.len(),
            r@ == sorted_by(p@.subrange(0, i as int), order),
            r.len() == i,
        decreases p.len() - i,
    {
        proof {
            let next = p@.subrange(0, i + 1);
            assert(next.drop_last() == p@.subrange(0, i as int));
            assert(next.last() == p@[i as int]);
        }
        let k = key(&p[i], order);
        let mut j: usize = r.len();
        assert(r@.subrange(0, r.len() as int) == r@);
        while j > 0 && key(&r[j - 1], order) > k
            invariant
                j <= r.len(),
                insert_position(r@, k as int, order) == insert_position(
                    r@.subrange(0, j as int),
                    k as int,
                    order,
                ),
            decreases j,
        {
            proof {
                let head = r@.subrange(0, j as int);
                assert(head.last() == r@[j - 1]);
                assert(head.drop_last() == r@.subrange(0, j - 1));
            }
            j -= 1;
        }
        proof {
            let head = r@.subrange(0, j as int);
            if j > 0 {
                assert(head.last() == r@[j - 1]);
            }
            assert(insert_position(head, k as int, order) == j);
        }
        r.insert(j, p[i].clone());
        i += 1;
    }
    proof {
        assert(p@.subrange(0, p.len() as int) == p@);
    }
    r
}

/// The distance of the hue of `c` from `target` on the circle of hues.
fn distance(c: &Centroid, target: u32) -> (d: i64)
    ensures
        d == hue_distance(*c, target as int),
{
    let apart: i64 = if c.hue >= target {
        (c.hue - target) as i64
    } else {
        (target - c.hue) as i64
    };
    let around: i64 = 360 * (UNIT as i64) - apart;
    if around < apart {
        around
    } else {
        apart
    }
}

/// The index of the unused colour whose hue is closest to `target`, the
/// first of several equally close; 0 where every colour is used.
pub fn take_closest(p: &Vec<Centroid>, used: &Vec<bool>, target: u32) -> (r: usize)
    requires
        used.len() == p.len(),
        p.len() > 0,
    ensures
        r == taken(p@, used@, target as int),
        r < p.len(),
{
    let mut best: Option<usize> = None;
    let mut i: usize = 0;
    while i < p.len()
        invariant
            i <= p.len(),
            used.len() == p.len(),
            match best {
                Some(b) => closest_unused(p@, used@, target as int, i as int) == Some(b as int) && b
                    < i,
                None => closest_unused(p@, used@, target as int, i as int) is None,
            },
        decreases p.len() - i,
    {
        if !used[i] {
            match best {
                None => {
                    best = Some(i);
                },
                Some(b) => {
                    if distance(&p[i], target) < distance(&p[b], target) {
                        best = Some(i);
                    }
                },
            }
        }
        i += 1;
    }
    match best {
        Some(b) => b,
        None => 0,
    }
}

/// The target hue of place `t` of the semantic order.
fn target_of(t: usize) -> (r: u32)
    requires
        t < 6,
    ensures
        r == semantic_targets()[t as int],
{
    if t == 0 {
        360_000_000
    } else if t == 1 {
        120_000_000
    } else if t == 2 {
        60_000_000
    } else if t == 3 {
        240_000_000
    } else if t == 4 {
        300_000_000
    } else {
        180_000_000
    }
}

/// The six colours of the semantic order: for red, green, yellow, blue,
/// magenta and cyan in turn, the colour of `p` closest in hue that no
/// earlier target took.
pub fn semantic_palette(p: &Vec<Centroid>) -> (r: Vec<Centroid>)
    ensures
        r@ == semantic_from(p@, Seq::new(p.len() as nat, |i: int| false), 0),
{
    let mut r: Vec<Centroid> = Vec::new();
    if p.len() == 0 {
        return r;
    }
    let mut used: Vec<bool> = Vec::new();
    let mut n: usize = 0;
    while n < p.len()
        invariant
            n <= p.len(),
            used@ == Seq::new(n as nat, |i: int| false),
        decreases p.len() - n,
    {
        used.push(false);
        assert(used@ =~= Seq::new((n + 1) as nat, |i: int| false));
        n += 1;
    }
    let ghost start = used@;
    let mut t: usize = 0;
    while t < 6
        invariant
            t <= 6,
            p.len() > 0,
            used.len() == p.len(),
            semantic_from(p@, start, 0) == r@ + semantic_from(p@, used@, t as int),
        decreases 6 - t,
    {
        let i = take_closest(p, &used, target_of(t));
        let ghost before = r@;
        let ghost rest = semantic_from(p@, used@.update(i as int, true), t + 1);
        r.push(p[i].clone());
        used.set(i, true);
        proof {
            assert(r@ + rest =~= before + (seq![p@[i as int]] + rest));
        }
        t += 1;
    }
    proof {
        assert(r@ + Seq::<Centroid>::empty() =~= r@);
    }
    r
}

/// `p` in the order of the rule.
pub fn order_palette(p: Vec<Centroid>, order: OrderBy) -> (r: Vec<Centroid>)
    ensures
        r@ == ordered(p@, order),
{
    match order {
        OrderBy::Semantic => semantic_palette(&p),
        _ => sort_palette(&p, order),
    }
}

/// One channel of a blend.
fn blend_channel(a: u8, b: u8) -> (r: u8)
    ensures
        r == blend(a, b),
{
    ((4 * a as u16 + b as u16) / 5) as u8
}

/// The blend of two colours, four parts of `a` and one of `b`.
pub fn merge_rgb(a: &RGB, b: &RGB) -> (r: RGB)
    ensures
        r == merged(*a, *b),
{
    RGB { r: blend_channel(a.r, b.r), g: blend_channel(a.g, b.g), b: blend_channel(a.b, b.b) }
}

/// The text of an entry.
fn entry(c: &RGB) -> (r: String)
    ensures
        r@ == entry_text(*c),
{
    let mut t: Vec<char> = Vec::new();
    t.push('#');
    append(&mut t, &write_channels(c.r, c.g, c.b));
    string_of(&t)
}

/// The eight entries of a palette from its colours in order: the blend of
/// black with the accent, the first six colours, and the blend of white
/// with the accent.
pub fn prepare_colors(p: Vec<Centroid>, accent_color: u32) -> (r: Vec<String>)
    requires
        p.len() >= 6,
    ensures
        texts(r@) == eight_entries(p@, accent_color),
{
    let accent_index: usize = if accent_color > 5 {
        5
    } else {
        accent_color as usize
    };
    let accent = p[accent_index].color.clone();
    let bg_color = merge_rgb(&RGB { r: 0, g: 0, b: 0 }, &accent);
    let fg_color = merge_rgb(&RGB { r: 255, g: 255, b: 255 }, &accent);
    let ghost eight = eight_colors(p@, accent_color);
    let mut r: Vec<String> = Vec::new();
    r.push(entry(&bg_color));
    let mut i: usize = 0;
    while i < 6
        invariant
            i <= 6,
            p.len() >= 6,
            r.len() == i + 1,
            eight == eight_colors(p@, accent_color),
            forall|k: int| 0 <= k < i + 1 ==> (#[trigger] r[k])@ == entry_text(eight[k]),
        decreases 6 - i,
    {
        r.push(entry(&p[i].color));
        proof {
            assert(eight[i + 1] == p@[i as int].color);
        }
        i += 1;
    }
    r.push(entry(&fg_color));
    proof {
        assert(eight[7] == fg_color);
        assert(texts(r@) =~= eight_entries(p@, accent_color));
    }
    r
}

/// An ordered palette has at least as many colours as the rule leaves it:
/// six for the semantic order of at least one colour, and every colour for
/// the other orders.
pub proof fn lemma_ordered_len(p: Seq<Centroid>, order: OrderBy)
    ensures
        order != OrderBy::Semantic ==> ordered(p, order).len() == p.len(),
        order == OrderBy::Semantic && p.len() > 0 ==> ordered(p, order).len() == 6,
{
    if order == OrderBy::Semantic {
        if p.len() > 0 {
            lemma_semantic_len(p, Seq::new(p.len(), |i: int| false), 0);
        }
    } else {
        lemma_sorted_len(p, order);
    }
}

/// Sorting keeps the number of colours.
pub proof fn lemma_sorted_len(p: Seq<Centroid>, order: OrderBy)
    ensures
        sorted_by(p, order).len() == p.len(),
    decreases p.len(),
{
    if p.len() > 0 {
        lemma_sorted_len(p.drop_last(), order);
        let before = sorted_by(p.drop_last(), order);
        lemma_insert_position(before, key_of(p.last(), order), order);
    }
}

/// The place of insertion lies within the colours: the colours from it on
/// have keys above `k`, and the one before it has not.
pub proof fn lemma_insert_position(s: Seq<Centroid>, k: int, order: OrderBy)
    ensures
        0 <= insert_position(s, k, order) <= s.len(),
        forall|j: int| insert_position(s, k, order) <= j < s.len() ==> key_of(s[j], order) > k,
        insert_position(s, k, order) > 0 ==> key_of(s[insert_position(s, k, order) - 1], order)
            <= k,
    decreases s.len(),
{
    if s.len() > 0 && key_of(s.last(), order) > k {
        let t = s.drop_last();
        lemma_insert_position(t, k, order);
        let pos = insert_position(t, k, order);
        assert forall|j: int| pos <= j < s.len() implies key_of(s[j], order) > k by {
            if j < t.len() {
                assert(t[j] == s[j]);
            }
        }
        if pos > 0 {
            assert(t[pos - 1] == s[pos - 1]);
        }
    }
}

/// The semantic order of at least one colour has six, from place `t` on
/// `6 - t`.
pub proof fn lemma_semantic_len(p: Seq<Centroid>, used: Seq<bool>, t: int)
    requires
        p.len() > 0,
        0 <= t <= 6,
    ensures
        semantic_from(p, used, t).len() == 6 - t,
    decreases 6 - t,
{
    if t < 6 {
        let i = taken(p, used, semantic_targets()[t]);
        lemma_semantic_len(p, used.update(i, true), t + 1);
    }
}

/// Appends copies of `entries` to `out`.
fn append_entries(out: &mut Vec<String>, entries: &Vec<String>)
    ensures
        texts(final(out)@) == texts(old(out)@) + texts(entries@),
{
    let mut i: usize = 0;
    while i < entries.len()
        invariant
            i <= entries.len(),
            texts(out@) == texts(old(out)@) + texts(entries@).subrange(0, i as int),
        decreases entries.len() - i,
    {
        let ghost before = out@;
        out.push(entries[i].clone());
        proof {
            assert(texts(out@) =~= texts(before).push(entries@[i as int]@));
            assert(texts(entries@).subrange(0, i + 1) =~= texts(entries@).subrange(
                0,
                i as int,
            ).push(entries@[i as int]@));
        }
        i += 1;
    }
    proof {
        assert(texts(entries@).subrange(0, entries.len() as int) =~= texts(entries@));
    }
}

/// The palette of any colours.
pub fn get_palette(centroids: Vec<Centroid>, accent_color: u32, order: OrderBy) -> (palette: Vec<
    String,
>)
    ensures
        texts(palette@) == palette_of(centroids@, accent_color, order),
        palette.len() == 16,
{
    let padded_palette = add_missing_colors(centroids);
    proof {
        lemma_ordered_len(padded_palette@, order);
    }
    let ordered_palette = order_palette(padded_palette, order);
    let eight = prepare_colors(ordered_palette, accent_color);
    let mut palette: Vec<String> = Vec::new();
    append_entries(&mut palette, &eight);
    append_entries(&mut palette, &eight);
    proof {
        let e = texts(eight@);
        assert(texts(Seq::<String>::empty()) + e =~= e);
        assert(palette.len() == texts(palette@).len());
    }
    palette
}

/// The text of the cache file of a palette: its entries, one on a line.
pub open spec fn palette_file(palette: Seq<Seq<char>>) -> Seq<char> {
    joined(palette, seq!['\n'])
}

/// The text of the cache file of a palette.
pub fn palette_text(palette: &Vec<String>) -> (r: String)
    ensures
        r@ == palette_file(texts(palette@)),
{
    let parts = to_texts(palette);
    let mut sep: Vec<char> = Vec::new();
    sep.push('\n');
    let t = join(&parts, &sep);
    proof {
        assert(sep@ =~= seq!['\n']);
    }
    string_of(&t)
}

/// The palette that a cache gives: the entries of its file where the file
/// could be read, and none where there is no such file, so that the
/// palette has to be extracted.
pub fn cached_palette(cache_file: Option<&str>) -> (r: Option<Vec<String>>)
    ensures
        match cache_file {
            Some(file) => r matches Some(entries) && texts(entries@) == lines_of(file@),
            None => r is None,
        },
{
    match cache_file {
        Some(file) => Some(palette_lines(file)),
        None => None,
    }
}

/// The entries that the text of a cache file holds: its lines.
pub fn palette_lines(file: &str) -> (r: Vec<String>)
    ensures
        texts(r@) == lines_of(file@),
{
    let chars = chars_of(file);
    let ls = lines(&chars);
    to_strings(&ls)
}

/// `c` is a digit or one of the letters `A` to `F`.
pub open spec fn is_upper_hex(c: char) -> bool {
    let n = c as u32;
    (48 <= n <= 57) || (65 <= n <= 70)
}

/// `t` is `#` and six upper-case hexadecimal digits.
pub open spec fn is_entry(t: Seq<char>) -> bool {
    &&& t.len() == 7
    &&& t[0] == '#'
    &&& forall|k: int| 1 <= k < 7 ==> is_upper_hex(#[trigger] t[k])
}

/// The text of any colour is `#` and six upper-case hexadecimal digits.
pub proof fn lemma_entry_text_shape(c: RGB)
    ensures
        is_entry(entry_text(c)),
{
    let t = entry_text(c);
    let h = hex_of_channels(c.r, c.g, c.b);
    assert(h.len() == 6);
    assert(h[0] == crate::number::upper_digit(c.r as int / 16));
    assert(h[1] == crate::number::upper_digit(c.r as int % 16));
    assert(h[2] == crate::number::upper_digit(c.g as int / 16));
    assert(h[3] == crate::number::upper_digit(c.g as int % 16));
    assert(h[4] == crate::number::upper_digit(c.b as int / 16));
    assert(h[5] == crate::number::upper_digit(c.b as int % 16));
    assert forall|k: int| 1 <= k < 7 implies is_upper_hex(#[trigger] t[k]) by {
        assert(t[k] == h[k - 1]);
    }
}

/// A palette always has sixteen entries, each of them `#` and six
/// upper-case hexadecimal digits, and its second half repeats its first.
pub proof fn lemma_palette_shape(centroids: Seq<Centroid>, accent_color: u32, order: OrderBy)
    ensures
        palette_of(centroids, accent_color, order).len() == 16,
        forall|i: int|
            0 <= i < 16 ==> is_entry(#[trigger] palette_of(centroids, accent_color, order)[i]),
        forall|i: int|
            0 <= i < 8 ==> (#[trigger] palette_of(centroids, accent_color, order)[i])
                == palette_of(centroids, accent_color, order)[i + 8],
{
    let p = ordered(padded(centroids), order);
    let eight = eight_entries(p, accent_color);
    let all = palette_of(centroids, accent_color, order);
    assert forall|i: int| 0 <= i < 16 implies is_entry(#[trigger] all[i]) by {
        let k = if i < 8 {
            i
        } else {
            i - 8
        };
        assert(all[i] == eight[k]);
        lemma_entry_text_shape(eight_colors(p, accent_color)[k]);
    }
}

/// Sorting gives the colours in ascending order of the rule's channel.
pub proof fn lemma_sorted_ascending(p: Seq<Centroid>, order: OrderBy)
    ensures
        ascending(sorted_by(p, order), order),
    decreases p.len(),
{
    if p.len() > 0 {
        let before = sorted_by(p.drop_last(), order);
        lemma_sorted_ascending(p.drop_last(), order);
        let k = key_of(p.last(), order);
        let pos = insert_position(before, k, order);
        lemma_insert_position(before, k, order);
        let after = before.insert(pos, p.last());
        assert forall|i: int, j: int| 0 <= i <= j < after.len() implies key_of(after[i], order)
            <= key_of(after[j], order) by {
            if i < pos && j < pos {
                assert(after[i] == before[i] && after[j] == before[j]);
            } else if i < pos && j == pos {
                assert(after[i] == before[i]);
                assert(key_of(before[i], order) <= key_of(before[pos - 1], order));
            } else if i < pos && j > pos {
                assert(after[i] == before[i] && after[j] == before[j - 1]);
            } else if i == pos && j > pos {
                assert(after[j] == before[j - 1]);
            } else if i > pos {
                assert(after[i] == before[i - 1] && after[j] == before[j - 1]);
            }
        }
    }
}

/// Sorting keeps the colours: each occurs as often after as before.
pub proof fn lemma_sorted_permutes(p: Seq<Centroid>, order: OrderBy)
    ensures
        sorted_by(p, order).to_multiset() == p.to_multiset(),
    decreases p.len(),
{
    broadcast use vstd::seq_lib::group_to_multiset_ensures;

    if p.len() > 0 {
        let rest = p.drop_last();
        let before = sorted_by(rest, order);
        lemma_sorted_permutes(rest, order);
        let pos = insert_position(before, key_of(p.last(), order), order);
        lemma_insert_position(before, key_of(p.last(), order), order);
        assert(p == rest.push(p.last()));
        assert(before.insert(pos, p.last()).to_multiset() == before.to_multiset().insert(p.last()));
        assert(rest.push(p.last()).to_multiset() == rest.to_multiset().insert(p.last()));
    }
}

/// In a palette ordered by hue, by saturation or by brightness, the
/// channel never falls from one of the six colours to the next.
pub proof fn lemma_order_respected(centroids: Seq<Centroid>, order: OrderBy)
    requires
        order != OrderBy::Semantic,
    ensures
        ascending(ordered(padded(centroids), order), order),
        ordered(padded(centroids), order).len() >= 6,
{
    lemma_sorted_ascending(padded(centroids), order);
    lemma_sorted_len(padded(centroids), order);
    lemma_padded_len(centroids);
}

/// A padded palette has at least six colours, and begins with the colours
/// it was made from.
pub proof fn lemma_padded_len(p: Seq<Centroid>)
    ensures
        padded(p).len() >= 6,
        padded(p).len() >= p.len(),
        padded(p).subrange(0, p.len() as int) == p,
    decreases 6 - p.len(),
{
    if p.len() < 6 {
        let q = p.push(white());
        lemma_padded_len(q);
        assert(padded(p).subrange(0, p.len() as int) =~= padded(q).subrange(
            0,
            q.len() as int,
        ).subrange(0, p.len() as int));
        assert(q.subrange(0, p.len() as int) =~= p);
    } else {
        assert(p.subrange(0, p.len() as int) =~= p);
    }
}

/// The first entry of a palette is the accent blended into black and the
/// last the accent blended into white: a fifth of each channel, and a
/// fifth of the channel and of four times 255, each rounded down. The
/// accent is the entry after the first by its index.
pub proof fn lemma_accent_propagation(p: Seq<Centroid>, accent_color: u32)
    requires
        p.len() >= 6,
    ensures
        ({
            let eight = eight_colors(p, accent_color);
            let accent = eight[accent_index(accent_color) + 1];
            &&& accent == p[accent_index(accent_color)].color
            &&& eight[0].r == accent.r / 5
            &&& eight[0].g == accent.g / 5
            &&& eight[0].b == accent.b / 5
            &&& eight[7].r == (1020 + accent.r) / 5
            &&& eight[7].g == (1020 + accent.g) / 5
            &&& eight[7].b == (1020 + accent.b) / 5
        }),
{
    let eight = eight_colors(p, accent_color);
    let i = accent_index(accent_color);
    assert(eight[i + 1] == p[i].color);
}

/// The colour taken for a target is unused and no unused colour is closer
/// to the target; of the unused colours as close, none comes before it.
pub proof fn lemma_closest_unused(p: Seq<Centroid>, used: Seq<bool>, target: int, n: int)
    requires
        0 <= n <= p.len(),
        used.len() == p.len(),
    ensures
        match closest_unused(p, used, target, n) {
            Some(b) => {
                &&& 0 <= b < n
                &&& !used[b]
                &&& forall|j: int|
                    0 <= j < n && !used[j] ==> hue_distance(p[b], target) <= hue_distance(
                        p[j],
                        target,
                    )
                &&& forall|j: int|
                    0 <= j < b && !used[j] ==> hue_distance(p[b], target) < hue_distance(
                        p[j],
                        target,
                    )
            },
            None => forall|j: int| 0 <= j < n ==> used[j],
        },
    decreases n,
{
    if n > 0 {
        lemma_closest_unused(p, used, target, n - 1);
    }
}

/// A cache file gives back the palette that was written to it: the lines
/// of the text of a palette are its entries.
pub proof fn lemma_palette_file_round_trip(
    centroids: Seq<Centroid>,
    accent_color: u32,
    order: OrderBy,
)
    ensures
        lines_of(palette_file(palette_of(centroids, accent_color, order))) == palette_of(
            centroids,
            accent_color,
            order,
        ),
{
    let p = palette_of(centroids, accent_color, order);
    lemma_palette_shape(centroids, accent_color, order);
    assert forall|i: int| 0 <= i < p.len() implies crate::text::without(#[trigger] p[i], '\n')
        && p[i].len() > 0 && p[i].last() != '\r' by {
        assert(is_entry(p[i]));
        assert forall|k: int| 0 <= k < p[i].len() implies p[i][k] != '\n' by {
            if k >= 1 {
                assert(is_upper_hex(p[i][k]));
            }
        }
        assert(is_upper_hex(p[i][6]));
    }
    crate::text::lemma_lines_of_joined(p);
}

} // verus!
