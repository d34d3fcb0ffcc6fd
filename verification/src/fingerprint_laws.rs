//! What holds of cache keys and cache paths: equal inputs give equal
//! paths; inputs that differ in any field have different keys; and keys
//! with different SHA-256 digests give different paths.

use crate::display::DisplayModel;
use crate::fingerprint::{
    bool_text, extension_of, file_name_of, fingerprint, framed, in_directory, palette_cache_name,
    palette_key, sha256, wallpaper_cache_name, wallpaper_key,
};
use crate::image_ops::OperationsModel;
use crate::number::{
    decimal_digits, lower_digit, lower_hex, lower_hex_byte, signed_decimal, upper_digit,
};
use crate::rwal_params::{order_tag, OrderBy, RwalModel};
use vstd::prelude::*;

verus! {

/// The fields of `parts` one after the other, each with its length.
pub open spec fn frames(parts: Seq<Seq<char>>) -> Seq<char>
    decreases parts.len(),
{
    if parts.len() == 0 {
        Seq::<char>::empty()
    } else {
        framed(parts[0]) + frames(parts.drop_first())
    }
}

/// The fields of the key of a wallpaper, as texts, in the order of the key.
pub open spec fn wallpaper_parts(image_name: Seq<char>, d: DisplayModel, o: OperationsModel) -> Seq<
    Seq<char>,
> {
    seq![
        image_name,
        d.name,
        decimal_digits(d.w as nat),
        decimal_digits(d.h as nat),
        decimal_digits(d.x as nat),
        decimal_digits(d.y as nat),
        o.contrast,
        signed_decimal(o.brightness as int),
        signed_decimal(o.hue as int),
        o.blur,
        bool_text(o.invert),
        bool_text(o.flip_h),
        bool_text(o.flip_v),
    ]
}

/// The fields of the key of a palette, as texts, in the order of the key.
pub open spec fn palette_parts(image_name: Seq<char>, o: OperationsModel, r: RwalModel) -> Seq<
    Seq<char>,
> {
    seq![
        image_name,
        signed_decimal(o.brightness as int),
        o.contrast,
        signed_decimal(o.hue as int),
        bool_text(o.invert),
        order_tag(r.order),
        decimal_digits(r.accent_color as nat),
        r.clamp_range.0,
        r.clamp_range.1,
        decimal_digits(r.thumb_range.0 as nat),
        decimal_digits(r.thumb_range.1 as nat),
        decimal_digits(r.colors as nat),
    ]
}

/// A text in front of two texts that differ gives two texts that differ.
pub proof fn lemma_same_front(x: Seq<char>, u: Seq<char>, v: Seq<char>)
    requires
        x + u == x + v,
    ensures
        u == v,
{
    assert((x + u).subrange(x.len() as int, (x + u).len() as int) =~= u);
    assert((x + v).subrange(x.len() as int, (x + v).len() as int) =~= v);
}

/// The decimal digits of a number are at least one, each of them one of
/// `0` to `9`, and for a number of two digits or more at least two.
pub proof fn lemma_decimal_digits_shape(n: nat)
    ensures
        decimal_digits(n).len() >= 1,
        n >= 10 ==> decimal_digits(n).len() >= 2,
        forall|k: int|
            0 <= k < decimal_digits(n).len() ==> 48 <= (#[trigger] decimal_digits(n)[k]) as u32
                <= 57,
    decreases n,
{
    if n >= 10 {
        lemma_decimal_digits_shape(n / 10);
        let head = decimal_digits(n / 10);
        assert forall|k: int| 0 <= k < decimal_digits(n).len() implies 48 <= (
        #[trigger] decimal_digits(n)[k]) as u32 <= 57 by {
            if k < head.len() {
                assert(decimal_digits(n)[k] == head[k]);
            }
        }
    }
}

/// Two numbers with the same decimal digits are the same number.
pub proof fn lemma_decimal_digits_injective(a: nat, b: nat)
    requires
        decimal_digits(a) == decimal_digits(b),
    ensures
        a == b,
    decreases a,
{
    lemma_decimal_digits_shape(a);
    lemma_decimal_digits_shape(b);
    if a < 10 {
        assert(decimal_digits(a).len() == 1);
        assert(decimal_digits(a)[0] == upper_digit(a as int));
        assert(decimal_digits(b)[0] == upper_digit(b as int));
    } else {
        assert(b >= 10);
        let da = decimal_digits(a / 10);
        let db = decimal_digits(b / 10);
        assert(decimal_digits(a).drop_last() =~= da);
        assert(decimal_digits(b).drop_last() =~= db);
        lemma_decimal_digits_injective(a / 10, b / 10);
        assert(decimal_digits(a).last() == upper_digit((a % 10) as int));
        assert(decimal_digits(b).last() == upper_digit((b % 10) as int));
    }
}

/// Two numbers with the same signed decimal text are the same number.
pub proof fn lemma_signed_decimal_injective(a: int, b: int)
    requires
        signed_decimal(a) == signed_decimal(b),
    ensures
        a == b,
{
    if a < 0 {
        lemma_decimal_digits_shape((-a) as nat);
        assert(signed_decimal(a)[0] == '-');
        if b >= 0 {
            lemma_decimal_digits_shape(b as nat);
        } else {
            lemma_decimal_digits_shape((-b) as nat);
            lemma_same_front(seq!['-'], decimal_digits((-a) as nat), decimal_digits((-b) as nat));
            lemma_decimal_digits_injective((-a) as nat, (-b) as nat);
        }
    } else {
        lemma_decimal_digits_shape(a as nat);
        if b < 0 {
            assert(signed_decimal(b)[0] == '-');
        } else {
            lemma_decimal_digits_injective(a as nat, b as nat);
        }
    }
}

/// The two truth values have different texts.
pub proof fn lemma_bool_text_injective(a: bool, b: bool)
    requires
        bool_text(a) == bool_text(b),
    ensures
        a == b,
{
    reveal_strlit("true");
    reveal_strlit("false");
    assert("true"@.len() == 4);
    assert("false"@.len() == 5);
}

/// The four rules of order have different tags.
pub proof fn lemma_order_tag_injective(a: OrderBy, b: OrderBy)
    requires
        order_tag(a) == order_tag(b),
    ensures
        a == b,
{
    reveal_strlit("H");
    reveal_strlit("S");
    reveal_strlit("V");
    reveal_strlit("sem");
    assert("H"@[0] == 'H');
    assert("S"@[0] == 'S');
    assert("V"@[0] == 'V');
    assert("sem"@.len() == 3);
    assert("H"@.len() == 1);
    assert("S"@.len() == 1);
    assert("V"@.len() == 1);
}

/// Two texts that begin with a field each are equal only if the fields
/// are equal and what follows them is equal.
pub proof fn lemma_framed_splits(x: Seq<char>, r1: Seq<char>, y: Seq<char>, r2: Seq<char>)
    requires
        framed(x) + r1 == framed(y) + r2,
    ensures
        x == y,
        r1 == r2,
{
    let dx = decimal_digits(x.len());
    let dy = decimal_digits(y.len());
    let w1 = framed(x) + r1;
    let w2 = framed(y) + r2;
    lemma_decimal_digits_shape(x.len());
    lemma_decimal_digits_shape(y.len());
    let m = dx.len() as int;
    let n = dy.len() as int;
    assert(w1[m] == ':');
    assert(w2[n] == ':');
    assert forall|k: int| 0 <= k < m implies w1[k] == dx[k] by {}
    assert forall|k: int| 0 <= k < n implies w2[k] == dy[k] by {}
    if m < n {
        assert(w2[m] == dy[m]);
        assert(48 <= dy[m] as u32 <= 57);
    } else if n < m {
        assert(w1[n] == dx[n]);
        assert(48 <= dx[n] as u32 <= 57);
    }
    assert(m == n);
    assert(dx =~= dy) by {
        assert forall|k: int| 0 <= k < m implies dx[k] == dy[k] by {
            assert(w1[k] == dx[k]);
            assert(w2[k] == dy[k]);
        }
    }
    lemma_decimal_digits_injective(x.len(), y.len());
    assert(w1.subrange(m + 1, m + 1 + x.len()) =~= x);
    assert(w2.subrange(n + 1, n + 1 + y.len()) =~= y);
    assert(w1.subrange(m + 1 + x.len(), w1.len() as int) =~= r1);
    assert(w2.subrange(n + 1 + y.len(), w2.len() as int) =~= r2);
}

/// A field behind fields is the fields and then the field.
pub proof fn lemma_frames_push(p: Seq<Seq<char>>, x: Seq<char>)
    ensures
        frames(p.push(x)) == frames(p) + framed(x),
    decreases p.len(),
{
    let q = p.push(x);
    if p.len() == 0 {
        assert(q.drop_first().len() == 0);
        assert(frames(q.drop_first()) =~= Seq::<char>::empty());
        assert(q[0] == x);
        assert(frames(q) =~= framed(x));
        assert(frames(p) + framed(x) =~= framed(x));
    } else {
        lemma_frames_push(p.drop_first(), x);
        assert(q.drop_first() =~= p.drop_first().push(x));
        assert(q[0] == p[0]);
        assert(framed(p[0]) + (frames(p.drop_first()) + framed(x)) =~= (framed(p[0]) + frames(
            p.drop_first(),
        )) + framed(x));
    }
}

/// The first `k + 1` fields are the first `k` and then field `k`.
pub proof fn lemma_frames_step(p: Seq<Seq<char>>, k: int)
    requires
        0 <= k < p.len(),
    ensures
        frames(p.subrange(0, k + 1)) == frames(p.subrange(0, k)) + framed(p[k]),
{
    assert(p.subrange(0, k + 1) =~= p.subrange(0, k).push(p[k]));
    lemma_frames_push(p.subrange(0, k), p[k]);
}

/// As many fields written one after the other give the same text only if
/// they are the same fields.
pub proof fn lemma_frames_injective(a: Seq<Seq<char>>, b: Seq<Seq<char>>)
    requires
        a.len() == b.len(),
        frames(a) == frames(b),
    ensures
        a == b,
    decreases a.len(),
{
    if a.len() == 0 {
        assert(a =~= b);
    } else {
        lemma_framed_splits(a[0], frames(a.drop_first()), b[0], frames(b.drop_first()));
        lemma_frames_injective(a.drop_first(), b.drop_first());
        assert(a =~= seq![a[0]] + a.drop_first());
        assert(b =~= seq![b[0]] + b.drop_first());
    }
}

/// The key of a wallpaper is its fields one after the other.
pub proof fn lemma_wallpaper_key_is_frames(n: Seq<char>, d: DisplayModel, o: OperationsModel)
    ensures
        wallpaper_key(n, d, o) == frames(wallpaper_parts(n, d, o)),
{
    let p = wallpaper_parts(n, d, o);
    assert(p.subrange(0, 13) =~= p);
    let e = Seq::<char>::empty();
    assert(frames(p.subrange(0, 0)) =~= e);
    assert(e + framed(p[0]) =~= framed(p[0]));
    lemma_frames_step(p, 0);
    lemma_frames_step(p, 1);
    lemma_frames_step(p, 2);
    lemma_frames_step(p, 3);
    lemma_frames_step(p, 4);
    lemma_frames_step(p, 5);
    lemma_frames_step(p, 6);
    lemma_frames_step(p, 7);
    lemma_frames_step(p, 8);
    lemma_frames_step(p, 9);
    lemma_frames_step(p, 10);
    lemma_frames_step(p, 11);
    lemma_frames_step(p, 12);
}

/// The key of a palette is its fields one after the other.
pub proof fn lemma_palette_key_is_frames(n: Seq<char>, o: OperationsModel, r: RwalModel)
    ensures
        palette_key(n, o, r) == frames(palette_parts(n, o, r)),
{
    let p = palette_parts(n, o, r);
    assert(p.subrange(0, 12) =~= p);
    let e = Seq::<char>::empty();
    assert(frames(p.subrange(0, 0)) =~= e);
    assert(e + framed(p[0]) =~= framed(p[0]));
    lemma_frames_step(p, 0);
    lemma_frames_step(p, 1);
    lemma_frames_step(p, 2);
    lemma_frames_step(p, 3);
    lemma_frames_step(p, 4);
    lemma_frames_step(p, 5);
    lemma_frames_step(p, 6);
    lemma_frames_step(p, 7);
    lemma_frames_step(p, 8);
    lemma_frames_step(p, 9);
    lemma_frames_step(p, 10);
    lemma_frames_step(p, 11);
}

/// Two inputs with one key for their wallpapers are one input: the key
/// holds the name of the image, the display and the operations, each in
/// full.
pub proof fn lemma_wallpaper_key_injective(
    n1: Seq<char>,
    d1: DisplayModel,
    o1: OperationsModel,
    n2: Seq<char>,
    d2: DisplayModel,
    o2: OperationsModel,
)
    requires
        wallpaper_key(n1, d1, o1) == wallpaper_key(n2, d2, o2),
    ensures
        n1 == n2,
        d1 == d2,
        o1 == o2,
{
    let a = wallpaper_parts(n1, d1, o1);
    let b = wallpaper_parts(n2, d2, o2);
    lemma_wallpaper_key_is_frames(n1, d1, o1);
    lemma_wallpaper_key_is_frames(n2, d2, o2);
    lemma_frames_injective(a, b);
    assert(a[0] == b[0] && a[1] == b[1] && a[2] == b[2] && a[3] == b[3] && a[4] == b[4] && a[5]
        == b[5] && a[6] == b[6] && a[7] == b[7] && a[8] == b[8] && a[9] == b[9] && a[10] == b[10]
        && a[11] == b[11] && a[12] == b[12]);
    lemma_decimal_digits_injective(d1.w as nat, d2.w as nat);
    lemma_decimal_digits_injective(d1.h as nat, d2.h as nat);
    lemma_decimal_digits_injective(d1.x as nat, d2.x as nat);
    lemma_decimal_digits_injective(d1.y as nat, d2.y as nat);
    lemma_signed_decimal_injective(o1.brightness as int, o2.brightness as int);
    lemma_signed_decimal_injective(o1.hue as int, o2.hue as int);
    lemma_bool_text_injective(o1.invert, o2.invert);
    lemma_bool_text_injective(o1.flip_h, o2.flip_h);
    lemma_bool_text_injective(o1.flip_v, o2.flip_v);
}

/// Two inputs with one key for their palettes are one input.
pub proof fn lemma_palette_key_injective(
    n1: Seq<char>,
    o1: OperationsModel,
    r1: RwalModel,
    n2: Seq<char>,
    o2: OperationsModel,
    r2: RwalModel,
)
    requires
        palette_key(n1, o1, r1) == palette_key(n2, o2, r2),
    ensures
        n1 == n2,
        o1.brightness == o2.brightness,
        o1.contrast == o2.contrast,
        o1.hue == o2.hue,
        o1.invert == o2.invert,
        r1 == r2,
{
    let a = palette_parts(n1, o1, r1);
    let b = palette_parts(n2, o2, r2);
    lemma_palette_key_is_frames(n1, o1, r1);
    lemma_palette_key_is_frames(n2, o2, r2);
    lemma_frames_injective(a, b);
    assert(a[0] == b[0] && a[1] == b[1] && a[2] == b[2] && a[3] == b[3] && a[4] == b[4] && a[5]
        == b[5] && a[6] == b[6] && a[7] == b[7] && a[8] == b[8] && a[9] == b[9] && a[10] == b[10]
        && a[11] == b[11]);
    lemma_signed_decimal_injective(o1.brightness as int, o2.brightness as int);
    lemma_signed_decimal_injective(o1.hue as int, o2.hue as int);
    lemma_bool_text_injective(o1.invert, o2.invert);
    lemma_order_tag_injective(r1.order, r2.order);
    lemma_decimal_digits_injective(r1.accent_color as nat, r2.accent_color as nat);
    lemma_decimal_digits_injective(r1.thumb_range.0 as nat, r2.thumb_range.0 as nat);
    lemma_decimal_digits_injective(r1.thumb_range.1 as nat, r2.thumb_range.1 as nat);
    lemma_decimal_digits_injective(r1.colors as nat, r2.colors as nat);
}

/// Fingerprint sensitivity, for the keys of wallpapers: inputs that differ
/// in the name of the image, in the display or in the operations have
/// different keys.
pub proof fn lemma_wallpaper_key_sensitive(
    n1: Seq<char>,
    d1: DisplayModel,
    o1: OperationsModel,
    n2: Seq<char>,
    d2: DisplayModel,
    o2: OperationsModel,
)
    requires
        n1 != n2 || d1 != d2 || o1 != o2,
    ensures
        wallpaper_key(n1, d1, o1) != wallpaper_key(n2, d2, o2),
{
    if wallpaper_key(n1, d1, o1) == wallpaper_key(n2, d2, o2) {
        lemma_wallpaper_key_injective(n1, d1, o1, n2, d2, o2);
    }
}

/// Fingerprint sensitivity, for the keys of palettes: inputs that differ in
/// the name of the image, in an operation that changes colours or in a
/// setting of extraction have different keys.
pub proof fn lemma_palette_key_sensitive(
    n1: Seq<char>,
    o1: OperationsModel,
    r1: RwalModel,
    n2: Seq<char>,
    o2: OperationsModel,
    r2: RwalModel,
)
    requires
        n1 != n2 || o1.brightness != o2.brightness || o1.contrast != o2.contrast || o1.hue
            != o2.hue || o1.invert != o2.invert || r1 != r2,
    ensures
        palette_key(n1, o1, r1) != palette_key(n2, o2, r2),
{
    if palette_key(n1, o1, r1) == palette_key(n2, o2, r2) {
        lemma_palette_key_injective(n1, o1, r1, n2, o2, r2);
    }
}

/// The hexadecimal text of bytes has two characters for each byte, none of
/// them a `.` or a `/`.
pub proof fn lemma_lower_hex_shape(bytes: Seq<u8>)
    ensures
        lower_hex(bytes).len() == 2 * bytes.len(),
        forall|k: int|
            0 <= k < lower_hex(bytes).len() ==> lower_hex(bytes)[k] != '.' && lower_hex(bytes)[k]
                != '/',
    decreases bytes.len(),
{
    if bytes.len() > 0 {
        lemma_lower_hex_shape(bytes.drop_last());
        let head = lower_hex(bytes.drop_last());
        let tail = lower_hex_byte(bytes.last());
        assert forall|k: int| 0 <= k < lower_hex(bytes).len() implies lower_hex(bytes)[k] != '.'
            && lower_hex(bytes)[k] != '/' by {
            if k >= head.len() {
                assert(lower_hex(bytes)[k] == tail[k - head.len()]);
            } else {
                assert(lower_hex(bytes)[k] == head[k]);
            }
        }
    }
}

/// Two sequences of bytes with the same hexadecimal text are the same.
pub proof fn lemma_lower_hex_injective(a: Seq<u8>, b: Seq<u8>)
    requires
        lower_hex(a) == lower_hex(b),
    ensures
        a == b,
    decreases a.len(),
{
    lemma_lower_hex_shape(a);
    lemma_lower_hex_shape(b);
    if a.len() == 0 {
        assert(a =~= b);
    } else {
        let ha = lower_hex(a.drop_last());
        let hb = lower_hex(b.drop_last());
        let ta = lower_hex_byte(a.last());
        let tb = lower_hex_byte(b.last());
        lemma_lower_hex_shape(a.drop_last());
        lemma_lower_hex_shape(b.drop_last());
        assert(lower_hex(a).subrange(0, ha.len() as int) =~= ha);
        assert(lower_hex(b).subrange(0, hb.len() as int) =~= hb);
        assert(lower_hex(a)[ha.len() as int] == ta[0]);
        assert(lower_hex(a)[(ha.len() + 1) as int] == ta[1]);
        assert(lower_hex(b)[hb.len() as int] == tb[0]);
        assert(lower_hex(b)[(hb.len() + 1) as int] == tb[1]);
        lemma_lower_hex_injective(a.drop_last(), b.drop_last());
        assert(lower_digit(a.last() as int / 16) == lower_digit(b.last() as int / 16));
        assert(lower_digit(a.last() as int % 16) == lower_digit(b.last() as int % 16));
        assert(a.last() == b.last());
        assert(a =~= a.drop_last().push(a.last()));
        assert(b =~= b.drop_last().push(b.last()));
    }
}

/// Two keys whose digests differ have different fingerprints.
pub proof fn lemma_fingerprint_follows_digest(k1: Seq<char>, k2: Seq<char>)
    requires
        sha256(vstd::utf8::encode_utf8(k1)) != sha256(vstd::utf8::encode_utf8(k2)),
    ensures
        fingerprint(k1) != fingerprint(k2),
{
    if fingerprint(k1) == fingerprint(k2) {
        lemma_lower_hex_injective(
            sha256(vstd::utf8::encode_utf8(k1)),
            sha256(vstd::utf8::encode_utf8(k2)),
        );
    }
}

/// Two hexadecimal texts that differ, each with a `.` and an extension
/// behind it, are names that differ.
pub proof fn lemma_names_differ(a: Seq<u8>, b: Seq<u8>, e1: Seq<char>, e2: Seq<char>)
    requires
        lower_hex(a) != lower_hex(b),
    ensures
        lower_hex(a) + seq!['.'] + e1 != lower_hex(b) + seq!['.'] + e2,
{
    let x = lower_hex(a);
    let y = lower_hex(b);
    let n1 = x + seq!['.'] + e1;
    let n2 = y + seq!['.'] + e2;
    lemma_lower_hex_shape(a);
    lemma_lower_hex_shape(b);
    if n1 == n2 {
        assert(n1[x.len() as int] == '.');
        assert(n2[y.len() as int] == '.');
        if x.len() < y.len() {
            assert(n2[x.len() as int] == y[x.len() as int]);
        } else if y.len() < x.len() {
            assert(n1[y.len() as int] == x[y.len() as int]);
        } else {
            assert(n1.subrange(0, x.len() as int) =~= x);
            assert(n2.subrange(0, y.len() as int) =~= y);
        }
    }
}

/// Fingerprint sensitivity, for wallpapers: two inputs whose keys SHA-256
/// gives different digests have different cache files in any directory.
pub proof fn lemma_wallpaper_path_follows_digest(
    p1: Seq<char>,
    d1: DisplayModel,
    o1: OperationsModel,
    p2: Seq<char>,
    d2: DisplayModel,
    o2: OperationsModel,
    dir: Seq<char>,
)
    requires
        sha256(vstd::utf8::encode_utf8(wallpaper_key(file_name_of(p1), d1, o1))) != sha256(
            vstd::utf8::encode_utf8(wallpaper_key(file_name_of(p2), d2, o2)),
        ),
    ensures
        wallpaper_cache_name(p1, d1, o1) != wallpaper_cache_name(p2, d2, o2),
        in_directory(dir, wallpaper_cache_name(p1, d1, o1)) != in_directory(
            dir,
            wallpaper_cache_name(p2, d2, o2),
        ),
{
    let k1 = wallpaper_key(file_name_of(p1), d1, o1);
    let k2 = wallpaper_key(file_name_of(p2), d2, o2);
    lemma_fingerprint_follows_digest(k1, k2);
    lemma_names_differ(
        sha256(vstd::utf8::encode_utf8(k1)),
        sha256(vstd::utf8::encode_utf8(k2)),
        extension_of(file_name_of(p1)),
        extension_of(file_name_of(p2)),
    );
    let n1 = wallpaper_cache_name(p1, d1, o1);
    let n2 = wallpaper_cache_name(p2, d2, o2);
    if in_directory(dir, n1) == in_directory(dir, n2) {
        assert(dir + seq!['/'] + n1 =~= (dir + seq!['/']) + n1);
        assert(dir + seq!['/'] + n2 =~= (dir + seq!['/']) + n2);
        lemma_same_front(dir + seq!['/'], n1, n2);
    }
}

/// Fingerprint sensitivity, for palettes: two inputs whose keys SHA-256
/// gives different digests have different cache files in any directory.
pub proof fn lemma_palette_path_follows_digest(
    p1: Seq<char>,
    o1: OperationsModel,
    r1: RwalModel,
    p2: Seq<char>,
    o2: OperationsModel,
    r2: RwalModel,
    dir: Seq<char>,
)
    requires
        sha256(vstd::utf8::encode_utf8(palette_key(file_name_of(p1), o1, r1))) != sha256(
            vstd::utf8::encode_utf8(palette_key(file_name_of(p2), o2, r2)),
        ),
    ensures
        palette_cache_name(p1, o1, r1) != palette_cache_name(p2, o2, r2),
        in_directory(dir, palette_cache_name(p1, o1, r1)) != in_directory(
            dir,
            palette_cache_name(p2, o2, r2),
        ),
{
    let k1 = palette_key(file_name_of(p1), o1, r1);
    let k2 = palette_key(file_name_of(p2), o2, r2);
    lemma_fingerprint_follows_digest(k1, k2);
    let n1 = palette_cache_name(p1, o1, r1);
    let n2 = palette_cache_name(p2, o2, r2);
    if in_directory(dir, n1) == in_directory(dir, n2) {
        assert(dir + seq!['/'] + n1 =~= (dir + seq!['/']) + n1);
        assert(dir + seq!['/'] + n2 =~= (dir + seq!['/']) + n2);
        lemma_same_front(dir + seq!['/'], n1, n2);
    }
}

/// Fingerprint determinism: the cache file of a wallpaper depends on the
/// directory, the name of the image file, the display and the operations,
/// and on nothing else; in particular not on where the image lies.
pub proof fn lemma_wallpaper_path_deterministic(
    p1: Seq<char>,
    p2: Seq<char>,
    d: DisplayModel,
    o: OperationsModel,
    dir: Seq<char>,
)
    requires
        file_name_of(p1) == file_name_of(p2),
    ensures
        in_directory(dir, wallpaper_cache_name(p1, d, o)) == in_directory(
            dir,
            wallpaper_cache_name(p2, d, o),
        ),
{
}

/// Fingerprint determinism: the cache file of a palette depends on the
/// directory, the name of the image file, the operations and the settings
/// of extraction, and on nothing else.
pub proof fn lemma_palette_path_deterministic(
    p1: Seq<char>,
    p2: Seq<char>,
    o: OperationsModel,
    r: RwalModel,
    dir: Seq<char>,
)
    requires
        file_name_of(p1) == file_name_of(p2),
    ensures
        in_directory(dir, palette_cache_name(p1, o, r)) == in_directory(
            dir,
            palette_cache_name(p2, o, r),
        ),
{
}

} // verus!
