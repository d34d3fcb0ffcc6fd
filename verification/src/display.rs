//! Displays of the virtual desktop, the box that encloses them, and the
//! size to which an image is scaled to cover that box.

use crate::number::{parsed_within, read_number};
use crate::text::{chars_of, split, split_on, string_of, views};
use vstd::prelude::*;

verus! {

/// A named output of the virtual desktop: its size and the position of its
/// top-left corner.
pub struct Display {
    pub name: String,
    pub w: u32,
    pub h: u32,
    pub x: u32,
    pub y: u32,
}

/// What a display holds.
pub struct DisplayModel {
    pub name: Seq<char>,
    pub w: u32,
    pub h: u32,
    pub x: u32,
    pub y: u32,
}

impl View for Display {
    type V = DisplayModel;

    open spec fn view(&self) -> DisplayModel {
        DisplayModel { name: self.name@, w: self.w, h: self.h, x: self.x, y: self.y }
    }
}

/// The views of the displays of a vector.
pub open spec fn display_views(v: Seq<Display>) -> Seq<DisplayModel> {
    Seq::new(v.len(), |i: int| v[i]@)
}

impl Clone for Display {
    fn clone(&self) -> (r: Self)
        ensures
            r == *self,
    {
        Display { name: self.name.clone(), w: self.w, h: self.h, x: self.x, y: self.y }
    }
}

/// The number that a field of a display's description stands for: its
/// decimal value, or 0 where it is not a number that fits.
pub open spec fn field_value(field: Seq<char>) -> int {
    match parsed_within(field, 10, false, 0, u32::MAX as int) {
        Some(v) => v,
        None => 0,
    }
}

/// A field of a display's description as a number.
fn read_field(field: &Vec<char>) -> (v: u32)
    ensures
        v == field_value(field@),
{
    match read_number(field, 10, false, 0, 0xffff_ffff) {
        Some((_, magnitude)) => magnitude as u32,
        None => 0,
    }
}

impl Display {
    pub fn new(name: String, w: u32, h: u32, x: u32, y: u32) -> (d: Self)
        ensures
            d == (Display { name, w, h, x, y }),
    {
        Display { name, w, h, x, y }
    }

    /// The display that `name:w:h:x:y` describes. A description must have
    /// exactly five fields; a size or position that is no number counts as 0.
    pub fn from_str(s: &str) -> (r: Result<Display, String>)
        ensures
            ({
                let fields = split_on(s@, ':');
                match r {
                    Ok(d) => {
                        &&& fields.len() == 5
                        &&& d.name@ == fields[0]
                        &&& d.w == field_value(fields[1])
                        &&& d.h == field_value(fields[2])
                        &&& d.x == field_value(fields[3])
                        &&& d.y == field_value(fields[4])
                    },
                    Err(e) => fields.len() != 5 && e@ == "Unable to parse string"@,
                }
            }),
    {
        let chars = chars_of(s);
        match display_of_fields(&chars) {
            Some(d) => Ok(d),
            None => Err(String::from_str("Unable to parse string")),
        }
    }
}

/// The display that the five fields of `description` give, if it has five.
pub fn display_of_fields(description: &Vec<char>) -> (r: Option<Display>)
    ensures
        ({
            let fields = split_on(description@, ':');
            match r {
                Some(d) => {
                    &&& fields.len() == 5
                    &&& d.name@ == fields[0]
                    &&& d.w == field_value(fields[1])
                    &&& d.h == field_value(fields[2])
                    &&& d.x == field_value(fields[3])
                    &&& d.y == field_value(fields[4])
                },
                None => fields.len() != 5,
            }
        }),
{
    let fields = split(description, ':');
    if fields.len() != 5 {
        return None;
    }
    proof {
        assert(views(fields@)[0] == fields@[0]@);
        assert(views(fields@)[1] == fields@[1]@);
        assert(views(fields@)[2] == fields@[2]@);
        assert(views(fields@)[3] == fields@[3]@);
        assert(views(fields@)[4] == fields@[4]@);
    }
    Some(
        Display {
            name: string_of(&fields[0]),
            w: read_field(&fields[1]),
            h: read_field(&fields[2]),
            x: read_field(&fields[3]),
            y: read_field(&fields[4]),
        },
    )
}

/// The right edge of the box that encloses `displays`: the largest
/// `x + w`, and 0 for no display.
pub open spec fn bounding_width(displays: Seq<Display>) -> int
    decreases displays.len(),
{
    if displays.len() == 0 {
        0
    } else {
        let rest = bounding_width(displays.drop_last());
        let edge = displays.last().x + displays.last().w;
        if edge > rest {
            edge
        } else {
            rest
        }
    }
}

/// The bottom edge of the box that encloses `displays`: the largest
/// `y + h`, and 0 for no display.
pub open spec fn bounding_height(displays: Seq<Display>) -> int
    decreases displays.len(),
{
    if displays.len() == 0 {
        0
    } else {
        let rest = bounding_height(displays.drop_last());
        let edge = displays.last().y + displays.last().h;
        if edge > rest {
            edge
        } else {
            rest
        }
    }
}

/// `v` as a `u32`, or the largest `u32` where it does not fit.
pub open spec fn saturated(v: int) -> u32 {
    if v > u32::MAX {
        u32::MAX
    } else if v < 0 {
        0
    } else {
        v as u32
    }
}

/// The box reaches every display's right edge, and is the edge of one of
/// them unless there is none.
pub proof fn lemma_bounding_width(displays: Seq<Display>)
    ensures
        forall|i: int|
            0 <= i < displays.len() ==> displays[i].x + displays[i].w <= bounding_width(displays),
        displays.len() == 0 ==> bounding_width(displays) == 0,
        displays.len() > 0 ==> exists|i: int|
            0 <= i < displays.len() && displays[i].x + displays[i].w == bounding_width(displays),
    decreases displays.len(),
{
    if displays.len() > 0 {
        let rest = displays.drop_last();
        lemma_bounding_width(rest);
        assert forall|i: int| 0 <= i < displays.len() implies displays[i].x + displays[i].w
            <= bounding_width(displays) by {
            if i < rest.len() {
                assert(rest[i] == displays[i]);
            }
        }
        let last = displays.len() - 1;
        if displays[last].x + displays[last].w > bounding_width(rest) || rest.len() == 0 {
            assert(displays[last].x + displays[last].w == bounding_width(displays));
        } else {
            let i = choose|i: int|
                0 <= i < rest.len() && rest[i].x + rest[i].w == bounding_width(rest);
            assert(rest[i] == displays[i]);
        }
    }
}

/// The same for the bottom edge.
pub proof fn lemma_bounding_height(displays: Seq<Display>)
    ensures
        forall|i: int|
            0 <= i < displays.len() ==> displays[i].y + displays[i].h <= bounding_height(displays),
        displays.len() == 0 ==> bounding_height(displays) == 0,
        displays.len() > 0 ==> exists|i: int|
            0 <= i < displays.len() && displays[i].y + displays[i].h == bounding_height(displays),
    decreases displays.len(),
{
    if displays.len() > 0 {
        let rest = displays.drop_last();
        lemma_bounding_height(rest);
        assert forall|i: int| 0 <= i < displays.len() implies displays[i].y + displays[i].h
            <= bounding_height(displays) by {
            if i < rest.len() {
                assert(rest[i] == displays[i]);
            }
        }
        let last = displays.len() - 1;
        if displays[last].y + displays[last].h > bounding_height(rest) || rest.len() == 0 {
            assert(displays[last].y + displays[last].h == bounding_height(displays));
        } else {
            let i = choose|i: int|
                0 <= i < rest.len() && rest[i].y + rest[i].h == bounding_height(rest);
            assert(rest[i] == displays[i]);
        }
    }
}

/// The width of the smallest box at the origin that encloses every display.
/// A width beyond `u32` is given as the largest `u32`.
pub fn displays_max_width(displays: &Vec<Display>) -> (res: u32)
    ensures
        res == saturated(bounding_width(displays@)),
{
    let mut res: u64 = 0;
    let mut i: usize = 0;
    while i < displays.len()
        invariant
            i <= displays.len(),
            res == bounding_width(displays@.subrange(0, i as int)),
        decreases displays.len() - i,
    {
        proof {
            let next = displays@.subrange(0, i + 1);
            assert(next.drop_last() == displays@.subrange(0, i as int));
            assert(next.last() == displays@[i as int]);
        }
        let edge: u64 = displays[i].w as u64 + displays[i].x as u64;
        if edge > res {
            res = edge;
        }
        i += 1;
    }
    proof {
        assert(displays@.subrange(0, displays.len() as int) == displays@);
    }
    if res > 0xffff_ffff {
        0xffff_ffff
    } else {
        res as u32
    }
}

/// The height of the smallest box at the origin that encloses every
/// display. A height beyond `u32` is given as the largest `u32`.
pub fn displays_max_height(displays: &Vec<Display>) -> (res: u32)
    ensures
        res == saturated(bounding_height(displays@)),
{
    let mut res: u64 = 0;
    let mut i: usize = 0;
    while i < displays.len()
        invariant
            i <= displays.len(),
            res == bounding_height(displays@.subrange(0, i as int)),
        decreases displays.len() - i,
    {
        proof {
            let next = displays@.subrange(0, i + 1);
            assert(next.drop_last() == displays@.subrange(0, i as int));
            assert(next.last() == displays@[i as int]);
        }
        let edge: u64 = displays[i].h as u64 + displays[i].y as u64;
        if edge > res {
            res = edge;
        }
        i += 1;
    }
    proof {
        assert(displays@.subrange(0, displays.len() as int) == displays@);
    }
    if res > 0xffff_ffff {
        0xffff_ffff
    } else {
        res as u32
    }
}

/// The size of an image of `iw` by `ih` scaled, with its proportions kept,
/// by the smaller of the two factors that make it cover `mw` by `mh`: the
/// larger of `mw / iw` and `mh / ih`. Each side is rounded down. An image
/// without area stays without area.
pub open spec fn cover_size(iw: int, ih: int, mw: int, mh: int) -> (int, int) {
    if iw <= 0 || ih <= 0 {
        (0, 0)
    } else if mw * ih >= mh * iw {
        (mw, (ih * mw) / iw)
    } else {
        ((iw * mh) / ih, mh)
    }
}

/// The size to which an image is scaled so that it covers the box of the
/// displays. A side beyond `u32` is given as the largest `u32`.
pub fn calculate_width_height(
    image_width: u32,
    image_height: u32,
    max_width: u32,
    max_height: u32,
) -> (res: (u32, u32))
    ensures
        ({
            let exact = cover_size(
                image_width as int,
                image_height as int,
                max_width as int,
                max_height as int,
            );
            res.0 == saturated(exact.0) && res.1 == saturated(exact.1)
        }),
{
    if image_width == 0 || image_height == 0 {
        return (0, 0);
    }
    let iw: u64 = image_width as u64;
    let ih: u64 = image_height as u64;
    let mw: u64 = max_width as u64;
    let mh: u64 = max_height as u64;
    assert(mw * ih <= 0xffff_ffff * 0xffff_ffff && mh * iw <= 0xffff_ffff * 0xffff_ffff
        && ih * mw == mw * ih && iw * mh == mh * iw) by (nonlinear_arith)
        requires
            iw <= 0xffff_ffff,
            ih <= 0xffff_ffff,
            mw <= 0xffff_ffff,
            mh <= 0xffff_ffff,
    ;
    if mw * ih >= mh * iw {
        let height: u64 = (ih * mw) / iw;
        (
            max_width,
            if height > 0xffff_ffff {
                0xffff_ffff
            } else {
                height as u32
            },
        )
    } else {
        let width: u64 = (iw * mh) / ih;
        (
            if width > 0xffff_ffff {
                0xffff_ffff
            } else {
                width as u32
            },
            max_height,
        )
    }
}

/// A scaled image covers the box: unless the image has no area, neither
/// side is smaller than the box's.
pub proof fn lemma_cover_size_covers(iw: int, ih: int, mw: int, mh: int)
    requires
        iw > 0,
        ih > 0,
        mw >= 0,
        mh >= 0,
    ensures
        cover_size(iw, ih, mw, mh).0 >= mw,
        cover_size(iw, ih, mw, mh).1 >= mh,
{
    if mw * ih >= mh * iw {
        assert((ih * mw) / iw >= mh) by (nonlinear_arith)
            requires
                mw * ih >= mh * iw,
                iw > 0,
        ;
    } else {
        assert((iw * mh) / ih >= mw) by (nonlinear_arith)
            requires
                mw * ih < mh * iw,
                ih > 0,
        ;
    }
}

} // verus!
