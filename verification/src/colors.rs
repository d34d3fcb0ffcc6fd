//! Colours as bytes of red, green and blue, and as hexadecimal text.

use crate::number::{parsed_within, push_upper_hex_byte, read_number, upper_hex_byte};
use crate::text::{chars_of, slice_of, string_of};
use vstd::prelude::*;

verus! {

/// A colour by its red, green and blue.
pub struct RGB {
    pub r: u8,
    pub g: u8,
    pub b: u8,
}

/// A colour as hexadecimal text, `RRGGBB`.
pub struct HEX {
    pub value: String,
}

/// A colour by hue in degrees, and saturation and value in hundredths.
pub struct HSV {
    pub h: u16,
    pub s: u16,
    pub v: u16,
}

/// A colour in one of its two written forms.
pub enum Color {
    RGB(RGB),
    HEX(HEX),
}

impl Clone for RGB {
    fn clone(&self) -> (r: Self)
        ensures
            r == *self,
    {
        RGB { r: self.r, g: self.g, b: self.b }
    }
}

impl Clone for HEX {
    fn clone(&self) -> (r: Self)
        ensures
            r == *self,
    {
        HEX { value: self.value.clone() }
    }
}

impl Clone for HSV {
    fn clone(&self) -> (r: Self)
        ensures
            r == *self,
    {
        HSV { h: self.h, s: self.s, v: self.v }
    }
}

impl Clone for Color {
    fn clone(&self) -> (r: Self)
        ensures
            r == *self,
    {
        match self {
            Color::RGB(c) => Color::RGB(c.clone()),
            Color::HEX(c) => Color::HEX(c.clone()),
        }
    }
}

/// The three bytes that hexadecimal digits write: the number they write
/// taken as `..RRGGBB`, and black where they write no number of 32 bits.
pub open spec fn channels_of_digits(digits: Seq<char>) -> (u8, u8, u8) {
    match parsed_within(digits, 16, false, 0, u32::MAX as int) {
        Some(v) => (((v / 65536) % 256) as u8, ((v / 256) % 256) as u8, (v % 256) as u8),
        None => (0u8, 0u8, 0u8),
    }
}

/// The three bytes of a colour written as `#RRGGBB` or `RRGGBB`.
pub open spec fn channels_of_hex(hex: Seq<char>) -> (u8, u8, u8) {
    if hex.len() > 0 && hex[0] == '#' {
        channels_of_digits(hex.subrange(1, hex.len() as int))
    } else {
        channels_of_digits(hex)
    }
}

/// The six upper-case hexadecimal digits of a colour.
pub open spec fn hex_of_channels(r: u8, g: u8, b: u8) -> Seq<char> {
    upper_hex_byte(r) + upper_hex_byte(g) + upper_hex_byte(b)
}

/// A channel moved by `delta` and kept within a byte.
pub open spec fn shifted_channel(c: u8, delta: int) -> u8 {
    if c + delta < 0 {
        0u8
    } else if c + delta > 255 {
        255u8
    } else {
        (c + delta) as u8
    }
}

/// A channel moved by `delta` and kept within a byte.
pub fn shift_channel(c: u8, delta: i32) -> (r: u8)
    ensures
        r == shifted_channel(c, delta as int),
{
    let moved: i64 = c as i64 + delta as i64;
    if moved < 0 {
        0
    } else if moved > 255 {
        255
    } else {
        moved as u8
    }
}

/// The three bytes that hexadecimal digits write.
pub fn read_channels(digits: &Vec<char>) -> (c: (u8, u8, u8))
    ensures
        c == channels_of_digits(digits@),
{
    match read_number(digits, 16, false, 0, 0xffff_ffff) {
        Some((_, v)) => (((v / 65536) % 256) as u8, ((v / 256) % 256) as u8, (v % 256) as u8),
        None => (0, 0, 0),
    }
}

/// The six upper-case hexadecimal digits of a colour.
pub fn write_channels(r: u8, g: u8, b: u8) -> (t: Vec<char>)
    ensures
        t@ == hex_of_channels(r, g, b),
{
    let mut t: Vec<char> = Vec::new();
    push_upper_hex_byte(&mut t, r);
    push_upper_hex_byte(&mut t, g);
    push_upper_hex_byte(&mut t, b);
    t
}

impl RGB {
    pub fn new(r: u8, g: u8, b: u8) -> (c: Self)
        ensures
            c == (RGB { r, g, b }),
    {
        RGB { r, g, b }
    }
}

impl HEX {
    pub fn new(value: String) -> (c: Self)
        ensures
            c == (HEX { value }),
    {
        HEX { value }
    }
}

impl HSV {
    pub fn new(h: u16, s: u16, v: u16) -> (c: Self)
        ensures
            c == (HSV { h, s, v }),
    {
        HSV { h, s, v }
    }

    /// The colour with its hue brought down to 360 and its saturation and
    /// value to 100 where they are above.
    pub fn _normalize(&self) -> (c: Self)
        ensures
            c.h == (if self.h > 360 { 360u16 } else { self.h }),
            c.s == (if self.s > 100 { 100u16 } else { self.s }),
            c.v == (if self.v > 100 { 100u16 } else { self.v }),
    {
        HSV {
            h: if self.h > 360 {
                360
            } else {
                self.h
            },
            s: if self.s > 100 {
                100
            } else {
                self.s
            },
            v: if self.v > 100 {
                100
            } else {
                self.v
            },
        }
    }
}

/// A colour that can be given by its red, green and blue.
pub trait IntoRGB {
    /// The red, green and blue of the colour.
    spec fn rgb(&self) -> RGB;

    fn to_rgb(&self) -> (c: RGB)
        ensures
            c == self.rgb(),
    ;
}

/// A colour that can be written as hexadecimal text.
pub trait IntoHEX {
    /// The six digits of the colour.
    spec fn hex_digits(&self) -> Seq<char>;

    fn to_hex(&self) -> (c: HEX)
        ensures
            c.value@ == self.hex_digits(),
    ;
}

impl IntoRGB for HEX {
    open spec fn rgb(&self) -> RGB {
        let c = channels_of_digits(self.value@);
        RGB { r: c.0, g: c.1, b: c.2 }
    }

    fn to_rgb(&self) -> (c: RGB) {
        let digits = chars_of(self.value.as_str());
        let (r, g, b) = read_channels(&digits);
        RGB::new(r, g, b)
    }
}

impl IntoHEX for RGB {
    open spec fn hex_digits(&self) -> Seq<char> {
        hex_of_channels(self.r, self.g, self.b)
    }

    fn to_hex(&self) -> (c: HEX) {
        let t = write_channels(self.r, self.g, self.b);
        HEX::new(string_of(&t))
    }
}

/// A colour under the name that stands for it in a configuration body.
pub struct ColorValue {
    pub name: String,
    pub r: u8,
    pub g: u8,
    pub b: u8,
}

impl ColorValue {
    /// The colour that `hex` writes, under `name`.
    pub fn from_hex(name: &str, hex: &str) -> (c: Self)
        ensures
            c.name@ == name@,
            (c.r, c.g, c.b) == channels_of_hex(hex@),
    {
        let (r, g, b) = ColorValue::hex_to_rgb(hex);
        ColorValue { name: String::from_str(name), r, g, b }
    }

    /// Moves each channel by `brightness`, keeping it within a byte.
    pub fn add_brightness(&mut self, brightness: i32)
        ensures
            final(self).name == old(self).name,
            final(self).r == shifted_channel(old(self).r, brightness as int),
            final(self).g == shifted_channel(old(self).g, brightness as int),
            final(self).b == shifted_channel(old(self).b, brightness as int),
    {
        self.r = shift_channel(self.r, brightness);
        self.g = shift_channel(self.g, brightness);
        self.b = shift_channel(self.b, brightness);
    }

    /// Replaces each channel `c` by `255 - c`.
    pub fn invert(&mut self)
        ensures
            final(self).name == old(self).name,
            final(self).r == 255 - old(self).r,
            final(self).g == 255 - old(self).g,
            final(self).b == 255 - old(self).b,
    {
        self.r = 255 - self.r;
        self.g = 255 - self.g;
        self.b = 255 - self.b;
    }

    /// The three bytes of a colour written as `#RRGGBB` or `RRGGBB`; black
    /// where the text writes no number.
    pub fn hex_to_rgb(hex: &str) -> (c: (u8, u8, u8))
        ensures
            c == channels_of_hex(hex@),
    {
        let chars = chars_of(hex);
        if chars.len() > 0 && chars[0] == '#' {
            let digits = slice_of(&chars, 1, chars.len());
            read_channels(&digits)
        } else {
            read_channels(&chars)
        }
    }

    /// The six upper-case hexadecimal digits of a colour.
    pub fn rgb_to_hex(r: u8, g: u8, b: u8) -> (t: String)
        ensures
            t@ == hex_of_channels(r, g, b),
    {
        let t = write_channels(r, g, b);
        string_of(&t)
    }

    /// Takes the colour that `hex` writes.
    pub fn set_value_from_hex(&mut self, hex: &str)
        ensures
            final(self).name == old(self).name,
            (final(self).r, final(self).g, final(self).b) == channels_of_hex(hex@),
    {
        let (r, g, b) = ColorValue::hex_to_rgb(hex);
        self.r = r;
        self.g = g;
        self.b = b;
    }

    /// Takes the colour of the three bytes.
    pub fn set_value_from_rgb(&mut self, r: u8, g: u8, b: u8)
        ensures
            final(self).name == old(self).name,
            final(self).r == r,
            final(self).g == g,
            final(self).b == b,
    {
        self.r = r;
        self.g = g;
        self.b = b;
    }

    /// The six upper-case hexadecimal digits of the colour.
    pub fn hex(&self) -> (t: String)
        ensures
            t@ == hex_of_channels(self.r, self.g, self.b),
    {
        ColorValue::rgb_to_hex(self.r, self.g, self.b)
    }
}

} // verus!

