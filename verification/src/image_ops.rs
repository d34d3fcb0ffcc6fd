//! The operations applied to an image before it is cut or sampled, and the
//! order in which they are applied.

use crate::decimal::{reads_zero, Decimal};
use crate::text::{chars_of, same};
use vstd::prelude::*;

verus! {

/// The operations on an image. Zero, and `false`, leave the image as it is.
pub struct ImageOperations {
    pub contrast: Decimal,
    pub brightness: i32,
    pub hue: i32,
    pub blur: Decimal,
    pub invert: bool,
    pub flip_h: bool,
    pub flip_v: bool,
}

/// What the operations hold, each fractional setting as its text.
pub struct OperationsModel {
    pub contrast: Seq<char>,
    pub brightness: i32,
    pub hue: i32,
    pub blur: Seq<char>,
    pub invert: bool,
    pub flip_h: bool,
    pub flip_v: bool,
}

impl View for ImageOperations {
    type V = OperationsModel;

    open spec fn view(&self) -> OperationsModel {
        OperationsModel {
            contrast: self.contrast@,
            brightness: self.brightness,
            hue: self.hue,
            blur: self.blur@,
            invert: self.invert,
            flip_h: self.flip_h,
            flip_v: self.flip_v,
        }
    }
}

impl Clone for ImageOperations {
    fn clone(&self) -> (r: Self)
        ensures
            r == *self,
    {
        ImageOperations {
            contrast: self.contrast.clone(),
            brightness: self.brightness,
            hue: self.hue,
            blur: self.blur.clone(),
            invert: self.invert,
            flip_h: self.flip_h,
            flip_v: self.flip_v,
        }
    }
}

/// One operation on an image.
pub enum ImageStep {
    Contrast(Decimal),
    Brighten(i32),
    HueRotate(i32),
    Blur(Decimal),
    FlipHorizontal,
    FlipVertical,
    Invert,
}

/// The filter with which an image is resized.
#[derive(Clone, Copy, PartialEq, Eq, Structural, Debug)]
pub enum ResizeAlgorithm {
    Nearest,
    CatmullRom,
    Gaussian,
    Lanczos3,
    Triangle,
}

/// `s` with `step` after it where `wanted`.
pub open spec fn with_step(s: Seq<ImageStep>, wanted: bool, step: ImageStep) -> Seq<ImageStep> {
    if wanted {
        s.push(step)
    } else {
        s
    }
}

/// The steps that `ops` asks for, in the order in which they are applied:
/// contrast, brightness, hue, blur, the two flips, inversion. A step whose
/// setting leaves the image as it is does not occur.
pub open spec fn steps_of(ops: ImageOperations) -> Seq<ImageStep> {
    let s0 = Seq::<ImageStep>::empty();
    let s1 = with_step(s0, !reads_zero(ops.contrast@), ImageStep::Contrast(ops.contrast));
    let s2 = with_step(s1, ops.brightness != 0, ImageStep::Brighten(ops.brightness));
    let s3 = with_step(s2, ops.hue != 0, ImageStep::HueRotate(ops.hue));
    let s4 = with_step(s3, !reads_zero(ops.blur@), ImageStep::Blur(ops.blur));
    let s5 = with_step(s4, ops.flip_h, ImageStep::FlipHorizontal);
    let s6 = with_step(s5, ops.flip_v, ImageStep::FlipVertical);
    with_step(s6, ops.invert, ImageStep::Invert)
}

/// The filter that a tag names; `Triangle` for any other tag.
pub open spec fn algorithm_of(tag: Seq<char>) -> ResizeAlgorithm {
    if tag == "Nearest"@ {
        ResizeAlgorithm::Nearest
    } else if tag == "CatmullRom"@ {
        ResizeAlgorithm::CatmullRom
    } else if tag == "Gaussian"@ {
        ResizeAlgorithm::Gaussian
    } else if tag == "Lanczos3"@ {
        ResizeAlgorithm::Lanczos3
    } else {
        ResizeAlgorithm::Triangle
    }
}

impl ImageOperations {
    pub fn new(
        contrast: Decimal,
        brightness: i32,
        hue: i32,
        blur: Decimal,
        invert: bool,
        flip_h: bool,
        flip_v: bool,
    ) -> (ops: Self)
        ensures
            ops == (ImageOperations { contrast, brightness, hue, blur, invert, flip_h, flip_v }),
    {
        ImageOperations { contrast, brightness, hue, blur, invert, flip_h, flip_v }
    }

    /// The operations that leave an image as it is.
    pub fn identity() -> (ops: Self)
        ensures
            ops@ == (OperationsModel {
                contrast: seq!['0'],
                brightness: 0,
                hue: 0,
                blur: seq!['0'],
                invert: false,
                flip_h: false,
                flip_v: false,
            }),
            steps_of(ops).len() == 0,
    {
        ImageOperations {
            contrast: Decimal::zero(),
            brightness: 0,
            hue: 0,
            blur: Decimal::zero(),
            invert: false,
            flip_h: false,
            flip_v: false,
        }
    }

    /// The steps to apply, in order.
    pub fn steps(&self) -> (r: Vec<ImageStep>)
        ensures
            r@ == steps_of(*self),
    {
        let mut r: Vec<ImageStep> = Vec::new();
        if !self.contrast.is_zero() {
            r.push(ImageStep::Contrast(self.contrast.clone()));
        }
        if self.brightness != 0 {
            r.push(ImageStep::Brighten(self.brightness));
        }
        if self.hue != 0 {
            r.push(ImageStep::HueRotate(self.hue));
        }
        if !self.blur.is_zero() {
            r.push(ImageStep::Blur(self.blur.clone()));
        }
        if self.flip_h {
            r.push(ImageStep::FlipHorizontal);
        }
        if self.flip_v {
            r.push(ImageStep::FlipVertical);
        }
        if self.invert {
            r.push(ImageStep::Invert);
        }
        r
    }
}

/// The filter that `tag` names; `Triangle` for any other tag.
pub fn resize_algorithm(tag: &str) -> (r: ResizeAlgorithm)
    ensures
        r == algorithm_of(tag@),
{
    let t = chars_of(tag);
    if same(&t, "Nearest") {
        ResizeAlgorithm::Nearest
    } else if same(&t, "CatmullRom") {
        ResizeAlgorithm::CatmullRom
    } else if same(&t, "Gaussian") {
        ResizeAlgorithm::Gaussian
    } else if same(&t, "Lanczos3") {
        ResizeAlgorithm::Lanczos3
    } else {
        ResizeAlgorithm::Triangle
    }
}

} // verus!
