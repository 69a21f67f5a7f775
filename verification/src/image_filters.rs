//! The fixed-point scales of image filtering, and the filter kernels that
//! take no parameter.
use vstd::prelude::*;

verus! {

/// The fixed-point scale of filter weights: 14 fraction bits.
#[derive(Clone, Copy, PartialEq, Eq, Structural)]
pub enum ImageFilterScale {
    Shift,
    Scale,
    Mask,
}

impl ImageFilterScale {
    pub open spec fn spec_value(self) -> i32 {
        match self {
            ImageFilterScale::Shift => 14,
            ImageFilterScale::Scale => 16384,
            ImageFilterScale::Mask => 16383,
        }
    }

    /// The shift, the scale `1 << shift`, or the mask `scale - 1`.
    pub fn value(&self) -> (r: i32)
        ensures
            r == self.spec_value(),
    {
        match self {
            ImageFilterScale::Shift => 14,
            ImageFilterScale::Scale => 16384,
            ImageFilterScale::Mask => 16383,
        }
    }
}

/// The fixed-point scale of subpixel positions in image sampling: 8
/// fraction bits.
#[derive(Clone, Copy, PartialEq, Eq, Structural)]
pub enum ImageSubpixelScale {
    Shift,
    Scale,
    Mask,
}

impl ImageSubpixelScale {
    pub open spec fn spec_value(self) -> i32 {
        match self {
            ImageSubpixelScale::Shift => 8,
            ImageSubpixelScale::Scale => 256,
            ImageSubpixelScale::Mask => 255,
        }
    }

    /// The shift, the scale `1 << shift`, or the mask `scale - 1`.
    pub fn value(&self) -> (r: i32)
        ensures
            r == self.spec_value(),
    {
        match self {
            ImageSubpixelScale::Shift => 8,
            ImageSubpixelScale::Scale => 256,
            ImageSubpixelScale::Mask => 255,
        }
    }
}

/// The scale is one shifted by the shift, and the mask one below the scale.
pub proof fn lemma_scales_consistent()
    ensures
        ImageFilterScale::Scale.spec_value() == 1i32 << (ImageFilterScale::Shift.spec_value() as u32),
        ImageFilterScale::Mask.spec_value() == ImageFilterScale::Scale.spec_value() - 1,
        ImageSubpixelScale::Scale.spec_value() == 1i32 << (ImageSubpixelScale::Shift.spec_value() as u32),
        ImageSubpixelScale::Mask.spec_value() == ImageSubpixelScale::Scale.spec_value() - 1,
{
    assert(1i32 << 14u32 == 16384i32 && 1i32 << 8u32 == 256i32) by (bit_vector);
}

/// The bilinear filter, of radius one.
pub struct ImageFilterBilinear;

impl ImageFilterBilinear {
    pub fn new() -> (r: Self) {
        ImageFilterBilinear
    }
}

/// The Hanning window, of radius one.
pub struct ImageFilterHanning;

impl ImageFilterHanning {
    pub fn new() -> (r: Self) {
        ImageFilterHanning
    }
}

/// The Hamming window, of radius one.
pub struct ImageFilterHamming;

impl ImageFilterHamming {
    pub fn new() -> (r: Self) {
        ImageFilterHamming
    }
}

/// The Hermite filter, of radius one.
pub struct ImageFilterHermite;

impl ImageFilterHermite {
    pub fn new() -> (r: Self) {
        ImageFilterHermite
    }
}

/// The quadric filter, of radius one and a half.
pub struct ImageFilterQuadric;

impl ImageFilterQuadric {
    pub fn new() -> (r: Self) {
        ImageFilterQuadric
    }
}

/// The bicubic filter, of radius two.
pub struct ImageFilterBicubic;

impl ImageFilterBicubic {
    pub fn new() -> (r: Self) {
        ImageFilterBicubic
    }
}

/// The Catmull-Rom filter, of radius two.
pub struct ImageFilterCatrom;

impl ImageFilterCatrom {
    pub fn new() -> (r: Self) {
        ImageFilterCatrom
    }
}

/// The 16-point spline filter, of radius two.
pub struct ImageFilterSpline16;

impl ImageFilterSpline16 {
    pub fn new() -> (r: Self) {
        ImageFilterSpline16
    }
}

/// The 36-point spline filter, of radius three.
pub struct ImageFilterSpline36;

impl ImageFilterSpline36 {
    pub fn new() -> (r: Self) {
        ImageFilterSpline36
    }
}

/// The Gaussian filter, of radius two.
pub struct ImageFilterGaussian;

impl ImageFilterGaussian {
    pub fn new() -> (r: Self) {
        ImageFilterGaussian
    }
}

/// The Bessel filter, of radius 3.2383.
pub struct ImageFilterBessel;

impl ImageFilterBessel {
    pub fn new() -> (r: Self) {
        ImageFilterBessel
    }
}

} // verus!
