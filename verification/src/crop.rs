//! The crop region: from percentages of the reference frame to the encoder's pixel filter.

use vstd::prelude::*;
use vstd::string::StringExecFns;
use crate::decimal::{nat_text, push_nat};

verus! {

/// Width of the frame that crop percentages refer to, in pixels.
pub const REFERENCE_WIDTH: u64 = 1280;

/// Height of the frame that crop percentages refer to, in pixels.
pub const REFERENCE_HEIGHT: u64 = 720;

/// The least width and height, in pixels, that a crop may have.
pub const MIN_CROP_PIXELS: u64 = 16;

/// One hundred percent, in millionths of a percent.
pub const FULL_EXTENT: u64 = 100_000_000;

/// The filter that scales every encode, after any crop.
pub open spec fn scale_filter() -> Seq<char> {
    "scale=1280:-2"@
}

/// A rectangle of the frame, each field in millionths of a percent of the reference frame's
/// width (`x`, `width`) or height (`y`, `height`).
#[derive(Clone, Copy, Debug)]
pub struct CropRegion {
    pub x: u64,
    pub y: u64,
    pub width: u64,
    pub height: u64,
}

/// A rectangle of the reference frame in pixels.
#[derive(Clone, Copy, Debug, PartialEq, Eq, Structural)]
pub struct PixelCrop {
    pub x: u64,
    pub y: u64,
    pub width: u64,
    pub height: u64,
}

/// `percent` millionths of a percent of `extent` pixels, rounded to the nearest pixel, a half
/// rounded up.
pub open spec fn to_pixels(percent: int, extent: int) -> int {
    (percent * extent + 50_000_000) / 100_000_000
}

/// The pixels that a region selects. A region whose width or height is not strictly between
/// zero and one hundred percent, or comes to fewer than sixteen pixels, selects none.
pub open spec fn pixel_crop(region: CropRegion) -> Option<PixelCrop> {
    let width = to_pixels(region.width as int, REFERENCE_WIDTH as int);
    let height = to_pixels(region.height as int, REFERENCE_HEIGHT as int);
    if 0 < region.width < FULL_EXTENT && 0 < region.height < FULL_EXTENT && width
        >= MIN_CROP_PIXELS && height >= MIN_CROP_PIXELS {
        Some(
            PixelCrop {
                x: to_pixels(region.x as int, REFERENCE_WIDTH as int) as u64,
                y: to_pixels(region.y as int, REFERENCE_HEIGHT as int) as u64,
                width: width as u64,
                height: height as u64,
            },
        )
    } else {
        None
    }
}

/// The encoder's crop filter for a pixel rectangle: width, height, then offset.
pub open spec fn crop_filter_text(crop: PixelCrop) -> Seq<char> {
    "crop="@ + nat_text(crop.width as nat) + ":"@ + nat_text(crop.height as nat) + ":"@
        + nat_text(crop.x as nat) + ":"@ + nat_text(crop.y as nat)
}

/// The video filter chain of the output pass: the crop, where the region selects one, and
/// then the scale.
pub open spec fn filter_chain_text(crop: Option<CropRegion>) -> Seq<char> {
    match crop {
        Some(region) => match pixel_crop(region) {
            Some(pixels) => crop_filter_text(pixels) + ","@ + scale_filter(),
            None => scale_filter(),
        },
        None => scale_filter(),
    }
}

fn scaled(percent: u64, extent: u64) -> (pixels: u64)
    requires
        extent <= REFERENCE_WIDTH,
    ensures
        pixels == to_pixels(percent as int, extent as int),
{
    assert(percent * extent <= 0xffff_ffff_ffff_ffff * 1280) by (nonlinear_arith)
        requires
            percent <= 0xffff_ffff_ffff_ffff,
            extent <= 1280,
    ;
    ((percent as u128 * extent as u128 + 50_000_000) / 100_000_000) as u64
}

impl CropRegion {
    pub fn new(x: u64, y: u64, width: u64, height: u64) -> (region: Self)
        ensures
            region.x == x,
            region.y == y,
            region.width == width,
            region.height == height,
    {
        CropRegion { x, y, width, height }
    }

    /// The region in pixels of the reference frame, if it selects any.
    pub fn to_pixels(&self) -> (pixels: Option<PixelCrop>)
        ensures
            pixels == pixel_crop(*self),
            pixels matches Some(p) ==> MIN_CROP_PIXELS <= p.width <= REFERENCE_WIDTH
                && MIN_CROP_PIXELS <= p.height <= REFERENCE_HEIGHT,
    {
        if self.width == 0 || self.width >= FULL_EXTENT || self.height == 0 || self.height
            >= FULL_EXTENT {
            return None;
        }
        let width = scaled(self.width, REFERENCE_WIDTH);
        let height = scaled(self.height, REFERENCE_HEIGHT);
        if width < MIN_CROP_PIXELS || height < MIN_CROP_PIXELS {
            return None;
        }
        Some(
            PixelCrop {
                x: scaled(self.x, REFERENCE_WIDTH),
                y: scaled(self.y, REFERENCE_HEIGHT),
                width,
                height,
            },
        )
    }
}

/// Whether a crop was asked for and is left out because its region selects no pixels.
pub open spec fn crop_is_ignored(crop: Option<CropRegion>) -> bool {
    crop is Some && pixel_crop(crop->0) is None
}

/// Tells whether the crop of a request is left out of the encode, so that the caller can
/// warn of it.
pub fn crop_ignored(crop: Option<CropRegion>) -> (ignored: bool)
    ensures
        ignored == crop_is_ignored(crop),
{
    match crop {
        Some(region) => region.to_pixels().is_none(),
        None => false,
    }
}

impl PixelCrop {
    /// The encoder's crop filter for this rectangle.
    pub fn filter(&self) -> (text: String)
        ensures
            text@ == crop_filter_text(*self),
    {
        let mut text = String::new();
        text.append("crop=");
        push_nat(&mut text, self.width as u128);
        text.append(":");
        push_nat(&mut text, self.height as u128);
        text.append(":");
        push_nat(&mut text, self.x as u128);
        text.append(":");
        push_nat(&mut text, self.y as u128);
        assert(text@ =~= crop_filter_text(*self));
        text
    }
}

/// The video filter chain of the output pass.
pub fn filter_chain(crop: Option<CropRegion>) -> (text: String)
    ensures
        text@ == filter_chain_text(crop),
{
    let mut text = String::new();
    match crop {
        Some(region) => match region.to_pixels() {
            Some(pixels) => {
                text.append(pixels.filter().as_str());
                text.append(",");
            },
            None => {},
        },
        None => {},
    }
    text.append("scale=1280:-2");
    assert(text@ =~= filter_chain_text(crop));
    text
}

} // verus!
