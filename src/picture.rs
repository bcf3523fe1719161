//! The conversion pipeline: choose the target size of a picture, resample it
//! with the `image` crate, and pack its pixels.

use crate::encoding::{encode, is_encoding_of, OutputFormat, Pixel};
use crate::geometry::{plan_of, resolve, ResizePlan};
use image::imageops::FilterType;
use image::{DynamicImage, RgbImage};
use vstd::prelude::*;

verus! {

/// A picture as rows of pixels, top row first, each row left to right.
#[derive(Debug)]
pub struct PixelGrid {
    pub width: u32,
    pub height: u32,
    pub pixels: Vec<Pixel>,
}

impl PixelGrid {
    /// The grid holds exactly one pixel per position.
    pub open spec fn wf(&self) -> bool {
        self.pixels@.len() == self.width as int * self.height as int
    }
}

/// Whether buffers of `width` x `height` pixels of up to four channels can be
/// addressed on this machine.
pub open spec fn fits_in_memory(width: int, height: int) -> bool {
    width * height * 4 <= usize::MAX as int
}

/// Whether a `source_width` x `source_height` picture, scaled with its aspect
/// ratio kept until it covers `width` x `height`, stays within `u32` sides with
/// a pixel to spare for rounding, and whether its buffers, and those of the
/// vertical resampling pass, can be addressed.
pub open spec fn cover_fits(source_width: int, source_height: int, width: int, height: int) -> bool {
    let cover_width = width + source_width * height / source_height + 1;
    let cover_height = height + source_height * width / source_width + 1;
    &&& cover_width <= u32::MAX as int
    &&& cover_height <= u32::MAX as int
    &&& fits_in_memory(cover_width, cover_height)
    &&& fits_in_memory(source_width, cover_height)
}

/// Relies on `DynamicImage::resize_exact` with the three-lobe Lanczos filter:
/// the picture stretched to exactly `width` x `height`. The crate allocates
/// buffers of the target size and panics when their length overflows `usize`.
#[verifier::external_body]
fn stretch_grid(src: &PixelGrid, width: u32, height: u32) -> (r: PixelGrid)
    requires
        src.wf(),
        src.width > 0,
        src.height > 0,
        fits_in_memory(width as int, height as int),
    ensures
        r.wf(),
        r.width == width,
        r.height == height,
{
    let raw: Vec<u8> = src.pixels.iter().flat_map(|p| [p.red, p.green, p.blue]).collect();
    let img = DynamicImage::ImageRgb8(RgbImage::from_raw(src.width, src.height, raw).unwrap());
    let out = img.resize_exact(width, height, FilterType::Lanczos3).to_rgb8();
    let pixels = out.pixels().map(|p| Pixel { red: p[0], green: p[1], blue: p[2] }).collect();
    PixelGrid { width: out.width(), height: out.height(), pixels }
}

/// Relies on `DynamicImage::resize_to_fill` with the three-lobe Lanczos
/// filter: the picture scaled, keeping its aspect ratio, to cover `width` x
/// `height`, then cropped to exactly that size around the centre. The crate
/// subtracts the target from the scaled size, which underflows for an empty
/// source; it clamps a scaled side to `u32::MAX`, after which the subtraction
/// can underflow too; and it panics when a buffer length overflows `usize`.
#[verifier::external_body]
fn fill_grid(src: &PixelGrid, width: u32, height: u32) -> (r: PixelGrid)
    requires
        src.wf(),
        src.width > 0,
        src.height > 0,
        fits_in_memory(width as int, height as int),
        cover_fits(src.width as int, src.height as int, width as int, height as int),
    ensures
        r.wf(),
        r.width == width,
        r.height == height,
{
    let raw: Vec<u8> = src.pixels.iter().flat_map(|p| [p.red, p.green, p.blue]).collect();
    let img = DynamicImage::ImageRgb8(RgbImage::from_raw(src.width, src.height, raw).unwrap());
    let out = img.resize_to_fill(width, height, FilterType::Lanczos3).to_rgb8();
    let pixels = out.pixels().map(|p| Pixel { red: p[0], green: p[1], blue: p[2] }).collect();
    PixelGrid { width: out.width(), height: out.height(), pixels }
}

/// The outcome of converting a picture.
#[derive(Debug)]
pub struct Conversion {
    pub source_width: u32,
    pub source_height: u32,
    pub plan: ResizePlan,
    pub grid: PixelGrid,
    pub bytes: Vec<u8>,
}

/// Why a picture could not be converted.
#[derive(Clone, Copy, Debug, PartialEq, Eq, Structural)]
pub enum ConvertError {
    /// The target size, or the picture scaled to cover it, needs more memory
    /// than the machine can address.
    TooLarge { width: u32, height: u32 },
}

/// Whether resampling a `source_width` x `source_height` picture to `width` x
/// `height` stays within the machine's limits.
pub open spec fn resample_fits(
    source_width: int,
    source_height: int,
    width: int,
    height: int,
    exact: bool,
) -> bool {
    &&& fits_in_memory(width, height)
    &&& !exact ==> cover_fits(source_width, source_height, width, height)
}

fn check_resample(source_width: u32, source_height: u32, width: u32, height: u32, exact: bool) -> (r:
    bool)
    requires
        source_width > 0,
        source_height > 0,
    ensures
        r == resample_fits(source_width as int, source_height as int, width as int, height as int, exact),
{
    let sw = source_width as u128;
    let sh = source_height as u128;
    let w = width as u128;
    let h = height as u128;
    let limit = usize::MAX as u128;
    proof {
        assert(w * h * 4 <= 0x4_0000_0000_0000_0000) by (nonlinear_arith)
            requires
                w < 0x1_0000_0000,
                h < 0x1_0000_0000,
        ;
    }
    if w * h * 4 > limit {
        return false;
    }
    if exact {
        return true;
    }
    proof {
        assert(sw * h < 0x1_0000_0000_0000_0000 && sh * w < 0x1_0000_0000_0000_0000)
            by (nonlinear_arith)
            requires
                w < 0x1_0000_0000,
                h < 0x1_0000_0000,
                sw < 0x1_0000_0000,
                sh < 0x1_0000_0000,
        ;
        vstd::arithmetic::div_mod::lemma_div_is_ordered_by_denominator((sw * h) as int, 1, sh as int);
        vstd::arithmetic::div_mod::lemma_div_is_ordered_by_denominator((sh * w) as int, 1, sw as int);
    }
    let cover_width = w + sw * h / sh + 1;
    let cover_height = h + sh * w / sw + 1;
    let side = u32::MAX as u128;
    if cover_width > side || cover_height > side {
        return false;
    }
    proof {
        assert(cover_width * cover_height * 4 <= 0x4_0000_0000_0000_0000 && sw * cover_height * 4
            <= 0x4_0000_0000_0000_0000) by (nonlinear_arith)
            requires
                cover_width < 0x1_0000_0000,
                cover_height < 0x1_0000_0000,
                sw < 0x1_0000_0000,
        ;
    }
    cover_width * cover_height * 4 <= limit && sw * cover_height * 4 <= limit
}

/// Converts a picture. The plan is chosen by `resolve` from the picture's
/// size; when the plan resamples, the picture is stretched to the target size
/// if `exact` is set and scaled and cropped to it otherwise, and when it does
/// not, the picture is kept as it is. The pixels of the result are then packed
/// in `format`.
pub fn convert(
    src: PixelGrid,
    requested_width: Option<u32>,
    requested_height: Option<u32>,
    exact: bool,
    format: OutputFormat,
) -> (r: Result<Conversion, ConvertError>)
    requires
        src.wf(),
        src.width > 0,
        src.height > 0,
    ensures
        ({
            let plan = plan_of(src.width as int, src.height as int, requested_width, requested_height);
            match r {
                Ok(c) => {
                    &&& c.source_width == src.width
                    &&& c.source_height == src.height
                    &&& c.plan == plan
                    &&& c.grid.wf()
                    &&& plan.resize ==> c.grid.width == plan.width && c.grid.height == plan.height
                    &&& !plan.resize ==> c.grid.width == src.width && c.grid.height == src.height
                        && c.grid.pixels@ == src.pixels@
                    &&& is_encoding_of(c.bytes@, c.grid.pixels@, format)
                    &&& plan.resize ==> resample_fits(
                        src.width as int,
                        src.height as int,
                        plan.width as int,
                        plan.height as int,
                        exact,
                    )
                },
                Err(ConvertError::TooLarge { width, height }) => {
                    &&& plan.resize
                    &&& width == plan.width
                    &&& height == plan.height
                    &&& !resample_fits(
                        src.width as int,
                        src.height as int,
                        plan.width as int,
                        plan.height as int,
                        exact,
                    )
                },
            }
        }),
{
    let source_width = src.width;
    let source_height = src.height;
    let plan = resolve(source_width, source_height, requested_width, requested_height);
    let grid = if plan.resize {
        if !check_resample(source_width, source_height, plan.width, plan.height, exact) {
            return Err(ConvertError::TooLarge { width: plan.width, height: plan.height });
        }
        if exact {
            stretch_grid(&src, plan.width, plan.height)
        } else {
            fill_grid(&src, plan.width, plan.height)
        }
    } else {
        src
    };
    let bytes = encode(grid.pixels.as_slice(), format);
    Ok(Conversion { source_width, source_height, plan, grid, bytes })
}

} // verus!
