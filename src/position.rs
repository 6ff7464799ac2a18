//! Compute position and resolution of images according to screen-resolutions
//! and options for placement and scaling.
use vstd::prelude::*;

use crate::screens::Screen;

verus! {

/// Determines how an image is to be aligned, relative to a screen.
#[derive(Clone, Copy, Debug, PartialEq, Eq, Structural)]
pub enum Alignment {
    CENTER,
}

/// Scaling-options. All options respect aspect-ratio.
#[derive(Clone, Copy, Debug, PartialEq, Eq, Structural)]
pub enum Scaling {
    /// Don't scale
    NONE,
    /// Image should fill the whole screen, even if cut off.
    FILL,
    /// Image should be as large as possible, without losing content.
    MAX,
}

/// Filter to resample frames with, when they are scaled.
#[derive(Clone, Copy, Debug, PartialEq, Eq, Structural)]
pub enum ScalingFilter {
    /// Pick a filter by the direction of scaling.
    AUTO,
    /// Always nearest-neighbour.
    PIXEL,
}

/// Coordinates to place an image.
#[derive(Clone, Copy, Debug, PartialEq, Eq, Structural)]
pub struct ImagePlacement {
    /// x-origin of the image raster to use.
    pub src_x: i32,
    /// y-origin of the image raster to use.
    pub src_y: i32,
    /// x-origin of the screen to use.
    pub dest_x: i32,
    /// y-origin of the screen to use.
    pub dest_y: i32,
    /// width of the image to render, relative to src_x.
    pub width: u32,
    /// height of the image to render, relative to src_y.
    pub height: u32,
}

impl ImagePlacement {
    pub fn new(src_x: i32, src_y: i32, dest_x: i32, dest_y: i32, width: u32, height: u32) -> (r:
        ImagePlacement)
        ensures
            r == (ImagePlacement { src_x, src_y, dest_x, dest_y, width, height }),
    {
        ImagePlacement { src_x, src_y, dest_x, dest_y, width, height }
    }
}

/// Width and height as one unit.
#[derive(Clone, Copy, Debug, PartialEq, Eq, Structural, PartialOrd, Ord, Hash)]
pub struct Resolution {
    pub width: u32,
    pub height: u32,
}

/// `num * factor / den`, truncated, and capped at the largest `u32`.
pub open spec fn scaled_dim(num: u32, factor: u32, den: u32) -> u32 {
    let exact = (num as int * factor as int) / (den as int);
    if exact > u32::MAX as int {
        u32::MAX
    } else {
        exact as u32
    }
}

/// Whether scaling `image` to `screen` fixes the width to the screen's width
/// (else the height is fixed). Ratios are compared exactly, by
/// cross-multiplication.
pub open spec fn scales_to_width(image: Resolution, screen: Resolution, fill: bool) -> bool {
    let screen_side = screen.width as int * image.height as int;
    let image_side = image.width as int * screen.height as int;
    if fill {
        screen_side > image_side
    } else {
        screen_side < image_side
    }
}

/// The resolution an image is scaled to, keeping its aspect ratio; covering
/// the screen if `fill`, else fitting into it.
pub open spec fn scaled_resolution(image: Resolution, screen: Resolution, fill: bool) -> Resolution {
    if image == screen {
        screen
    } else if scales_to_width(image, screen, fill) {
        Resolution {
            width: screen.width,
            height: scaled_dim(image.height, screen.width, image.width),
        }
    } else {
        Resolution {
            width: scaled_dim(image.width, screen.height, image.height),
            height: screen.height,
        }
    }
}

/// The resolution an image gets on a screen, under a scaling-option.
pub open spec fn target_resolution(image: Resolution, screen: Resolution, scaling: Scaling) -> Resolution {
    match scaling {
        Scaling::NONE => image,
        Scaling::FILL => scaled_resolution(image, screen, true),
        Scaling::MAX => scaled_resolution(image, screen, false),
    }
}

/// Source offset and clipped length along one axis, for an image of length
/// `len` centered on a screen of length `screen_len`.
pub open spec fn centered_src(len: u32, screen_len: u32) -> (i32, u32) {
    if len > screen_len {
        (((len - screen_len) / 2) as i32, screen_len)
    } else {
        (0, len)
    }
}

/// Destination origin along one axis, for an image of length `len` centered
/// on a screen starting at `org` with length `screen_len`.
pub open spec fn centered_dest(len: u32, org: i32, screen_len: u32) -> i32 {
    if screen_len > len {
        (org + (screen_len - len) / 2) as i32
    } else {
        org
    }
}

/// Where the image is narrower (shorter) than the screen, the centered
/// destination is still an `i32` coordinate.
pub open spec fn centering_fits(width: u32, height: u32, screen: Screen) -> bool {
    &&& screen.width > width ==> screen.x_org + (screen.width - width) / 2 <= i32::MAX
    &&& screen.height > height ==> screen.y_org + (screen.height - height) / 2 <= i32::MAX
}

/// Placement of an image of `width` x `height`, centered on `screen`.
pub open spec fn centered_placement(width: u32, height: u32, screen: Screen) -> ImagePlacement {
    ImagePlacement {
        src_x: centered_src(width, screen.width).0,
        src_y: centered_src(height, screen.height).0,
        dest_x: centered_dest(width, screen.x_org, screen.width),
        dest_y: centered_dest(height, screen.y_org, screen.height),
        width: centered_src(width, screen.width).1,
        height: centered_src(height, screen.height).1,
    }
}

impl Resolution {
    /// Both dimensions are positive.
    pub open spec fn wf(&self) -> bool {
        self.width > 0 && self.height > 0
    }

    /// Creates a new instance of `Resolution`.
    pub fn new(width: u32, height: u32) -> (r: Resolution)
        ensures
            r == (Resolution { width, height }),
    {
        Resolution { width, height }
    }

    /// Calculates the resolution an image should have to respect given scaling.
    pub fn fit_to_screen(&self, screen_resolution: &Resolution, scaling: &Scaling) -> (r: Resolution)
        requires
            self.wf(),
            screen_resolution.wf(),
        ensures
            r == target_resolution(*self, *screen_resolution, *scaling),
    {
        match *scaling {
            Scaling::NONE => *self,
            Scaling::FILL => Resolution::scale_image_to_screen(self, screen_resolution, true),
            Scaling::MAX => Resolution::scale_image_to_screen(self, screen_resolution, false),
        }
    }

    /// `num * factor / den`, truncated and capped at the largest `u32`.
    fn scale_dim(num: u32, factor: u32, den: u32) -> (r: u32)
        requires
            den > 0,
        ensures
            r == scaled_dim(num, factor, den),
    {
        proof {
            lemma_u32_product_fits(num, factor);
        }
        let product: u64 = (num as u64) * (factor as u64);
        let exact: u64 = product / (den as u64);
        if exact > u32::MAX as u64 {
            u32::MAX
        } else {
            exact as u32
        }
    }

    /// Calculates the resolution an image should have to respect given scaling.
    ///
    /// If `fill` is `true` the whole screen is used, at cost of image-information.
    ///
    /// If `fill` is `false` the image is scaled as large as possible, without
    /// losing information.
    fn scale_image_to_screen(
        image_resolution: &Resolution,
        screen_resolution: &Resolution,
        fill: bool,
    ) -> (r: Resolution)
        requires
            image_resolution.wf(),
            screen_resolution.wf(),
        ensures
            r == scaled_resolution(*image_resolution, *screen_resolution, fill),
    {
        let same_resolution = screen_resolution.width == image_resolution.width
            && screen_resolution.height == image_resolution.height;

        if same_resolution {
            return *screen_resolution;
        }
        proof {
            lemma_u32_product_fits(screen_resolution.width, image_resolution.height);
            lemma_u32_product_fits(image_resolution.width, screen_resolution.height);
        }
        let screen_side: u64 = (screen_resolution.width as u64) * (image_resolution.height as u64);
        let image_side: u64 = (image_resolution.width as u64) * (screen_resolution.height as u64);

        let scale_to_width = if fill {
            screen_side > image_side
        } else {
            screen_side < image_side
        };

        if scale_to_width {
            Resolution {
                width: screen_resolution.width,
                height: Resolution::scale_dim(
                    image_resolution.height,
                    screen_resolution.width,
                    image_resolution.width,
                ),
            }
        } else {
            Resolution {
                width: Resolution::scale_dim(
                    image_resolution.width,
                    screen_resolution.height,
                    image_resolution.height,
                ),
                height: screen_resolution.height,
            }
        }
    }

    /// Computes coordinates of image for given alignment on a screen.
    pub fn position_on_screen(&self, screen: &Screen, alignment: Alignment) -> (r: ImagePlacement)
        requires
            centering_fits(self.width, self.height, *screen),
        ensures
            r == centered_placement(self.width, self.height, *screen),
    {
        match alignment {
            Alignment::CENTER => Resolution::center_on_screen(self.width, self.height, screen),
        }
    }

    /// Places an image on screen, aligned to the center. Both horizontally and
    /// vertically.
    fn center_on_screen(width: u32, height: u32, screen: &Screen) -> (r: ImagePlacement)
        requires
            centering_fits(width, height, *screen),
        ensures
            r == centered_placement(width, height, *screen),
    {
        let mut out = ImagePlacement::new(0, 0, screen.x_org, screen.y_org, width, height);

        if width > screen.width {
            out.src_x = ((width - screen.width) / 2) as i32;
            out.width = screen.width;
        }
        if height > screen.height {
            out.src_y = ((height - screen.height) / 2) as i32;
            out.height = screen.height;
        }
        if screen.width > width {
            out.dest_x = screen.x_org + ((screen.width - width) / 2) as i32;
        }
        if screen.height > height {
            out.dest_y = screen.y_org + ((screen.height - height) / 2) as i32;
        }
        out
    }
}

/// One side of `target` is the other side scaled by the aspect ratio of
/// `image`, truncated.
pub open spec fn keeps_aspect(image: Resolution, target: Resolution) -> bool {
    let (iw, ih) = (image.width as int, image.height as int);
    let (tw, th) = (target.width as int, target.height as int);
    ||| th * iw <= ih * tw < (th + 1) * iw
    ||| tw * ih <= iw * th < (tw + 1) * ih
}

/// Without scaling, the target resolution is the image's own.
pub proof fn lemma_none_keeps_resolution(image: Resolution, screen: Resolution)
    ensures
        target_resolution(image, screen, Scaling::NONE) == image,
{
}

/// Filling covers the screen in both dimensions. Where neither scaled side
/// is capped at the largest `u32`, the aspect ratio of the image is kept up
/// to truncation.
pub proof fn lemma_fill_covers_screen(image: Resolution, screen: Resolution)
    requires
        image.wf(),
        screen.wf(),
    ensures
        target_resolution(image, screen, Scaling::FILL).width >= screen.width,
        target_resolution(image, screen, Scaling::FILL).height >= screen.height,
        (image.height as int * screen.width as int) / (image.width as int) <= u32::MAX
            && (image.width as int * screen.height as int) / (image.height as int) <= u32::MAX
            ==> keeps_aspect(image, target_resolution(image, screen, Scaling::FILL)),
{
    let (iw, ih) = (image.width as int, image.height as int);
    let (sw, sh) = (screen.width as int, screen.height as int);
    let t = target_resolution(image, screen, Scaling::FILL);
    if image == screen {
        lemma_exact_ratio(iw, ih);
    } else if scales_to_width(image, screen, true) {
        let q = (ih * sw) / iw;
        lemma_div_bounds(ih * sw, iw);
        lemma_lt_of_mul_lt(sh, q + 1, iw);
    } else {
        let q = (iw * sh) / ih;
        lemma_div_bounds(iw * sh, ih);
        lemma_lt_of_mul_lt(sw, q + 1, ih);
    }
}

/// Maximising fits the image into the screen, keeping its aspect ratio up to
/// truncation.
pub proof fn lemma_max_fits_screen(image: Resolution, screen: Resolution)
    requires
        image.wf(),
        screen.wf(),
    ensures
        target_resolution(image, screen, Scaling::MAX).width <= screen.width,
        target_resolution(image, screen, Scaling::MAX).height <= screen.height,
        keeps_aspect(image, target_resolution(image, screen, Scaling::MAX)),
{
    let (iw, ih) = (image.width as int, image.height as int);
    let (sw, sh) = (screen.width as int, screen.height as int);
    if image == screen {
        lemma_exact_ratio(iw, ih);
    } else if scales_to_width(image, screen, false) {
        let q = (ih * sw) / iw;
        lemma_div_bounds(ih * sw, iw);
        lemma_lt_of_mul_lt(q, sh, iw);
    } else {
        let q = (iw * sh) / ih;
        lemma_div_bounds(iw * sh, ih);
        lemma_le_of_mul_le(q, sw, ih);
    }
}

proof fn lemma_exact_ratio(w: int, h: int)
    requires
        w > 0,
        h > 0,
    ensures
        h * w <= h * w < (h + 1) * w,
{
    assert(h * w < (h + 1) * w) by (nonlinear_arith)
        requires
            w > 0,
    ;
}

proof fn lemma_div_bounds(x: int, d: int)
    requires
        x >= 0,
        d > 0,
    ensures
        0 <= x / d,
        (x / d) * d <= x < (x / d + 1) * d,
{
    vstd::arithmetic::div_mod::lemma_fundamental_div_mod(x, d);
    vstd::arithmetic::div_mod::lemma_mod_pos_bound(x, d);
    vstd::arithmetic::div_mod::lemma_div_pos_is_pos(x, d);
    let q = x / d;
    assert((q + 1) * d == q * d + d) by (nonlinear_arith);
    assert(d * q == q * d) by (nonlinear_arith);
}

proof fn lemma_lt_of_mul_lt(a: int, b: int, c: int)
    requires
        c > 0,
        a * c < b * c,
    ensures
        a < b,
{
    assert(a < b) by (nonlinear_arith)
        requires
            c > 0,
            a * c < b * c,
    ;
}

proof fn lemma_le_of_mul_le(a: int, b: int, c: int)
    requires
        c > 0,
        a * c <= b * c,
    ensures
        a <= b,
{
    assert(a <= b) by (nonlinear_arith)
        requires
            c > 0,
            a * c <= b * c,
    ;
}

/// The product of two `u32` fits into a `u64`.
pub(crate) proof fn lemma_u32_product_fits(a: u32, b: u32)
    ensures
        0 <= a as int * b as int <= u64::MAX as int,
{
    assert(0 <= a as int * b as int <= u64::MAX as int) by (nonlinear_arith)
        requires
            a <= u32::MAX,
            b <= u32::MAX,
            0 <= a,
            0 <= b,
    ;
}

} // verus!
