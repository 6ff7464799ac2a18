//! The per-frame pixel pipeline: blend a decoded raster against the previous
//! frame or the background colour, by disposal method and per-pixel alpha.
use vstd::prelude::*;

use crate::decode::RasterStep;
use crate::options::Options;
use crate::position::{Resolution, ScalingFilter};

use std::sync::atomic::{AtomicBool, Ordering};

verus! {

/// A colour with 16 bits per channel, as the display server reports it.
#[derive(Clone, Copy, Debug, PartialEq, Eq, Structural)]
pub struct Color {
    pub red: u16,
    pub green: u16,
    pub blue: u16,
}

/// Byte order of the pixels of the target surface.
#[derive(Clone, Copy, Debug, PartialEq, Eq, Structural)]
pub enum ByteOrder {
    /// Most significant byte first: pixels are stored as RGBA.
    MsbFirst,
    /// Least significant byte first: pixels are stored as BGRA.
    LsbFirst,
}

/// How a frame is disposed of, as the animation declares it.
#[derive(Clone, Copy, Debug, PartialEq, Eq, Structural)]
pub enum Disposal {
    /// No disposal specified.
    NoAction,
    /// Keep the frame: transparent pixels show what was shown before.
    Keep,
    /// Restore to background colour.
    Background,
    /// Restore to the previous frame.
    Previous,
    /// A method the format reserves.
    Reserved(u8),
}

/// Index of the RGBA-channel that lands at position `c` of a pixel on the
/// target surface.
pub open spec fn channel_of(order: ByteOrder, c: int) -> int {
    match order {
        ByteOrder::MsbFirst => c,
        ByteOrder::LsbFirst => if c == 0 {
            2
        } else if c == 2 {
            0
        } else {
            c
        },
    }
}

/// Channel `c` (0 red, 1 green, 2 blue, 3 alpha) of the opaque background
/// colour, 8 bits wide.
pub open spec fn background_rgba(color: Color, c: int) -> u8 {
    if c == 0 {
        (color.red / 256) as u8
    } else if c == 1 {
        (color.green / 256) as u8
    } else if c == 2 {
        (color.blue / 256) as u8
    } else {
        255u8
    }
}

/// Byte `k` of a raster filled with the background colour.
pub open spec fn solid_byte(color: Color, order: ByteOrder, k: int) -> u8 {
    background_rgba(color, channel_of(order, k % 4))
}

/// Byte `k` of the composed frame: opaque source pixels are taken over in
/// the surface's channel order; others show the previous frame where the
/// frame is kept, else the background colour with the source's alpha.
pub open spec fn composed_byte(
    src: Seq<u8>,
    prev: Seq<u8>,
    method: Disposal,
    color: Color,
    order: ByteOrder,
    k: int,
) -> u8 {
    let p = k - k % 4;
    let c = k % 4;
    if src[p + 3] == 255 {
        src[p + channel_of(order, c)]
    } else if method == Disposal::Keep {
        prev[k]
    } else if c == 3 {
        src[p + 3]
    } else {
        background_rgba(color, channel_of(order, c))
    }
}

/// Where `k` is a multiple of four, the next three positions are the other
/// channels of the same pixel.
proof fn lemma_pixel_offsets(k: int)
    requires
        k >= 0,
        k % 4 == 0,
    ensures
        (k + 1) % 4 == 1,
        (k + 2) % 4 == 2,
        (k + 3) % 4 == 3,
        (k + 4) % 4 == 0,
{
}

/// Position of the RGBA-channel `c` within a pixel of the target surface.
pub fn channel_index(order: ByteOrder, c: usize) -> (r: usize)
    requires
        c < 4,
    ensures
        r == channel_of(order, c as int),
        r < 4,
{
    match order {
        ByteOrder::MsbFirst => c,
        ByteOrder::LsbFirst => if c == 0 {
            2
        } else if c == 2 {
            0
        } else {
            c
        },
    }
}

/// Channel `c` of the opaque background colour, 8 bits wide.
pub fn background_channel(color: &Color, c: usize) -> (r: u8)
    requires
        c < 4,
    ensures
        r == background_rgba(*color, c as int),
{
    if c == 0 {
        (color.red / 256) as u8
    } else if c == 1 {
        (color.green / 256) as u8
    } else if c == 2 {
        (color.blue / 256) as u8
    } else {
        255u8
    }
}

/// A raster of `width` x `height` pixels, all of the opaque background colour.
pub fn solid_background(width: u32, height: u32, color: &Color, order: ByteOrder) -> (r: Vec<u8>)
    requires
        width as int * height as int * 4 <= usize::MAX,
    ensures
        r@.len() == width as int * height as int * 4,
        forall|k: int| 0 <= k < r@.len() ==> r@[k] == solid_byte(*color, order, k),
{
    let size: usize = (width as usize) * (height as usize) * 4;
    let c0 = background_channel(color, channel_index(order, 0));
    let c1 = background_channel(color, channel_index(order, 1));
    let c2 = background_channel(color, channel_index(order, 2));
    let c3 = background_channel(color, channel_index(order, 3));
    let mut out: Vec<u8> = Vec::with_capacity(size);
    let mut i: usize = 0;
    while i < size
        invariant
            size == width as int * height as int * 4,
            size % 4 == 0,
            i % 4 == 0,
            i <= size,
            out@.len() == i,
            c0 == background_rgba(*color, channel_of(order, 0)),
            c1 == background_rgba(*color, channel_of(order, 1)),
            c2 == background_rgba(*color, channel_of(order, 2)),
            c3 == background_rgba(*color, channel_of(order, 3)),
            forall|k: int| 0 <= k < out@.len() ==> out@[k] == solid_byte(*color, order, k),
        decreases size - i,
    {
        proof {
            lemma_pixel_offsets(i as int);
        }
        out.push(c0);
        out.push(c1);
        out.push(c2);
        out.push(c3);
        i = i + 4;
    }
    out
}

/// Composes one frame from the source raster `src` (RGBA) and the reference
/// raster `prev` of the same size: per pixel, by its alpha and the frame's
/// disposal method.
pub fn compose_pixels(
    src: &Vec<u8>,
    prev: &Vec<u8>,
    method: Disposal,
    color: &Color,
    order: ByteOrder,
) -> (r: Vec<u8>)
    requires
        src@.len() % 4 == 0,
        prev@.len() == src@.len(),
    ensures
        r@.len() == src@.len(),
        forall|k: int|
            0 <= k < r@.len() ==> r@[k] == composed_byte(src@, prev@, method, *color, order, k),
{
    let len = src.len();
    let keep = method == Disposal::Keep;
    let i0 = channel_index(order, 0);
    let i1 = channel_index(order, 1);
    let i2 = channel_index(order, 2);
    let b0 = background_channel(color, i0);
    let b1 = background_channel(color, i1);
    let b2 = background_channel(color, i2);
    let mut out: Vec<u8> = Vec::with_capacity(len);
    let mut i: usize = 0;
    while i < len
        invariant
            len == src@.len(),
            len % 4 == 0,
            prev@.len() == len,
            i % 4 == 0,
            i <= len,
            out@.len() == i,
            keep == (method == Disposal::Keep),
            i0 == channel_of(order, 0),
            i1 == channel_of(order, 1),
            i2 == channel_of(order, 2),
            b0 == background_rgba(*color, channel_of(order, 0)),
            b1 == background_rgba(*color, channel_of(order, 1)),
            b2 == background_rgba(*color, channel_of(order, 2)),
            forall|k: int|
                0 <= k < out@.len() ==> out@[k] == composed_byte(
                    src@,
                    prev@,
                    method,
                    *color,
                    order,
                    k,
                ),
        decreases len - i,
    {
        proof {
            lemma_pixel_offsets(i as int);
        }
        let alpha = src[i + 3];
        if alpha == 255 {
            out.push(src[i + i0]);
            out.push(src[i + i1]);
            out.push(src[i + i2]);
            out.push(src[i + 3]);
        } else if keep {
            out.push(prev[i]);
            out.push(prev[i + 1]);
            out.push(prev[i + 2]);
            out.push(prev[i + 3]);
        } else {
            out.push(b0);
            out.push(b1);
            out.push(b2);
            out.push(alpha);
        }
        i = i + 4;
    }
    out
}

/// Delay of a step in milliseconds: the declared delay in centiseconds, or
/// the default where none or zero is declared.
pub open spec fn step_delay_ms(delay_cs: Option<u16>, default_delay: u16) -> int {
    let cs = match delay_cs {
        Some(d) => if d > 0 {
            d
        } else {
            default_delay
        },
        None => default_delay,
    };
    cs as int * 10
}

/// Get delay of a step in milliseconds. Use the default, if the step declares
/// none or zero.
pub fn get_step_duration(delay_cs: Option<u16>, default_delay: u16) -> (r: u64)
    ensures
        r as int == step_delay_ms(delay_cs, default_delay),
{
    let mut delay: u16 = match delay_cs {
        Some(d) => d,
        None => default_delay,
    };
    if delay == 0 {
        delay = default_delay;
    }
    (delay as u64) * 10
}

/// A raster of this resolution can be allocated: its bytes stay within
/// `isize::MAX`.
pub open spec fn fits_memory(resolution: Resolution) -> bool {
    resolution.width as int * resolution.height as int * 4 <= isize::MAX
}

/// The scaler's intermediate raster, `from.width` x `to.height` pixels of
/// four `f32`, can be allocated.
pub open spec fn resize_fits(from: Resolution, to: Resolution) -> bool {
    from.width as int * to.height as int * 16 <= isize::MAX
}

/// Frames of `image` can be rendered at `target`: the target raster can be
/// allocated, and so can the scaler's, where scaling is needed.
pub open spec fn renderable(image: Resolution, target: Resolution) -> bool {
    fits_memory(target) && (image != target ==> resize_fits(image, target))
}

/// Whether a raster of this resolution can be allocated.
pub fn fits_in_memory(resolution: Resolution) -> (r: bool)
    ensures
        r == fits_memory(resolution),
{
    proof {
        crate::position::lemma_u32_product_fits(resolution.width, resolution.height);
    }
    let size: u64 = (resolution.width as u64) * (resolution.height as u64);
    size <= (isize::MAX as u64) / 4
}

/// Whether frames of `image` can be rendered at `target`.
pub fn can_render(image: Resolution, target: Resolution) -> (r: bool)
    ensures
        r == renderable(image, target),
{
    if !fits_in_memory(target) {
        return false;
    }
    if image == target {
        return true;
    }
    proof {
        crate::position::lemma_u32_product_fits(image.width, target.height);
    }
    let scratch: u64 = (image.width as u64) * (target.height as u64);
    scratch <= (isize::MAX as u64) / 16
}

/// Resampling filters that frames are scaled with.
#[derive(Clone, Copy, Debug, PartialEq, Eq, Structural)]
pub enum ResizeFilter {
    /// Nearest-neighbour.
    Point,
    /// Windowed sinc of radius three, for shrinking.
    Lanczos3,
    /// Mitchell-Netravali cubic, for growing.
    Mitchell,
}

/// The filter to scale from `from` to `to` with: always nearest-neighbour
/// for `PIXEL`; for `AUTO` a sharp filter when shrinking, a soft one else.
pub open spec fn filter_for(filter: ScalingFilter, from: Resolution, to: Resolution) -> ResizeFilter {
    match filter {
        ScalingFilter::PIXEL => ResizeFilter::Point,
        ScalingFilter::AUTO => if from.width as int * from.height as int > to.width as int
            * to.height as int {
            ResizeFilter::Lanczos3
        } else {
            ResizeFilter::Mitchell
        },
    }
}

/// What the resize crate makes of an RGBA-raster of `from_width` x
/// `from_height` scaled to `to_width` x `to_height` with `filter`.
pub uninterp spec fn resampled(
    pixels: Seq<u8>,
    from_width: u32,
    from_height: u32,
    to_width: u32,
    to_height: u32,
    filter: ResizeFilter,
) -> Seq<u8>;

/// Relies on `resize::new` and `Resizer::resize`, with four 8-bit channels
/// per pixel: `dst` is overwritten with the scaled raster. Not for `Point`:
/// resize's point filter can compute an inverted range of source pixels and
/// underflow; nearest-neighbour scaling is `nearest_resize`. They panic unless
/// the source holds four bytes per pixel and `dst` has the target's size, and
/// where the intermediate raster cannot be allocated.
#[verifier::external_body]
fn resample(
    pixels: &Vec<u8>,
    from: Resolution,
    to: Resolution,
    filter: ResizeFilter,
    dst: &mut Vec<u8>,
)
    requires
        from.wf(),
        pixels@.len() == from.width as int * from.height as int * 4,
        old(dst)@.len() == to.width as int * to.height as int * 4,
        resize_fits(from, to),
        filter != ResizeFilter::Point,
    ensures
        final(dst)@ == resampled(pixels@, from.width, from.height, to.width, to.height, filter),
        final(dst)@.len() == old(dst)@.len(),
{
    let filter_type = match filter {
        ResizeFilter::Point => resize::Type::Point,
        ResizeFilter::Lanczos3 => resize::Type::Lanczos3,
        ResizeFilter::Mitchell => resize::Type::Mitchell,
    };
    let (w1, h1) = (from.width as usize, from.height as usize);
    let (w2, h2) = (to.width as usize, to.height as usize);
    resize::new(w1, h1, w2, h2, resize::Pixel::RGBA, filter_type).resize(pixels, dst);
}

/// Position in the source, along one axis of length `from_len`, of the
/// pixel nearest to the centre of target pixel `x` on an axis of length
/// `to_len`.
pub open spec fn nearest_index(x: int, from_len: int, to_len: int) -> int {
    ((2 * x + 1) * from_len) / (2 * to_len)
}

/// Byte `k` of the raster scaled from `from` to `to` by nearest neighbour.
pub open spec fn nearest_byte(pixels: Seq<u8>, from: Resolution, to: Resolution, k: int) -> u8 {
    let p = k / 4;
    let x = p % to.width as int;
    let y = p / to.width as int;
    let sx = nearest_index(x, from.width as int, to.width as int);
    let sy = nearest_index(y, from.height as int, to.height as int);
    pixels[(sy * from.width + sx) * 4 + k % 4]
}

/// The raster scaled from `from` to `to` by nearest neighbour.
pub open spec fn nearest_resized(pixels: Seq<u8>, from: Resolution, to: Resolution) -> Seq<u8> {
    Seq::new(
        (to.width as int * to.height as int * 4) as nat,
        |k: int| nearest_byte(pixels, from, to, k),
    )
}

/// A raster at its target resolution: unchanged where the resolutions agree,
/// else scaled with the filter that `filter` picks: nearest neighbour, or
/// resampled by the resize crate.
pub open spec fn resized(pixels: Seq<u8>, from: Resolution, to: Resolution, filter: ScalingFilter) -> Seq<u8> {
    if from == to {
        pixels
    } else if filter_for(filter, from, to) == ResizeFilter::Point {
        nearest_resized(pixels, from, to)
    } else {
        resampled(pixels, from.width, from.height, to.width, to.height, filter_for(filter, from, to))
    }
}

/// The nearest source position lies within the source.
proof fn lemma_nearest_in_range(x: int, from_len: int, to_len: int)
    requires
        0 <= x < to_len,
        from_len > 0,
    ensures
        0 <= nearest_index(x, from_len, to_len) < from_len,
{
    let n = (2 * x + 1) * from_len;
    let d = 2 * to_len;
    assert(0 <= n) by (nonlinear_arith)
        requires
            n == (2 * x + 1) * from_len,
            0 <= x,
            from_len > 0,
    ;
    assert(n < d * from_len) by (nonlinear_arith)
        requires
            n == (2 * x + 1) * from_len,
            d == 2 * to_len,
            x < to_len,
            from_len > 0,
    ;
    vstd::arithmetic::div_mod::lemma_div_pos_is_pos(n, d);
    vstd::arithmetic::div_mod::lemma_multiply_divide_lt(n, d, from_len);
}

/// Byte `c` of target pixel (`x`, `y`) by nearest neighbour.
proof fn lemma_nearest_at(pixels: Seq<u8>, from: Resolution, to: Resolution, y: int, x: int, c: int)
    requires
        0 <= y < to.height,
        0 <= x < to.width,
        0 <= c < 4,
    ensures
        nearest_byte(pixels, from, to, (y * to.width + x) * 4 + c) == pixels[(nearest_index(
            y,
            from.height as int,
            to.height as int,
        ) * from.width + nearest_index(x, from.width as int, to.width as int)) * 4 + c],
{
    let p = y * to.width + x;
    let k = p * 4 + c;
    vstd::arithmetic::div_mod::lemma_fundamental_div_mod_converse(k, 4, p, c);
    assert(p >= 0) by (nonlinear_arith)
        requires
            p == y * to.width + x,
            y >= 0,
            x >= 0,
    ;
    vstd::arithmetic::div_mod::lemma_fundamental_div_mod_converse(p, to.width as int, y, x);
}

/// The source pixel nearest to a target pixel lies within the raster.
proof fn lemma_nearest_source(from: Resolution, sy: int, sx: int, c: int)
    requires
        0 <= sy < from.height,
        0 <= sx < from.width,
        0 <= c < 4,
    ensures
        0 <= (sy * from.width + sx) * 4 + c < from.width as int * from.height as int * 4,
{
    assert(0 <= (sy * from.width + sx) * 4 + c < from.width as int * from.height as int * 4)
        by (nonlinear_arith)
        requires
            0 <= sy < from.height,
            0 <= sx < from.width,
            0 <= c < 4,
    ;
}

/// Scales a raster by nearest neighbour: each target pixel takes the source
/// pixel nearest to its centre.
pub fn nearest_resize(pixels: &Vec<u8>, from: Resolution, to: Resolution) -> (r: Vec<u8>)
    requires
        from.wf(),
        pixels@.len() == from.width as int * from.height as int * 4,
        to.width as int * to.height as int * 4 <= usize::MAX,
    ensures
        r@ == nearest_resized(pixels@, from, to),
{
    let (fw, fh) = (from.width as u128, from.height as u128);
    let (tw, th) = (to.width as u128, to.height as u128);
    let mut out: Vec<u8> = Vec::new();
    let mut y: u32 = 0;
    while y < to.height
        invariant
            from.wf(),
            pixels@.len() == from.width as int * from.height as int * 4,
            to.width as int * to.height as int * 4 <= usize::MAX,
            fw == from.width,
            fh == from.height,
            tw == to.width,
            th == to.height,
            y <= to.height,
            out@.len() == y as int * to.width as int * 4,
            forall|k: int| 0 <= k < out@.len() ==> out@[k] == nearest_byte(pixels@, from, to, k),
        decreases to.height - y,
    {
        proof {
            lemma_nearest_in_range(y as int, from.height as int, to.height as int);
        }
        proof {
            lemma_u128_product(2 * y as int + 1, fh as int);
        }
        let sy: u128 = ((2 * (y as u128) + 1) * fh) / (2 * th);
        let mut x: u32 = 0;
        while x < to.width
            invariant
                from.wf(),
                pixels@.len() == from.width as int * from.height as int * 4,
                to.width as int * to.height as int * 4 <= usize::MAX,
                fw == from.width,
                fh == from.height,
                tw == to.width,
                th == to.height,
                y < to.height,
                x <= to.width,
                sy == nearest_index(y as int, from.height as int, to.height as int),
                0 <= sy < from.height,
                out@.len() == (y as int * to.width as int + x) * 4,
                forall|k: int| 0 <= k < out@.len() ==> out@[k] == nearest_byte(pixels@, from, to, k),
            decreases to.width - x,
        {
            proof {
                lemma_nearest_in_range(x as int, from.width as int, to.width as int);
            }
            proof {
                lemma_u128_product(2 * x as int + 1, fw as int);
            }
            let sx: u128 = ((2 * (x as u128) + 1) * fw) / (2 * tw);
            let ghost base = (y as int * to.width as int + x) * 4;
            let mut c: usize = 0;
            while c < 4
                invariant
                    from.wf(),
                    pixels@.len() == from.width as int * from.height as int * 4,
                    fw == from.width,
                    y < to.height,
                    x < to.width,
                    sy == nearest_index(y as int, from.height as int, to.height as int),
                    sx == nearest_index(x as int, from.width as int, to.width as int),
                    0 <= sy < from.height,
                    0 <= sx < from.width,
                    base == (y as int * to.width as int + x) * 4,
                    c <= 4,
                    out@.len() == base + c,
                    forall|k: int| 0 <= k < out@.len() ==> out@[k] == nearest_byte(pixels@, from, to, k),
                decreases 4 - c,
            {
                proof {
                    lemma_nearest_source(from, sy as int, sx as int, c as int);
                    lemma_nearest_at(pixels@, from, to, y as int, x as int, c as int);
                    lemma_u128_product(sy as int, fw as int);
                }
                let index: u128 = (sy * fw + sx) * 4 + (c as u128);
                let len: usize = pixels.len();
                assert((index as int) < len as int);
                let i: usize = index as usize;
                assert(i as int == (sy as int * from.width + sx as int) * 4 + c as int);
                out.push(pixels[i]);
                c = c + 1;
            }
            proof {
                assert((y as int * to.width as int + x) * 4 + 4 == (y as int * to.width as int + (x + 1)) * 4);
            }
            x = x + 1;
        }
        proof {
            assert((y as int * to.width as int + to.width as int) * 4 == (y + 1) as int * to.width as int * 4) by (nonlinear_arith);
        }
        y = y + 1;
    }
    proof {
        assert(to.height as int * to.width as int * 4 == to.width as int * to.height as int * 4)
            by (nonlinear_arith);
        assert(out@ =~= nearest_resized(pixels@, from, to));
    }
    out
}

/// A product of two numbers below `2^34` fits into a `u128`.
proof fn lemma_u128_product(a: int, b: int)
    requires
        0 <= a <= 0x4_0000_0000,
        0 <= b <= 0x4_0000_0000,
    ensures
        0 <= a * b <= 0x10_0000_0000_0000_0000,
{
    assert(0 <= a * b <= 0x10_0000_0000_0000_0000) by (nonlinear_arith)
        requires
            0 <= a <= 0x4_0000_0000,
            0 <= b <= 0x4_0000_0000,
    ;
}

/// Picks the resampling filter to scale from `from` to `to` with.
pub fn choose_filter(filter: ScalingFilter, from: &Resolution, to: &Resolution) -> (r: ResizeFilter)
    ensures
        r == filter_for(filter, *from, *to),
{
    match filter {
        ScalingFilter::PIXEL => ResizeFilter::Point,
        ScalingFilter::AUTO => {
            proof {
                crate::position::lemma_u32_product_fits(from.width, from.height);
                crate::position::lemma_u32_product_fits(to.width, to.height);
            }
            if (from.width as u64) * (from.height as u64) > (to.width as u64) * (to.height as u64) {
                ResizeFilter::Lanczos3
            } else {
                ResizeFilter::Mitchell
            }
        },
    }
}

/// Resize given RGBA-raster to target-resolution.
pub fn resize_raster(
    raster: &Vec<u8>,
    image_resolution: &Resolution,
    target_resolution: &Resolution,
    options: &Options,
) -> (r: Vec<u8>)
    requires
        image_resolution.wf(),
        raster@.len() == image_resolution.width as int * image_resolution.height as int * 4,
        renderable(*image_resolution, *target_resolution),
    ensures
        r@ == resized(raster@, *image_resolution, *target_resolution, options.scaling_filter),
        r@.len() == target_resolution.width as int * target_resolution.height as int * 4,
{
    if image_resolution.width == target_resolution.width
        && image_resolution.height == target_resolution.height {
        let same = raster.clone();
        assert(same@ =~= raster@);
        return same;
    }
    let filter = choose_filter(options.scaling_filter, image_resolution, target_resolution);
    if filter == ResizeFilter::Point {
        return nearest_resize(raster, *image_resolution, *target_resolution);
    }
    let size: usize = (target_resolution.width as usize) * (target_resolution.height as usize) * 4;
    let mut dst: Vec<u8> = vec![0u8; size];
    resample(raster, *image_resolution, *target_resolution, filter, &mut dst);
    dst
}

/// A frame rendered at one target resolution.
#[derive(Debug)]
pub struct RenderedFrame {
    /// How long the frame is shown, in milliseconds.
    pub delay_ms: u64,
    /// Its pixels in the byte order of the target surface.
    pub pixels: Vec<u8>,
}

/// The disposal method of step `i`; `NoAction` where none is known.
pub open spec fn method_at(methods: Seq<Disposal>, i: int) -> Disposal {
    if 0 <= i < methods.len() {
        methods[i]
    } else {
        Disposal::NoAction
    }
}

/// A raster of the given resolution in the opaque background colour.
pub open spec fn solid_raster(resolution: Resolution, color: Color, order: ByteOrder) -> Seq<u8> {
    Seq::new(
        (resolution.width as int * resolution.height as int * 4) as nat,
        |k: int| solid_byte(color, order, k),
    )
}

/// The RGBA-rasters of the steps.
pub open spec fn step_rasters(steps: Seq<RasterStep>) -> Seq<Seq<u8>> {
    steps.map_values(|s: RasterStep| s.pixels@)
}

/// The declared delays of the steps.
pub open spec fn step_delays(steps: Seq<RasterStep>) -> Seq<Option<u16>> {
    steps.map_values(|s: RasterStep| s.delay_cs)
}

/// Step `i` of `rasters` composed against its reference: the background for
/// the first step, the composed previous step for the others.
pub open spec fn composed_frame(
    rasters: Seq<Seq<u8>>,
    methods: Seq<Disposal>,
    image: Resolution,
    color: Color,
    order: ByteOrder,
    i: nat,
) -> Seq<u8>
    decreases i,
{
    let prev = if i == 0 {
        solid_raster(image, color, order)
    } else {
        composed_frame(rasters, methods, image, color, order, (i - 1) as nat)
    };
    let src = rasters[i as int];
    Seq::new(
        src.len(),
        |k: int| composed_byte(src, prev, method_at(methods, i as int), color, order, k),
    )
}

/// The frames for `target` are the rasters, composed and scaled to the
/// target's size, each with its delay.
pub open spec fn frames_rendered(
    frames: Seq<RenderedFrame>,
    rasters: Seq<Seq<u8>>,
    delays: Seq<Option<u16>>,
    methods: Seq<Disposal>,
    image: Resolution,
    target: Resolution,
    color: Color,
    order: ByteOrder,
    options: Options,
) -> bool {
    &&& frames.len() == rasters.len()
    &&& forall|i: int|
        0 <= i < frames.len() ==> (#[trigger] frames[i]).delay_ms == step_delay_ms(
            delays[i],
            options.default_delay,
        )
    &&& forall|i: int|
        0 <= i < frames.len() ==> (#[trigger] frames[i]).pixels@ == resized(
            composed_frame(rasters, methods, image, color, order, i as nat),
            image,
            target,
            options.scaling_filter,
        )
    &&& forall|i: int|
        0 <= i < frames.len() ==> (#[trigger] frames[i]).pixels@.len() == target.width as int
            * target.height as int * 4
}

/// Where the resolutions agree, the resize stage hands the raster on
/// unchanged.
pub proof fn lemma_resize_passthrough(pixels: Seq<u8>, resolution: Resolution, filter: ScalingFilter)
    ensures
        resized(pixels, resolution, resolution, filter) == pixels,
{
}

/// At a pixel `p` that is not fully opaque, a kept frame shows exactly the
/// bytes of the reference raster there; any other disposal shows the
/// background colour with the pixel's own alpha.
pub proof fn lemma_transparent_pixel(
    src: Seq<u8>,
    prev: Seq<u8>,
    method: Disposal,
    color: Color,
    order: ByteOrder,
    p: int,
)
    requires
        0 <= p,
        4 * p + 3 < src.len(),
        src[4 * p + 3] < 255,
    ensures
        forall|c: int|
            0 <= c < 4 ==> #[trigger] composed_byte(src, prev, method, color, order, 4 * p + c) == if method
                == Disposal::Keep {
                prev[4 * p + c]
            } else if c == 3 {
                src[4 * p + 3]
            } else {
                background_rgba(color, channel_of(order, c))
            },
{
    assert((4 * p) % 4 == 0);
    lemma_pixel_offsets(4 * p);
}

/// In the composed frames, a pixel of step `i > 0` that is not fully opaque
/// shows exactly the bytes of the previous composed frame where step `i` is
/// kept, and the background colour with its own alpha otherwise.
pub proof fn lemma_composed_transparent_pixel(
    rasters: Seq<Seq<u8>>,
    methods: Seq<Disposal>,
    image: Resolution,
    color: Color,
    order: ByteOrder,
    i: nat,
    p: int,
)
    requires
        0 < i < rasters.len(),
        0 <= p,
        4 * p + 3 < rasters[i as int].len(),
        rasters[i as int][4 * p + 3] < 255,
    ensures
        forall|c: int|
            0 <= c < 4 ==> #[trigger] composed_frame(rasters, methods, image, color, order, i)[4 * p
                + c] == if method_at(methods, i as int) == Disposal::Keep {
                composed_frame(rasters, methods, image, color, order, (i - 1) as nat)[4 * p + c]
            } else if c == 3 {
                rasters[i as int][4 * p + 3]
            } else {
                background_rgba(color, channel_of(order, c))
            },
{
    let prev = composed_frame(rasters, methods, image, color, order, (i - 1) as nat);
    lemma_transparent_pixel(rasters[i as int], prev, method_at(methods, i as int), color, order, p);
}

/// Render the steps of an animation as frames for one target resolution:
/// each step is composed against its reference, then scaled. Before each
/// step `running` is looked at; once it is `false`, rendering stops and
/// `None` is returned.
pub fn render_frames(
    steps: &Vec<RasterStep>,
    methods: &Vec<Disposal>,
    image_resolution: Resolution,
    target_resolution: Resolution,
    background: &Color,
    order: ByteOrder,
    options: &Options,
    running: &AtomicBool,
) -> (r: Option<Vec<RenderedFrame>>)
    requires
        image_resolution.wf(),
        fits_memory(image_resolution),
        renderable(image_resolution, target_resolution),
        forall|i: int| 0 <= i < steps@.len() ==> (#[trigger] steps@[i]).has_resolution(image_resolution),
    ensures
        steps@.len() == 0 ==> (r matches Some(frames) && frames@.len() == 0),
        r matches Some(frames) ==> frames_rendered(
            frames@,
            step_rasters(steps@),
            step_delays(steps@),
            methods@,
            image_resolution,
            target_resolution,
            *background,
            order,
            *options,
        ),
{
    let ghost rasters = step_rasters(steps@);
    let mut rendered: Vec<RenderedFrame> = Vec::new();
    let mut prev = solid_background(image_resolution.width, image_resolution.height, background, order);
    assert(prev@ =~= solid_raster(image_resolution, *background, order));
    let mut frame_index: usize = 0;
    while frame_index < steps.len()
        invariant
            rasters == step_rasters(steps@),
            image_resolution.wf(),
            fits_memory(image_resolution),
            renderable(image_resolution, target_resolution),
            forall|i: int| 0 <= i < steps@.len() ==> (#[trigger] steps@[i]).has_resolution(image_resolution),
            frame_index <= steps@.len(),
            rendered@.len() == frame_index,
            prev@.len() == image_resolution.width as int * image_resolution.height as int * 4,
            frame_index == 0 ==> prev@ == solid_raster(image_resolution, *background, order),
            frame_index > 0 ==> prev@ == composed_frame(
                rasters,
                methods@,
                image_resolution,
                *background,
                order,
                (frame_index - 1) as nat,
            ),
            forall|i: int|
                0 <= i < rendered@.len() ==> (#[trigger] rendered@[i]).delay_ms == step_delay_ms(
                    steps@[i].delay_cs,
                    options.default_delay,
                ),
            forall|i: int|
                0 <= i < rendered@.len() ==> (#[trigger] rendered@[i]).pixels@ == resized(
                    composed_frame(rasters, methods@, image_resolution, *background, order, i as nat),
                    image_resolution,
                    target_resolution,
                    options.scaling_filter,
                ),
            forall|i: int|
                0 <= i < rendered@.len() ==> (#[trigger] rendered@[i]).pixels@.len()
                    == target_resolution.width as int * target_resolution.height as int * 4,
        decreases steps@.len() - frame_index,
    {
        if !running.load(Ordering::SeqCst) {
            return None;
        }
        let step = &steps[frame_index];
        let method = if frame_index < methods.len() {
            methods[frame_index]
        } else {
            Disposal::NoAction
        };
        assert(step.pixels@.len() % 4 == 0);
        assert(rasters[frame_index as int] == step.pixels@);
        let data = compose_pixels(&step.pixels, &prev, method, background, order);
        assert(data@ =~= composed_frame(
            rasters,
            methods@,
            image_resolution,
            *background,
            order,
            frame_index as nat,
        ));
        let pixels = resize_raster(&data, &image_resolution, &target_resolution, options);
        let delay_ms = get_step_duration(step.delay_cs, options.default_delay);
        rendered.push(RenderedFrame { delay_ms, pixels });
        prev = data;
        frame_index = frame_index + 1;
    }
    assert(rendered@.len() == rasters.len());
    assert forall|i: int| 0 <= i < rendered@.len() implies (#[trigger] rendered@[i]).delay_ms
        == step_delay_ms(step_delays(steps@)[i], options.default_delay) by {
        assert(step_delays(steps@)[i] == steps@[i].delay_cs);
    }
    Some(rendered)
}

} // verus!
