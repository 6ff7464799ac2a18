//! Placement of an image on a screen, in signed coordinates.
use vstd::prelude::*;

use crate::screen_info::Screen;

verus! {

/// How an image is placed on a screen.
#[derive(Clone, Copy, Debug, PartialEq, Eq, Structural)]
pub enum ImagePlacementStrategy {
    CENTER,
}

/// Coordinates to place an image.
#[derive(Clone, Copy, Debug, PartialEq, Eq, Structural)]
pub struct ImagePlacement {
    pub src_x: i32,
    pub src_y: i32,
    pub dest_x: i32,
    pub dest_y: i32,
    pub width: i32,
    pub height: i32,
}

/// Offset into the image and visible length along one axis, for an image of
/// length `len` on a screen of length `screen_len`.
pub open spec fn clipped(len: i32, screen_len: u32) -> (i32, i32) {
    if len > screen_len {
        (((len - screen_len) / 2) as i32, screen_len as i32)
    } else {
        (0, len)
    }
}

/// Destination along one axis: centered where the screen is longer than the
/// image, else at the screen's origin.
pub open spec fn centered_at(len: i32, org: i32, screen_len: u32) -> i32 {
    if screen_len > len {
        (org + (screen_len - len) / 2) as i32
    } else {
        org
    }
}

/// Where the image is narrower (shorter) than the screen, the centered
/// destination is still an `i32` coordinate.
pub open spec fn centering_fits(width: i32, height: i32, screen: Screen) -> bool {
    &&& screen.width > width ==> screen.x_org + (screen.width - width) / 2 <= i32::MAX
    &&& screen.height > height ==> screen.y_org + (screen.height - height) / 2 <= i32::MAX
}

/// The placement of an image of `width` x `height`, centered on `screen`.
pub open spec fn centered(width: i32, height: i32, screen: Screen) -> ImagePlacement {
    ImagePlacement {
        src_x: clipped(width, screen.width).0,
        src_y: clipped(height, screen.height).0,
        dest_x: centered_at(width, screen.x_org, screen.width),
        dest_y: centered_at(height, screen.y_org, screen.height),
        width: clipped(width, screen.width).1,
        height: clipped(height, screen.height).1,
    }
}

/// Computes the placement of an image on a screen, by strategy.
pub fn get_image_placement(
    width: i32,
    height: i32,
    screen: Screen,
    strategy: ImagePlacementStrategy,
) -> (r: ImagePlacement)
    requires
        centering_fits(width, height, screen),
    ensures
        r == centered(width, height, screen),
{
    match strategy {
        ImagePlacementStrategy::CENTER => center_image(width, height, screen),
    }
}

fn center_image(width: i32, height: i32, screen: Screen) -> (r: ImagePlacement)
    requires
        centering_fits(width, height, screen),
    ensures
        r == centered(width, height, screen),
{
    let mut out = ImagePlacement {
        src_x: 0,
        src_y: 0,
        dest_x: screen.x_org,
        dest_y: screen.y_org,
        width,
        height,
    };
    let (w, h) = (width as i64, height as i64);
    let (sw, sh) = (screen.width as i64, screen.height as i64);
    if w > sw {
        out.src_x = ((w - sw) / 2) as i32;
        out.width = sw as i32;
    }
    if h > sh {
        out.src_y = ((h - sh) / 2) as i32;
        out.height = sh as i32;
    }
    if sw > w {
        out.dest_x = (screen.x_org as i64 + (sw - w) / 2) as i32;
    }
    if sh > h {
        out.dest_y = (screen.y_org as i64 + (sh - h) / 2) as i32;
    }
    out
}

} // verus!
