//! Animates a GIF as desktop background: the geometry, frame composition and
//! scheduling logic behind it.
//!
//! The animation is decoded twice: once for what its frames declare (disposal
//! method and delay), once for its raster steps. The raster steps are kept
//! in memory and composed anew for each distinct target resolution, rather
//! than decoded again per resolution.
pub mod placement;
pub mod position;
pub mod screen_info;
pub mod screens;
pub mod compose;
pub mod decode;
pub mod scan;
pub mod number;
pub mod options;
pub mod wallpapers;
pub mod animation;
pub mod xcontext;

pub use wallpapers::{render_wallpapers, Wallpapers};
