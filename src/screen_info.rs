//! Screens as the display reports them, with their arrangement.
use vstd::prelude::*;

verus! {

/// The screens of a display.
#[derive(Debug)]
pub struct ScreenInfo {
    /// `true`, if every screen has its own root-window.
    pub root_per_screen: bool,
    pub screens: Vec<Screen>,
}

/// A single screen.
#[derive(Clone, Copy, Debug, PartialEq, Eq, Structural)]
pub struct Screen {
    pub screen_number: i32,
    pub x_org: i32,
    pub y_org: i32,
    pub width: u32,
    pub height: u32,
}

} // verus!
