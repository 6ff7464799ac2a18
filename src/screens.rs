//! The `Screen`-structure and its collection.
use vstd::prelude::*;

verus! {

/// Collection of screens.
#[derive(Debug)]
pub struct Screens {
    /// `true`, if every screen has its own root-window.
    pub root_per_screen: bool,
    /// Ordered list of `Screen`.
    pub screens: Vec<Screen>,
}

/// Information about a single screen.
#[derive(Clone, Copy, Debug, PartialEq, Eq, Structural)]
pub struct Screen {
    /// Logical number / id of screen.
    pub screen_number: i32,
    /// Origin on x-axis of this screen in a combined display-arrangement.
    pub x_org: i32,
    /// Origin on y-axis of this screen in a combined display-arrangement.
    pub y_org: i32,
    /// Width of this screen.
    pub width: u32,
    /// Height of this screen.
    pub height: u32,
}

impl Screen {
    /// The screen lies within the addressable display space: its far edges
    /// are still representable as `i32` coordinates.
    pub open spec fn wf(&self) -> bool {
        &&& self.x_org as int + self.width as int <= i32::MAX as int
        &&& self.y_org as int + self.height as int <= i32::MAX as int
    }
}

} // verus!
