//! Defines options of the wallpaper-animation, and how the values given on
//! the command line become options.
use vstd::prelude::*;

use crate::number::{parse_u16, parsed_number};
use crate::position::{Scaling, ScalingFilter};

verus! {

/// Delay in centiseconds used where the given default-delay is unusable.
pub const DEFAULT_DELAY: u16 = 10;

/// Runtime options as given by the caller of this program.
#[derive(Debug)]
pub struct Options {
    /// X11-compilant color-name
    pub background_color: String,
    /// Delay in centiseconds between frames, where a frame declares none.
    pub default_delay: u16,
    pub path_to_gif: String,
    /// Scaling-method to use
    pub scaling: Scaling,
    pub scaling_filter: ScalingFilter,
    pub verbose: bool,
    /// Window-Id as decimal or hex-number (0x-prefix) or name of atom with Id
    /// to use.
    pub window_id: String,
}

/// The default-delay given, or `DEFAULT_DELAY` where it is no `u16`.
pub open spec fn delay_option(s: Seq<char>) -> u16 {
    match parsed_number(s, 10, u16::MAX as int) {
        Some(v) => v as u16,
        None => DEFAULT_DELAY,
    }
}

/// Whether `s` is a usable default-delay: a `u16` in decimal.
pub fn is_valid_delay(s: &str) -> (r: bool)
    ensures
        r == parsed_number(s@, 10, u16::MAX as int) is Some,
{
    parse_u16(s).is_some()
}

/// The scaling-option by its name; `NONE` for any other name.
pub open spec fn scaling_option(s: Seq<char>) -> Scaling {
    if s == seq!['F', 'I', 'L', 'L'] {
        Scaling::FILL
    } else if s == seq!['M', 'A', 'X'] {
        Scaling::MAX
    } else {
        Scaling::NONE
    }
}

/// The scaling-filter by its name; `AUTO` for any other name.
pub open spec fn scaling_filter_option(s: Seq<char>) -> ScalingFilter {
    if s == seq!['P', 'I', 'X', 'E', 'L'] {
        ScalingFilter::PIXEL
    } else {
        ScalingFilter::AUTO
    }
}

/// Whether `s` reads `name`.
fn is_named(s: &str, name: &str) -> (r: bool)
    ensures
        r == (s@ == name@),
{
    s.to_owned() == name.to_owned()
}

impl Options {
    /// Options from the values of the command-line arguments. An unusable
    /// default-delay is replaced by `DEFAULT_DELAY`; a missing window-id
    /// becomes the empty string.
    pub fn from_values(
        background_color: &str,
        default_delay: &str,
        path_to_gif: &str,
        scale: &str,
        scale_filter: &str,
        verbose: bool,
        window_id: Option<&str>,
    ) -> (r: Options)
        ensures
            r.background_color@ == background_color@,
            r.default_delay == delay_option(default_delay@),
            r.path_to_gif@ == path_to_gif@,
            r.scaling == scaling_option(scale@),
            r.scaling_filter == scaling_filter_option(scale_filter@),
            r.verbose == verbose,
            r.window_id@ == match window_id {
                Some(w) => w@,
                None => Seq::<char>::empty(),
            },
    {
        let delay = match parse_u16(default_delay) {
            Some(d) => d,
            None => DEFAULT_DELAY,
        };
        proof {
            reveal_strlit("FILL");
            reveal_strlit("MAX");
            reveal_strlit("PIXEL");
            assert("FILL"@ =~= seq!['F', 'I', 'L', 'L']);
            assert("MAX"@ =~= seq!['M', 'A', 'X']);
            assert("PIXEL"@ =~= seq!['P', 'I', 'X', 'E', 'L']);
        }
        let scaling = if is_named(scale, "FILL") {
            Scaling::FILL
        } else if is_named(scale, "MAX") {
            Scaling::MAX
        } else {
            Scaling::NONE
        };
        let scaling_filter = if is_named(scale_filter, "PIXEL") {
            ScalingFilter::PIXEL
        } else {
            ScalingFilter::AUTO
        };
        let window_id = match window_id {
            Some(w) => w.to_owned(),
            None => String::new(),
        };
        Options {
            background_color: background_color.to_owned(),
            default_delay: delay,
            path_to_gif: path_to_gif.to_owned(),
            scaling,
            scaling_filter,
            verbose,
            window_id,
        }
    }
}

} // verus!
