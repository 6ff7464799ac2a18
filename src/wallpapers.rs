//! Screens to render wallpapers on, with the frames pre-rendered once per
//! needed resolution.
use vstd::prelude::*;

use crate::compose::{
    can_render, fits_in_memory, fits_memory, frames_rendered, render_frames, renderable,
    step_delays, step_rasters, ByteOrder, Color, Disposal, RenderedFrame,
};
use crate::decode::{
    control_delay, control_method, decode_steps, decoded_fit, decoded_resolution, delay_at,
    gather_frame_controls, gif_controls, gif_steps, DecodeError, RasterStep,
};
use std::sync::atomic::AtomicBool;
use crate::options::Options;
use crate::scan::gif_safe;
use crate::position::{
    centered_placement, target_resolution, Alignment, ImagePlacement, Resolution, Scaling,
};
use crate::screens::{Screen, Screens};

verus! {

/// Resolution and placement of a wallpaper on a screen.
#[derive(Clone, Copy, Debug, PartialEq, Eq, Structural)]
pub struct WallpaperOnScreen {
    pub placement: ImagePlacement,
    /// Resolution the frames for this screen are rendered in.
    pub resolution: Resolution,
    pub screen: Screen,
    /// Position of the frames of `resolution` among the rendered framesets.
    pub frameset: usize,
}

/// The frames rendered for one resolution.
#[derive(Debug)]
pub struct FrameSet {
    pub resolution: Resolution,
    pub frames: Vec<RenderedFrame>,
}

/// Screens to render wallpapers on, with needed resolution. And the
/// pre-rendered frames, once per distinct resolution. The framesets are kept
/// in a `Vec` whose resolutions are distinct (see `wf`), not in a `HashMap`
/// keyed by `Resolution`: Verus proves nothing of the lookups of a `HashMap`
/// with a key of a struct type, and the order of first use is kept.
#[derive(Debug)]
pub struct Wallpapers {
    image_resolution: Resolution,
    screens: Vec<WallpaperOnScreen>,
    frames_by_resolution: Vec<FrameSet>,
}

/// Why wallpapers could not be rendered.
#[derive(Clone, Copy, Debug, PartialEq, Eq, Structural)]
pub enum RenderError {
    /// The animation could not be decoded, holds no step, or its rasters
    /// are malformed.
    InvalidFile,
    /// A screen has no area, or reaches beyond the coordinate space.
    InvalidScreen,
    /// A frame, or the scaler's intermediate raster, could not be allocated.
    TooLarge,
    /// Rendering was cancelled.
    Cancelled,
}

/// The resolution of a screen.
pub open spec fn screen_resolution(screen: Screen) -> Resolution {
    Resolution { width: screen.width, height: screen.height }
}

/// The resolution the image is rendered in for a screen.
pub open spec fn target_for(image: Resolution, screen: Screen, scaling: Scaling) -> Resolution {
    target_resolution(image, screen_resolution(screen), scaling)
}

/// A screen has a positive area and lies within the coordinate space.
pub open spec fn screen_ok(screen: Screen) -> bool {
    screen.width > 0 && screen.height > 0 && screen.wf()
}

/// The resolutions of `rs` without repetitions, in the order of their first
/// occurrence.
pub open spec fn distinct_resolutions(rs: Seq<Resolution>) -> Seq<Resolution>
    decreases rs.len(),
{
    if rs.len() == 0 {
        Seq::empty()
    } else {
        let d = distinct_resolutions(rs.drop_last());
        if d.contains(rs.last()) {
            d
        } else {
            d.push(rs.last())
        }
    }
}

impl Wallpapers {
    /// The resolution of the animation itself.
    pub closed spec fn image_view(&self) -> Resolution {
        self.image_resolution
    }

    /// The wallpapers per screen, in order of the screens.
    pub closed spec fn screens_view(&self) -> Seq<WallpaperOnScreen> {
        self.screens@
    }

    /// The rendered framesets, one per distinct resolution.
    pub closed spec fn sets_view(&self) -> Seq<FrameSet> {
        self.frames_by_resolution@
    }

    /// The resolutions that frames were rendered for, in order.
    pub open spec fn keys(&self) -> Seq<Resolution> {
        self.sets_view().map_values(|s: FrameSet| s.resolution)
    }

    /// The resolutions needed by the screens, in order.
    pub open spec fn screen_keys(&self) -> Seq<Resolution> {
        self.screens_view().map_values(|w: WallpaperOnScreen| w.resolution)
    }

    /// Every screen refers to the frameset of its resolution; there is one
    /// frameset per distinct resolution, none of them empty and all of one
    /// length.
    pub open spec fn wf(&self) -> bool {
        &&& self.screens_view().len() <= usize::MAX
        &&& self.keys() == distinct_resolutions(self.screen_keys())
        &&& forall|i: int|
            0 <= i < self.screens_view().len() ==> {
                let w = #[trigger] self.screens_view()[i];
                &&& w.frameset < self.sets_view().len()
                &&& self.sets_view()[w.frameset as int].resolution == w.resolution
            }
        &&& forall|k: int|
            0 <= k < self.sets_view().len() ==> (#[trigger] self.sets_view()[k]).frames@.len()
                > 0
        &&& forall|k: int|
            0 <= k < self.sets_view().len() ==> (#[trigger] self.sets_view()[k]).frames@.len()
                == self.sets_view()[0].frames@.len()
    }

    /// The resolution of the animation itself.
    pub fn image_resolution(&self) -> (r: Resolution)
        ensures
            r == self.image_view(),
    {
        self.image_resolution
    }

    /// Number of screens.
    pub fn screen_count(&self) -> (r: usize)
        ensures
            r == self.screens_view().len(),
    {
        self.screens.len()
    }

    /// Number of framesets, one per distinct resolution.
    pub fn frameset_count(&self) -> (r: usize)
        ensures
            r == self.sets_view().len(),
    {
        self.frames_by_resolution.len()
    }

    /// The wallpaper of screen `i`.
    pub fn screen(&self, i: usize) -> (r: &WallpaperOnScreen)
        requires
            i < self.screens_view().len(),
        ensures
            *r == self.screens_view()[i as int],
    {
        &self.screens[i]
    }

    /// The frames rendered for screen `i`.
    pub fn frames_of(&self, i: usize) -> (r: &Vec<RenderedFrame>)
        requires
            self.wf(),
            i < self.screens_view().len(),
        ensures
            *r == self.sets_view()[self.screens_view()[i as int].frameset as int].frames,
    {
        let k = self.screens[i].frameset;
        &self.frames_by_resolution[k].frames
    }

    /// All frames, by resolution; to release what each of them holds.
    pub fn framesets(&self) -> (r: &Vec<FrameSet>)
        ensures
            r@ == self.sets_view(),
    {
        &self.frames_by_resolution
    }
}

/// Position of `resolution` among the resolutions of `sets`, if there.
fn find_frameset(sets: &Vec<FrameSet>, resolution: Resolution) -> (r: Option<usize>)
    ensures
        match r {
            Some(k) => k < sets@.len() && sets@[k as int].resolution == resolution,
            None => !sets@.map_values(|s: FrameSet| s.resolution).contains(resolution),
        },
{
    let mut k: usize = 0;
    while k < sets.len()
        invariant
            k <= sets@.len(),
            forall|j: int| 0 <= j < k ==> sets@[j].resolution != resolution,
        decreases sets@.len() - k,
    {
        if sets[k].resolution == resolution {
            return Some(k);
        }
        k = k + 1;
    }
    proof {
        let keys = sets@.map_values(|s: FrameSet| s.resolution);
        assert forall|j: int| 0 <= j < keys.len() implies keys[j] != resolution by {
            assert(keys[j] == sets@[j].resolution);
        }
    }
    None
}

/// The resolutions the image is rendered in for the screens, in order.
pub open spec fn targets_for(image: Resolution, screens: Seq<Screen>, scaling: Scaling) -> Seq<Resolution> {
    screens.map_values(|s: Screen| target_for(image, s, scaling))
}

/// `distinct_resolutions` holds each resolution of `rs` once, and nothing
/// else.
pub proof fn lemma_distinct_resolutions(rs: Seq<Resolution>)
    ensures
        distinct_resolutions(rs).len() <= rs.len(),
        distinct_resolutions(rs).no_duplicates(),
        forall|k: int| 0 <= k < rs.len() ==> distinct_resolutions(rs).contains(#[trigger] rs[k]),
        forall|x: Resolution| distinct_resolutions(rs).contains(x) ==> rs.contains(x),
    decreases rs.len(),
{
    if rs.len() > 0 {
        let init = rs.drop_last();
        lemma_distinct_resolutions(init);
        let d = distinct_resolutions(init);
        let e = distinct_resolutions(rs);
        assert forall|x: Resolution| d.contains(x) implies e.contains(x) by {
            let k = choose|k: int| 0 <= k < d.len() && d[k] == x;
            if !d.contains(rs.last()) {
                assert(e[k] == x);
            }
        }
        assert forall|k: int| 0 <= k < rs.len() implies e.contains(#[trigger] rs[k]) by {
            if k < rs.len() - 1 {
                assert(init[k] == rs[k]);
                assert(d.contains(init[k]));
            } else if !d.contains(rs.last()) {
                assert(e[d.len() as int] == rs.last());
            }
        }
        assert forall|x: Resolution| e.contains(x) implies rs.contains(x) by {
            if d.contains(x) {
                assert(init.contains(x));
                let k = choose|k: int| 0 <= k < init.len() && init[k] == x;
                assert(rs[k] == x);
            } else {
                let k = choose|k: int| 0 <= k < e.len() && e[k] == x;
                assert(k == d.len());
                assert(rs[rs.len() - 1] == x);
            }
        }
        if !d.contains(rs.last()) {
            let e = d.push(rs.last());
            assert forall|a: int, b: int| 0 <= a < e.len() && 0 <= b < e.len() && a != b implies e[a]
                != e[b] by {
                if a < d.len() && b < d.len() {
                } else if a < d.len() {
                    assert(d.contains(e[a]));
                } else {
                    assert(d.contains(e[b]));
                }
            }
        }
    }
}

/// Where two of `rs` are equal, `distinct_resolutions` is shorter than `rs`.
pub proof fn lemma_distinct_resolutions_shrink(rs: Seq<Resolution>, i: int, j: int)
    requires
        0 <= i < j < rs.len(),
        rs[i] == rs[j],
    ensures
        distinct_resolutions(rs).len() < rs.len(),
    decreases rs.len(),
{
    let init = rs.drop_last();
    lemma_distinct_resolutions(init);
    if j == rs.len() - 1 {
        assert(init[i] == rs[i]);
        assert(distinct_resolutions(init).contains(rs.last()));
    } else {
        assert(init[i] == init[j]);
        lemma_distinct_resolutions_shrink(init, i, j);
    }
}

/// Screens that need the same resolution share one frameset, so fewer
/// framesets are rendered than there are screens.
pub proof fn lemma_shared_resolution_shares_frameset(w: &Wallpapers, i: int, j: int)
    requires
        w.wf(),
        0 <= i < j < w.screens_view().len(),
        w.screens_view()[i].resolution == w.screens_view()[j].resolution,
    ensures
        w.screens_view()[i].frameset == w.screens_view()[j].frameset,
        w.sets_view().len() < w.screens_view().len(),
{
    let keys = w.screen_keys();
    lemma_distinct_resolutions(keys);
    assert(keys[i] == keys[j]);
    lemma_distinct_resolutions_shrink(keys, i, j);
    let (a, b) = (w.screens_view()[i].frameset as int, w.screens_view()[j].frameset as int);
    assert(w.keys()[a] == w.sets_view()[a].resolution);
    assert(w.keys()[b] == w.sets_view()[b].resolution);
}

/// All screens have an area and lie within the coordinate space.
pub open spec fn all_screens_ok(screens: Seq<Screen>) -> bool {
    forall|i: int| 0 <= i < screens.len() ==> screen_ok(#[trigger] screens[i])
}

/// The frames for all screens can be rendered.
pub open spec fn all_renderable(image: Resolution, screens: Seq<Screen>, scaling: Scaling) -> bool {
    forall|i: int| 0 <= i < screens.len() ==> renderable(image, #[trigger] target_for(image, screens[i], scaling))
}

/// Whether all screens have an area and lie within the coordinate space.
fn screens_ok(screens: &Vec<Screen>) -> (r: bool)
    ensures
        r == all_screens_ok(screens@),
{
    let mut i: usize = 0;
    while i < screens.len()
        invariant
            i <= screens@.len(),
            forall|j: int| 0 <= j < i ==> screen_ok(#[trigger] screens@[j]),
        decreases screens@.len() - i,
    {
        let s = screens[i];
        if s.width == 0 || s.height == 0 || s.x_org as i64 + s.width as i64 > i32::MAX as i64
            || s.y_org as i64 + s.height as i64 > i32::MAX as i64 {
            return false;
        }
        i = i + 1;
    }
    true
}

/// Whether the frames for all screens can be rendered.
fn targets_fit(image: Resolution, screens: &Vec<Screen>, scaling: Scaling) -> (r: bool)
    requires
        image.wf(),
        forall|i: int| 0 <= i < screens@.len() ==> screen_ok(#[trigger] screens@[i]),
    ensures
        r == all_renderable(image, screens@, scaling),
{
    let mut i: usize = 0;
    while i < screens.len()
        invariant
            image.wf(),
            forall|i: int| 0 <= i < screens@.len() ==> screen_ok(#[trigger] screens@[i]),
            i <= screens@.len(),
            forall|j: int| 0 <= j < i ==> renderable(image, #[trigger] target_for(image, screens@[j], scaling)),
        decreases screens@.len() - i,
    {
        let s = screens[i];
        let target = image.fit_to_screen(&Resolution { width: s.width, height: s.height }, &scaling);
        if !can_render(image, target) {
            assert(!renderable(image, target_for(image, screens@[i as int], scaling)));
            return false;
        }
        i = i + 1;
    }
    true
}

/// Builds wallpapers for the screens from the decoded steps: each screen gets
/// the target resolution and centered placement of the image, and frames are
/// rendered once per distinct target resolution. Rendering stops with
/// `Cancelled` once `running` is found `false`.
pub fn build_wallpapers(
    image_resolution: Resolution,
    steps: &Vec<RasterStep>,
    methods: &Vec<Disposal>,
    screens: &Vec<Screen>,
    background: &Color,
    order: ByteOrder,
    options: &Options,
    running: &AtomicBool,
) -> (r: Result<Wallpapers, RenderError>)
    requires
        image_resolution.wf(),
        fits_memory(image_resolution),
        steps@.len() > 0,
        forall|i: int| 0 <= i < steps@.len() ==> (#[trigger] steps@[i]).has_resolution(image_resolution),
    ensures
        r == Err::<Wallpapers, RenderError>(RenderError::InvalidScreen) <==> !all_screens_ok(
            screens@,
        ),
        r == Err::<Wallpapers, RenderError>(RenderError::TooLarge) <==> all_screens_ok(screens@)
            && !all_renderable(image_resolution, screens@, options.scaling),
        r != Err::<Wallpapers, RenderError>(RenderError::InvalidFile),
        all_screens_ok(screens@) && all_renderable(image_resolution, screens@, options.scaling)
            ==> r is Ok || r == Err::<Wallpapers, RenderError>(RenderError::Cancelled),
        screens@.len() == 0 ==> r is Ok,
        r matches Ok(w) ==> built_from(
            w,
            image_resolution,
            step_rasters(steps@),
            step_delays(steps@),
            methods@,
            screens@,
            *background,
            order,
            *options,
        ),
{
    if !screens_ok(screens) {
        return Err(RenderError::InvalidScreen);
    }
    if !targets_fit(image_resolution, screens, options.scaling) {
        return Err(RenderError::TooLarge);
    }
    let ghost targets = targets_for(image_resolution, screens@, options.scaling);
    let ghost rasters = step_rasters(steps@);
    let ghost delays = step_delays(steps@);
    let mut wallpapers: Vec<WallpaperOnScreen> = Vec::new();
    let mut sets: Vec<FrameSet> = Vec::new();
    let mut i: usize = 0;
    while i < screens.len()
        invariant
            image_resolution.wf(),
            fits_memory(image_resolution),
            steps@.len() > 0,
            rasters == step_rasters(steps@),
            delays == step_delays(steps@),
            forall|i: int| 0 <= i < steps@.len() ==> (#[trigger] steps@[i]).has_resolution(image_resolution),
            all_screens_ok(screens@),
            all_renderable(image_resolution, screens@, options.scaling),
            targets == targets_for(image_resolution, screens@, options.scaling),
            i <= screens@.len(),
            wallpapers@.len() == i,
            sets@.map_values(|s: FrameSet| s.resolution) == distinct_resolutions(targets.take(i as int)),
            forall|j: int|
                0 <= j < i ==> {
                    let ws = #[trigger] wallpapers@[j];
                    &&& ws.screen == screens@[j]
                    &&& ws.resolution == targets[j]
                    &&& ws.placement == centered_placement(
                        ws.resolution.width,
                        ws.resolution.height,
                        screens@[j],
                    )
                    &&& ws.frameset < sets@.len()
                    &&& sets@[ws.frameset as int].resolution == ws.resolution
                },
            forall|k: int|
                0 <= k < sets@.len() ==> frames_rendered(
                    (#[trigger] sets@[k]).frames@,
                    rasters,
                    delays,
                    methods@,
                    image_resolution,
                    sets@[k].resolution,
                    *background,
                    order,
                    *options,
                ),
        decreases screens@.len() - i,
    {
        let screen = screens[i];
        assert(screen_ok(screens@[i as int]));
        assert(renderable(image_resolution, target_for(image_resolution, screens@[i as int], options.scaling)));
        let screen_res = Resolution { width: screen.width, height: screen.height };
        let target = image_resolution.fit_to_screen(&screen_res, &options.scaling);
        assert(target == targets[i as int]);
        let placement = target.position_on_screen(&screen, Alignment::CENTER);
        let ghost old_sets = sets@;
        assert(targets.take(i as int + 1).drop_last() =~= targets.take(i as int));
        assert(targets.take(i as int + 1).last() == target);
        let frameset = match find_frameset(&sets, target) {
            Some(k) => {
                assert(old_sets.map_values(|s: FrameSet| s.resolution)[k as int] == target);
                k
            },
            None => {
                let frames = match render_frames(
                    steps,
                    methods,
                    image_resolution,
                    target,
                    background,
                    order,
                    options,
                    running,
                ) {
                    Some(frames) => frames,
                    None => {
                        return Err(RenderError::Cancelled);
                    },
                };
                sets.push(FrameSet { resolution: target, frames });
                assert(sets@.map_values(|s: FrameSet| s.resolution) =~= old_sets.map_values(
                    |s: FrameSet| s.resolution,
                ).push(target));
                sets.len() - 1
            },
        };
        wallpapers.push(WallpaperOnScreen { placement, resolution: target, screen, frameset });
        i = i + 1;
    }
    assert(targets.take(i as int) =~= targets);
    let w = Wallpapers { image_resolution, screens: wallpapers, frames_by_resolution: sets };
    proof {
        assert(w.screen_keys() =~= targets);
        assert forall|k: int| 0 <= k < w.sets_view().len() implies (#[trigger] w.sets_view()[k]).frames@.len()
            > 0 && w.sets_view()[k].frames@.len() == w.sets_view()[0].frames@.len() by {
            assert(frames_rendered(w.sets_view()[k].frames@, rasters, delays, methods@, image_resolution, w.sets_view()[k].resolution, *background, order, *options));
            assert(frames_rendered(w.sets_view()[0].frames@, rasters, delays, methods@, image_resolution, w.sets_view()[0].resolution, *background, order, *options));
        }
    }
    Ok(w)
}

/// `w` holds wallpapers for `screens`, built from the image's rasters: each
/// screen with its target resolution and centered placement, and per
/// distinct resolution the rendered frames.
pub open spec fn built_from(
    w: Wallpapers,
    image: Resolution,
    rasters: Seq<Seq<u8>>,
    delays: Seq<Option<u16>>,
    methods: Seq<Disposal>,
    screens: Seq<Screen>,
    color: Color,
    order: ByteOrder,
    options: Options,
) -> bool {
    &&& w.wf()
    &&& w.image_view() == image
    &&& w.screens_view().len() == screens.len()
    &&& w.screen_keys() == targets_for(image, screens, options.scaling)
    &&& forall|i: int|
        0 <= i < screens.len() ==> {
            let ws = #[trigger] w.screens_view()[i];
            &&& ws.screen == screens[i]
            &&& ws.resolution == target_for(image, screens[i], options.scaling)
            &&& ws.placement == centered_placement(ws.resolution.width, ws.resolution.height, screens[i])
        }
    &&& forall|k: int|
        0 <= k < w.sets_view().len() ==> frames_rendered(
            (#[trigger] w.sets_view()[k]).frames@,
            rasters,
            delays,
            methods,
            image,
            w.sets_view()[k].resolution,
            color,
            order,
            options,
        )
}

/// The resolution of the animation, where it can be decoded safely and its
/// steps decode and fit.
pub open spec fn decoded_image(gif: Seq<u8>) -> Option<Resolution> {
    if gif_safe(gif) && gif_steps(gif) is Some && decoded_fit(gif_steps(gif)->Some_0) {
        Some(decoded_resolution(gif_steps(gif)->Some_0))
    } else {
        None
    }
}

/// The RGBA-rasters of the decoded steps.
pub open spec fn gif_rasters(gif: Seq<u8>) -> Seq<Seq<u8>> {
    gif_steps(gif)->Some_0.map_values(|t: (u32, u32, Seq<u8>)| t.2)
}

/// The delay declared for each decoded step.
pub open spec fn gif_step_delays(gif: Seq<u8>) -> Seq<Option<u16>> {
    Seq::new(
        gif_steps(gif)->Some_0.len(),
        |i: int| delay_at(gif_controls(gif).map_values(|c| control_delay(c)), i),
    )
}

/// The disposal method of each frame.
pub open spec fn gif_methods(gif: Seq<u8>) -> Seq<Disposal> {
    gif_controls(gif).map_values(|c| control_method(c))
}

/// Pre-render wallpaper-frames for all needed resolutions, determined by
/// the screens, the options and the animation. Rendering stops with
/// `Cancelled` once `running` is found `false`.
pub fn render_wallpapers(
    gif: &Vec<u8>,
    xscreens: Screens,
    options: &Options,
    background: &Color,
    order: ByteOrder,
    running: &AtomicBool,
) -> (r: Result<Wallpapers, RenderError>)
    ensures
        r == Err::<Wallpapers, RenderError>(RenderError::InvalidFile) <==> decoded_image(gif@) is None,
        decoded_image(gif@) matches Some(image) ==> {
            &&& r == Err::<Wallpapers, RenderError>(RenderError::InvalidScreen) <==> fits_memory(image)
                && !all_screens_ok(xscreens.screens@)
            &&& r == Err::<Wallpapers, RenderError>(RenderError::TooLarge) <==> !fits_memory(image) || (
            all_screens_ok(xscreens.screens@) && !all_renderable(
                image,
                xscreens.screens@,
                options.scaling,
            ))
        },
        decoded_image(gif@) is Some && fits_memory(decoded_image(gif@)->Some_0)
            && xscreens.screens@.len() == 0 ==> r is Ok,
        r matches Ok(w) ==> decoded_image(gif@) is Some && built_from(
            w,
            decoded_image(gif@)->Some_0,
            gif_rasters(gif@),
            gif_step_delays(gif@),
            gif_methods(gif@),
            xscreens.screens@,
            *background,
            order,
            *options,
        ),
{
    let controls = gather_frame_controls(gif);
    let decoded = decode_steps(gif, &controls.delays);
    let (image_resolution, steps) = match decoded {
        Ok(decoded) => decoded,
        Err(e) => {
            proof {
                match e {
                    DecodeError::Malformed => {},
                    DecodeError::Unsupported => {},
                    DecodeError::NoSteps => {
                        assert(decoded == Err::<(Resolution, Vec<RasterStep>), DecodeError>(DecodeError::NoSteps));
                    },
                    DecodeError::BadRaster => {
                        assert(decoded == Err::<(Resolution, Vec<RasterStep>), DecodeError>(DecodeError::BadRaster));
                    },
                }
            }
            return Err(RenderError::InvalidFile);
        },
    };
    proof {
        assert(step_delays(steps@) =~= gif_step_delays(gif@));
    }
    if !fits_in_memory(image_resolution) {
        return Err(RenderError::TooLarge);
    }
    build_wallpapers(
        image_resolution,
        &steps,
        &controls.methods,
        &xscreens.screens,
        background,
        order,
        options,
        running,
    )
}

} // verus!
