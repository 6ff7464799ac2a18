//! Decoding of the GIF-container: disposal methods and delays per frame, and
//! the raster steps of the animation.
use vstd::prelude::*;

use crate::compose::{step_rasters, Disposal};
use crate::position::Resolution;
use crate::scan::{gif_is_safe, gif_safe};

verus! {

/// What gift's step decoder makes of a GIF: per step the width, height and
/// RGBA-bytes of the full raster after that frame; `None` where a step fails
/// to decode.
pub uninterp spec fn gif_steps(gif: Seq<u8>) -> Option<Seq<(u32, u32, Seq<u8>)>>;

/// What gift's frame decoder makes of a GIF: per frame its disposal method
/// as the format numbers it, and its delay in centiseconds if it declares
/// one; `None` for a frame that fails to decode.
pub uninterp spec fn gif_controls(gif: Seq<u8>) -> Seq<Option<(u8, Option<u16>)>>;

/// Relies on gift's step decoder (`Decoder::new`, `into_steps`), collected up
/// to the first error only, as the decoder may go on repeating it; and per
/// step on `Step::raster` with pix's `Raster::width`, `height` and
/// `as_u8_slice`. The decoder panics on an image of width zero
/// (`chunks_exact(0)`), on a code table that grows to 65535 entries, and runs
/// forever on a first code after a reset that refers to itself; the scan of
/// `gif_safe` excludes all three.
#[verifier::external_body]
fn read_steps(gif: &[u8]) -> (r: Option<Vec<(u32, u32, Vec<u8>)>>)
    requires
        gif_safe(gif@),
    ensures
        match r {
            Some(v) => gif_steps(gif@) == Some(
                v@.map_values(|t: (u32, u32, Vec<u8>)| (t.0, t.1, t.2@)),
            ),
            None => gif_steps(gif@) is None,
        },
{
    let steps: Vec<gift::Step> = gift::Decoder::new(gif).into_steps().collect::<Result<_, _>>().ok()?;
    Some(steps.iter().map(|s| (s.raster().width(), s.raster().height(), s.raster().as_u8_slice().to_vec())).collect())
}

/// Relies on gift's frame decoder (`Decoder::new`, `into_frames`), which ends
/// with the container or where a block cannot be read; and per frame on
/// `Frame::disposal_method`, numbered by gift's `From` for `u8`, and on
/// `GraphicControl::delay_time_cs` of its `graphic_control_ext`. Its LZW
/// decompression panics on a code table that grows to 65535 entries, and runs
/// forever on a first code after a reset that refers to itself; the scan of
/// `gif_safe` excludes both.
#[verifier::external_body]
fn read_frame_controls(gif: &[u8]) -> (r: Vec<Option<(u8, Option<u16>)>>)
    requires
        gif_safe(gif@),
    ensures
        r@ == gif_controls(gif@),
{
    gift::Decoder::new(gif).into_frames().map(|f| f.ok().map(|f| (
        u8::from(f.disposal_method()),
        f.graphic_control_ext.map(|c| c.delay_time_cs()),
    ))).collect()
}

/// One decoded animation step: its size, RGBA-raster and declared delay.
#[derive(Debug)]
pub struct RasterStep {
    pub width: u32,
    pub height: u32,
    pub pixels: Vec<u8>,
    /// Delay in centiseconds, if declared.
    pub delay_cs: Option<u16>,
}

impl RasterStep {
    /// The step has the given resolution, and four bytes per pixel.
    pub open spec fn has_resolution(&self, resolution: Resolution) -> bool {
        &&& self.width == resolution.width
        &&& self.height == resolution.height
        &&& self.pixels@.len() == self.width as int * self.height as int * 4
    }
}

/// What the frames of an animation declare: per frame its disposal method
/// and its delay in centiseconds.
#[derive(Debug)]
pub struct FrameControls {
    pub methods: Vec<Disposal>,
    pub delays: Vec<Option<u16>>,
}

/// The disposal method that the format numbers `code`.
pub open spec fn disposal_of_code(code: u8) -> Disposal {
    if code == 0 {
        Disposal::NoAction
    } else if code == 1 {
        Disposal::Keep
    } else if code == 2 {
        Disposal::Background
    } else if code == 3 {
        Disposal::Previous
    } else {
        Disposal::Reserved(code)
    }
}

/// The method of a frame's controls; `NoAction` for a frame that failed.
pub open spec fn control_method(c: Option<(u8, Option<u16>)>) -> Disposal {
    match c {
        Some((code, _)) => disposal_of_code(code),
        None => Disposal::NoAction,
    }
}

/// The delay of a frame's controls; none for a frame that failed.
pub open spec fn control_delay(c: Option<(u8, Option<u16>)>) -> Option<u16> {
    match c {
        Some((_, delay)) => delay,
        None => None,
    }
}

/// The disposal method that the format numbers `code`.
pub fn disposal_from_code(code: u8) -> (r: Disposal)
    ensures
        r == disposal_of_code(code),
{
    if code == 0 {
        Disposal::NoAction
    } else if code == 1 {
        Disposal::Keep
    } else if code == 2 {
        Disposal::Background
    } else if code == 3 {
        Disposal::Previous
    } else {
        Disposal::Reserved(code)
    }
}

/// Parse GIF to gather the disposal-method and delay of each frame. A frame
/// that fails to decode, or declares nothing, counts as `NoAction` without
/// delay. Where the decoder cannot take the bytes safely, there are none.
pub fn gather_frame_controls(gif: &Vec<u8>) -> (r: FrameControls)
    ensures
        gif_safe(gif@) ==> r.methods@ == gif_controls(gif@).map_values(|c| control_method(c)),
        gif_safe(gif@) ==> r.delays@ == gif_controls(gif@).map_values(|c| control_delay(c)),
        !gif_safe(gif@) ==> r.methods@.len() == 0 && r.delays@.len() == 0,
{
    if !gif_is_safe(gif) {
        return FrameControls { methods: Vec::new(), delays: Vec::new() };
    }
    let frames = read_frame_controls(gif.as_slice());
    let mut methods: Vec<Disposal> = Vec::new();
    let mut delays: Vec<Option<u16>> = Vec::new();
    let mut i: usize = 0;
    while i < frames.len()
        invariant
            frames@ == gif_controls(gif@),
            i <= frames@.len(),
            methods@ =~= frames@.take(i as int).map_values(|c| control_method(c)),
            delays@ =~= frames@.take(i as int).map_values(|c| control_delay(c)),
        decreases frames@.len() - i,
    {
        match frames[i] {
            Some((code, delay)) => {
                methods.push(disposal_from_code(code));
                delays.push(delay);
            },
            None => {
                methods.push(Disposal::NoAction);
                delays.push(None);
            },
        }
        assert(frames@.take(i as int + 1).drop_last() =~= frames@.take(i as int));
        i = i + 1;
    }
    assert(frames@.take(i as int) =~= frames@);
    FrameControls { methods, delays }
}

/// The delay declared for step `i`, if any.
pub open spec fn delay_at(delays: Seq<Option<u16>>, i: int) -> Option<u16> {
    if 0 <= i < delays.len() {
        delays[i]
    } else {
        None
    }
}

/// Why the steps of an animation could not be had.
#[derive(Clone, Copy, Debug, PartialEq, Eq, Structural)]
pub enum DecodeError {
    /// The container could not be decoded.
    Malformed,
    /// The decoder cannot take the container safely.
    Unsupported,
    /// It holds no step.
    NoSteps,
    /// A step's raster is empty, or differs in size from the first.
    BadRaster,
}

/// The resolution of the first decoded step.
pub open spec fn decoded_resolution(d: Seq<(u32, u32, Seq<u8>)>) -> Resolution {
    Resolution { width: d[0].0, height: d[0].1 }
}

/// There is a step, and all steps have the positive resolution of the first,
/// with four bytes per pixel.
pub open spec fn decoded_fit(d: Seq<(u32, u32, Seq<u8>)>) -> bool {
    &&& d.len() > 0
    &&& decoded_resolution(d).wf()
    &&& forall|i: int|
        0 <= i < d.len() ==> {
            let t = #[trigger] d[i];
            &&& t.0 == d[0].0
            &&& t.1 == d[0].1
            &&& t.2.len() == d[0].0 as int * d[0].1 as int * 4
        }
}

/// The steps of an animation as decoded, each with the delay declared for
/// it.
fn steps_of(decoded: &Vec<(u32, u32, Vec<u8>)>, delays: &Vec<Option<u16>>) -> (r: Vec<RasterStep>)
    ensures
        r@.len() == decoded@.len(),
        forall|i: int|
            0 <= i < r@.len() ==> {
                let s = #[trigger] r@[i];
                &&& s.width == decoded@[i].0
                &&& s.height == decoded@[i].1
                &&& s.pixels@ == decoded@[i].2@
                &&& s.delay_cs == delay_at(delays@, i)
            },
{
    let mut steps: Vec<RasterStep> = Vec::new();
    let mut i: usize = 0;
    while i < decoded.len()
        invariant
            i <= decoded@.len(),
            steps@.len() == i,
            forall|j: int|
                0 <= j < i ==> {
                    let s = #[trigger] steps@[j];
                    &&& s.width == decoded@[j].0
                    &&& s.height == decoded@[j].1
                    &&& s.pixels@ == decoded@[j].2@
                    &&& s.delay_cs == delay_at(delays@, j)
                },
        decreases decoded@.len() - i,
    {
        let (width, height) = (decoded[i].0, decoded[i].1);
        let pixels = decoded[i].2.clone();
        assert(pixels@ =~= decoded@[i as int].2@);
        let delay_cs = if i < delays.len() {
            delays[i]
        } else {
            None
        };
        steps.push(RasterStep { width, height, pixels, delay_cs });
        i = i + 1;
    }
    steps
}

/// Decodes all steps of an animation, with the delays declared for them.
/// All steps have the positive resolution of the first.
pub fn decode_steps(gif: &Vec<u8>, delays: &Vec<Option<u16>>) -> (r: Result<
    (Resolution, Vec<RasterStep>),
    DecodeError,
>)
    ensures
        r == Err::<(Resolution, Vec<RasterStep>), DecodeError>(DecodeError::Unsupported) <==> !gif_safe(
            gif@,
        ),
        r == Err::<(Resolution, Vec<RasterStep>), DecodeError>(DecodeError::Malformed) <==> gif_safe(
            gif@,
        ) && gif_steps(gif@) is None,
        r == Err::<(Resolution, Vec<RasterStep>), DecodeError>(DecodeError::NoSteps) <==> gif_safe(
            gif@,
        ) && gif_steps(gif@) is Some && gif_steps(gif@)->Some_0.len() == 0,
        r == Err::<(Resolution, Vec<RasterStep>), DecodeError>(DecodeError::BadRaster) <==> gif_safe(
            gif@,
        ) && gif_steps(gif@) is Some && gif_steps(gif@)->Some_0.len() > 0 && !decoded_fit(
            gif_steps(gif@)->Some_0,
        ),
        r matches Ok((resolution, steps)) ==> {
            let d = gif_steps(gif@)->Some_0;
            &&& gif_safe(gif@)
            &&& gif_steps(gif@) is Some
            &&& decoded_fit(d)
            &&& resolution == decoded_resolution(d)
            &&& resolution.wf()
            &&& steps@.len() == d.len()
            &&& step_rasters(steps@) == d.map_values(|t: (u32, u32, Seq<u8>)| t.2)
            &&& forall|i: int|
                0 <= i < steps@.len() ==> {
                    let s = #[trigger] steps@[i];
                    &&& s.width == d[i].0
                    &&& s.height == d[i].1
                    &&& s.has_resolution(resolution)
                    &&& s.delay_cs == delay_at(delays@, i)
                }
        },
{
    if !gif_is_safe(gif) {
        return Err(DecodeError::Unsupported);
    }
    let decoded = match read_steps(gif.as_slice()) {
        Some(decoded) => decoded,
        None => {
            return Err(DecodeError::Malformed);
        },
    };
    let ghost d = decoded@.map_values(|t: (u32, u32, Vec<u8>)| (t.0, t.1, t.2@));
    let steps = steps_of(&decoded, delays);
    let ghost sv = steps@;
    proof {
        assert(d.len() == sv.len());
        if sv.len() > 0 {
            assert(first_resolution(sv) == decoded_resolution(d));
            let res = decoded_resolution(d);
            assert forall|i: int| 0 <= i < sv.len() implies (#[trigger] sv[i]).has_resolution(res)
                == ({
                let t = d[i];
                t.0 == d[0].0 && t.1 == d[0].1 && t.2.len() == d[0].0 as int * d[0].1 as int * 4
            }) by {
                assert(d[i].2 == decoded@[i].2@);
            }
            if steps_fit(sv, res) {
                assert forall|i: int| 0 <= i < d.len() implies {
                    let t = #[trigger] d[i];
                    &&& t.0 == d[0].0
                    &&& t.1 == d[0].1
                    &&& t.2.len() == d[0].0 as int * d[0].1 as int * 4
                } by {
                    assert(sv[i].has_resolution(res));
                }
            }
            if decoded_fit(d) {
                assert forall|i: int| 0 <= i < sv.len() implies (#[trigger] sv[i]).has_resolution(res) by {
                    let t = d[i];
                    assert(t.0 == d[0].0);
                }
            }
        }
        assert(step_rasters(sv) =~= d.map_values(|t: (u32, u32, Seq<u8>)| t.2));
    }
    validate_steps(steps)
}

/// Checks decoded steps: there is at least one, and all have the positive
/// resolution of the first, with four bytes per pixel. Returns that
/// resolution with the steps unchanged.
pub fn validate_steps(steps: Vec<RasterStep>) -> (r: Result<(Resolution, Vec<RasterStep>), DecodeError>)
    ensures
        r == Err::<(Resolution, Vec<RasterStep>), DecodeError>(DecodeError::NoSteps) <==> steps@.len()
            == 0,
        r == Err::<(Resolution, Vec<RasterStep>), DecodeError>(DecodeError::BadRaster) <==> steps@.len()
            > 0 && !steps_fit(steps@, first_resolution(steps@)),
        r is Err ==> r == Err::<(Resolution, Vec<RasterStep>), DecodeError>(DecodeError::NoSteps)
            || r == Err::<(Resolution, Vec<RasterStep>), DecodeError>(DecodeError::BadRaster),
        r matches Ok((resolution, checked)) ==> {
            &&& checked@ == steps@
            &&& resolution == first_resolution(steps@)
        },
{
    if steps.len() == 0 {
        return Err(DecodeError::NoSteps);
    }
    let resolution = Resolution { width: steps[0].width, height: steps[0].height };
    if !check_steps(&steps, resolution) {
        return Err(DecodeError::BadRaster);
    }
    Ok((resolution, steps))
}

/// The resolution of the first step.
pub open spec fn first_resolution(steps: Seq<RasterStep>) -> Resolution {
    Resolution { width: steps[0].width, height: steps[0].height }
}

/// The resolution is positive and all steps have it, with four bytes per
/// pixel.
pub open spec fn steps_fit(steps: Seq<RasterStep>, resolution: Resolution) -> bool {
    resolution.wf() && forall|i: int| 0 <= i < steps.len() ==> (#[trigger] steps[i]).has_resolution(resolution)
}

/// Whether the resolution is positive and all steps have it, with four bytes
/// per pixel.
pub fn check_steps(steps: &Vec<RasterStep>, resolution: Resolution) -> (r: bool)
    ensures
        r == steps_fit(steps@, resolution),
{
    if resolution.width == 0 || resolution.height == 0 {
        return false;
    }
    let mut i: usize = 0;
    while i < steps.len()
        invariant
            resolution.wf(),
            i <= steps@.len(),
            forall|j: int| 0 <= j < i ==> (#[trigger] steps@[j]).has_resolution(resolution),
        decreases steps@.len() - i,
    {
        let step = &steps[i];
        proof {
            crate::position::lemma_u32_product_fits(step.width, step.height);
        }
        let size: u64 = (step.width as u64) * (step.height as u64);
        let len: usize = step.pixels.len();
        if step.width != resolution.width || step.height != resolution.height
            || size > u64::MAX / 4 || len as u64 != size * 4 {
            assert(!steps@[i as int].has_resolution(resolution));
            return false;
        }
        i = i + 1;
    }
    true
}

} // verus!
