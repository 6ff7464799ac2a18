use std::sync::atomic::AtomicBool;

use xgifwallpaper::animation::{Action, Animation, Phase};
use xgifwallpaper::compose::{
    can_render, choose_filter, compose_pixels, nearest_resize, render_frames, get_step_duration, resize_raster, solid_background,
    ByteOrder, Color, Disposal, ResizeFilter,
};
use xgifwallpaper::decode::{
    disposal_from_code, decode_steps, gather_frame_controls, validate_steps, DecodeError, RasterStep,
};
use xgifwallpaper::options::Options;
use xgifwallpaper::position::{Resolution, ScalingFilter};
use xgifwallpaper::scan::gif_is_safe;
use xgifwallpaper::render_wallpapers;
use xgifwallpaper::screens::{Screen, Screens};
use xgifwallpaper::wallpapers::RenderError;

/// A GIF of one black pixel.
fn sample_1x1() -> Vec<u8> {
    vec![
        0x47, 0x49, 0x46, 0x38, 0x39, 0x61, 0x01, 0x00, 0x01, 0x00, 0x80, 0x00, 0x00, 0x00, 0x00,
        0x00, 0xff, 0xff, 0xff, 0x2c, 0x00, 0x00, 0x00, 0x00, 0x01, 0x00, 0x01, 0x00, 0x00, 0x02,
        0x02, 0x44, 0x01, 0x00, 0x3b,
    ]
}

/// A GIF of one black pixel, kept, shown for 25 centiseconds.
fn sample_1x1_keep() -> Vec<u8> {
    vec![
        0x47, 0x49, 0x46, 0x38, 0x39, 0x61, 0x01, 0x00, 0x01, 0x00, 0x80, 0x00, 0x00, 0x00, 0x00,
        0x00, 0xff, 0xff, 0xff, 0x21, 0xf9, 0x04, 0x04, 0x19, 0x00, 0x00, 0x00, 0x2c, 0x00, 0x00,
        0x00, 0x00, 0x01, 0x00, 0x01, 0x00, 0x00, 0x02, 0x02, 0x44, 0x01, 0x00, 0x3b,
    ]
}

fn options(scale: &str) -> Options {
    Options::from_values("#000000", "10", "sample.gif", scale, "AUTO", false, None)
}

fn screen(number: i32, x_org: i32, y_org: i32, width: u32, height: u32) -> Screen {
    Screen { screen_number: number, x_org, y_org, width, height }
}

fn running() -> AtomicBool {
    AtomicBool::new(true)
}

fn black() -> Color {
    Color { red: 0, green: 0, blue: 0 }
}

#[test]
fn when_render_for_multiple_resolutions_then_dont_panic() {
    let options = options("FILL");
    let screens = Screens {
        root_per_screen: false,
        screens: vec![screen(0, 0, 0, 800, 600), screen(1, 400, 300, 1920, 1080)],
    };

    let wallpapers =
        render_wallpapers(&sample_1x1(), screens, &options, &black(), ByteOrder::LsbFirst, &running()).unwrap();

    assert_eq!(wallpapers.screen_count(), 2);
    assert_eq!(wallpapers.frameset_count(), 2);
}

#[test]
fn screens_with_equal_resolution_share_frames() {
    let options = options("FILL");
    let screens = Screens {
        root_per_screen: false,
        screens: vec![screen(0, 0, 0, 800, 600), screen(1, 800, 0, 800, 600)],
    };

    let wallpapers =
        render_wallpapers(&sample_1x1(), screens, &options, &black(), ByteOrder::LsbFirst, &running()).unwrap();

    assert_eq!(wallpapers.screen_count(), 2);
    assert_eq!(wallpapers.frameset_count(), 1);
    assert_eq!(wallpapers.screen(0).frameset, wallpapers.screen(1).frameset);
    assert_eq!(wallpapers.screen(0).resolution, Resolution::new(800, 800));
    let frames = wallpapers.frames_of(1);
    assert_eq!(frames.len(), 1);
    assert_eq!(frames[0].pixels.len(), 800 * 800 * 4);
    assert_eq!(frames[0].delay_ms, 100);
}

#[test]
fn render_without_scaling_keeps_the_decoded_pixel() {
    let options = options("NONE");
    let screens = Screens { root_per_screen: true, screens: vec![screen(0, 0, 0, 3, 3)] };

    let wallpapers =
        render_wallpapers(&sample_1x1(), screens, &options, &black(), ByteOrder::MsbFirst, &running()).unwrap();

    assert_eq!(wallpapers.image_resolution(), Resolution::new(1, 1));
    assert_eq!(wallpapers.frames_of(0)[0].pixels, vec![0, 0, 0, 255]);
    assert_eq!(wallpapers.screen(0).placement.dest_x, 1);
}

#[test]
fn render_rejects_undecodable_file() {
    let screens = Screens { root_per_screen: true, screens: vec![screen(0, 0, 0, 3, 3)] };
    let result =
        render_wallpapers(&vec![1, 2, 3], screens, &options("NONE"), &black(), ByteOrder::MsbFirst, &running());
    assert!(matches!(result, Err(RenderError::InvalidFile)));
}

#[test]
fn render_rejects_screen_without_area() {
    let screens = Screens { root_per_screen: true, screens: vec![screen(0, 0, 0, 0, 3)] };
    let result =
        render_wallpapers(&sample_1x1(), screens, &options("NONE"), &black(), ByteOrder::MsbFirst, &running());
    assert!(matches!(result, Err(RenderError::InvalidScreen)));
}

#[test]
fn decode_reads_size_pixels_and_delay() {
    let controls = gather_frame_controls(&sample_1x1_keep());
    let (resolution, steps) = decode_steps(&sample_1x1_keep(), &controls.delays).unwrap();
    assert_eq!(resolution, Resolution::new(1, 1));
    assert_eq!(steps.len(), 1);
    assert_eq!(steps[0].pixels, vec![0, 0, 0, 255]);
    assert_eq!(steps[0].delay_cs, Some(25));
    assert_eq!(get_step_duration(steps[0].delay_cs, 10), 250);
}

#[test]
fn decode_rejects_garbage() {
    assert_eq!(decode_steps(&vec![0x47, 0x49, 0x46], &vec![]).err(), Some(DecodeError::Malformed));
}

#[test]
fn disposal_methods_and_delays_are_read_per_frame() {
    let plain = gather_frame_controls(&sample_1x1());
    assert_eq!(plain.methods, vec![Disposal::NoAction]);
    assert_eq!(plain.delays, vec![None]);
    let kept = gather_frame_controls(&sample_1x1_keep());
    assert_eq!(kept.methods, vec![Disposal::Keep]);
    assert_eq!(kept.delays, vec![Some(25)]);
}

#[test]
fn transparent_pixel_keeps_previous_frame() {
    let src = vec![10, 20, 30, 0, 1, 2, 3, 255];
    let prev = vec![7, 8, 9, 200, 0, 0, 0, 0];
    let color = Color { red: 0x1100, green: 0x2200, blue: 0x3300 };

    let kept = compose_pixels(&src, &prev, Disposal::Keep, &color, ByteOrder::MsbFirst);
    assert_eq!(kept, vec![7, 8, 9, 200, 1, 2, 3, 255]);

    let cleared = compose_pixels(&src, &prev, Disposal::Background, &color, ByteOrder::MsbFirst);
    assert_eq!(cleared, vec![0x11, 0x22, 0x33, 0, 1, 2, 3, 255]);

    let bgra = compose_pixels(&src, &prev, Disposal::NoAction, &color, ByteOrder::LsbFirst);
    assert_eq!(bgra, vec![0x33, 0x22, 0x11, 0, 3, 2, 1, 255]);
}

#[test]
fn solid_background_is_opaque_in_surface_order() {
    let color = Color { red: 0xff00, green: 0x8000, blue: 0x0100 };
    assert_eq!(solid_background(1, 2, &color, ByteOrder::MsbFirst), vec![255, 128, 1, 255, 255, 128, 1, 255]);
    assert_eq!(solid_background(1, 1, &color, ByteOrder::LsbFirst), vec![1, 128, 255, 255]);
}

#[test]
fn step_duration_uses_default_for_missing_or_zero_delay() {
    assert_eq!(get_step_duration(None, 10), 100);
    assert_eq!(get_step_duration(Some(0), 7), 70);
    assert_eq!(get_step_duration(Some(5), 7), 50);
    assert_eq!(get_step_duration(Some(u16::MAX), 7), 655350);
}

#[test]
fn resize_passes_equal_resolution_through() {
    let raster = vec![1, 2, 3, 4, 5, 6, 7, 8];
    let res = Resolution::new(2, 1);
    assert_eq!(resize_raster(&raster, &res, &res, &options("NONE")), raster);
}

#[test]
fn resize_scales_to_target_resolution() {
    let raster = vec![200, 100, 50, 255];
    let from = Resolution::new(1, 1);
    let to = Resolution::new(2, 2);
    let pixel = Options::from_values("#000000", "10", "a.gif", "FILL", "PIXEL", false, None);
    let scaled = resize_raster(&raster, &from, &to, &pixel);
    assert_eq!(scaled, vec![200, 100, 50, 255, 200, 100, 50, 255, 200, 100, 50, 255, 200, 100, 50, 255]);
}

#[test]
fn cancellation_before_first_frame_draws_nothing() {
    let screens = Screens { root_per_screen: true, screens: vec![screen(0, 0, 0, 3, 3)] };
    let wallpapers =
        render_wallpapers(&sample_1x1(), screens, &options("NONE"), &black(), ByteOrder::MsbFirst, &running()).unwrap();
    let mut animation = Animation::new();
    assert_eq!(animation.next(&wallpapers, true), Action::Release);
    assert_eq!(animation.next(&wallpapers, false), Action::Done);
    assert_eq!(animation.phase, Phase::Stopped);
    assert_eq!(animation.next(&wallpapers, false), Action::Done);
}

#[test]
fn animation_ticks_over_all_screens() {
    let screens = Screens {
        root_per_screen: false,
        screens: vec![screen(0, 0, 0, 3, 3), screen(1, 3, 0, 2, 2)],
    };
    let wallpapers =
        render_wallpapers(&sample_1x1_keep(), screens, &options("NONE"), &black(), ByteOrder::MsbFirst, &running())
            .unwrap();
    let mut animation = Animation::new();
    assert_eq!(animation.next(&wallpapers, false), Action::Draw { screen: 0, frame: 0 });
    assert_eq!(animation.next(&wallpapers, false), Action::Draw { screen: 1, frame: 0 });
    assert_eq!(animation.next(&wallpapers, false), Action::Publish);
    assert_eq!(animation.next(&wallpapers, false), Action::Sleep { ms: 250 });
    assert_eq!(animation.next(&wallpapers, false), Action::Draw { screen: 0, frame: 0 });
    assert_eq!(animation.next(&wallpapers, true), Action::Release);
}

fn step(width: u32, height: u32, len: usize) -> RasterStep {
    RasterStep { width, height, pixels: vec![0; len], delay_cs: None }
}

#[test]
fn validate_steps_checks_count_and_sizes() {
    assert_eq!(validate_steps(vec![]).err(), Some(DecodeError::NoSteps));
    assert_eq!(validate_steps(vec![step(0, 1, 0)]).err(), Some(DecodeError::BadRaster));
    assert_eq!(validate_steps(vec![step(2, 1, 8), step(1, 2, 8)]).err(), Some(DecodeError::BadRaster));
    assert_eq!(validate_steps(vec![step(2, 1, 8), step(2, 1, 7)]).err(), Some(DecodeError::BadRaster));
    let (resolution, steps) = validate_steps(vec![step(2, 1, 8), step(2, 1, 8)]).unwrap();
    assert_eq!(resolution, Resolution::new(2, 1));
    assert_eq!(steps.len(), 2);
}

#[test]
fn filter_depends_on_direction_of_scaling() {
    let small = Resolution::new(10, 10);
    let large = Resolution::new(20, 10);
    assert_eq!(choose_filter(ScalingFilter::PIXEL, &large, &small), ResizeFilter::Point);
    assert_eq!(choose_filter(ScalingFilter::AUTO, &large, &small), ResizeFilter::Lanczos3);
    assert_eq!(choose_filter(ScalingFilter::AUTO, &small, &large), ResizeFilter::Mitchell);
    assert_eq!(choose_filter(ScalingFilter::AUTO, &small, &small), ResizeFilter::Mitchell);
}

#[test]
fn huge_targets_cannot_be_rendered() {
    let image = Resolution::new(1, 1);
    assert!(can_render(image, Resolution::new(1920, 1080)));
    assert!(!can_render(image, Resolution::new(u32::MAX, u32::MAX)));
    let wide = Resolution::new(u32::MAX, 1);
    assert!(can_render(wide, wide));
    assert!(!can_render(wide, Resolution::new(1, u32::MAX)));
}

#[test]
fn cleared_running_flag_cancels_rendering() {
    let screens = Screens { root_per_screen: true, screens: vec![screen(0, 0, 0, 3, 3)] };
    let stopped = AtomicBool::new(false);
    let result =
        render_wallpapers(&sample_1x1(), screens, &options("NONE"), &black(), ByteOrder::MsbFirst, &stopped);
    assert!(matches!(result, Err(RenderError::Cancelled)));
}

#[test]
fn disposal_codes_follow_the_format() {
    assert_eq!(disposal_from_code(0), Disposal::NoAction);
    assert_eq!(disposal_from_code(1), Disposal::Keep);
    assert_eq!(disposal_from_code(2), Disposal::Background);
    assert_eq!(disposal_from_code(3), Disposal::Previous);
    assert_eq!(disposal_from_code(5), Disposal::Reserved(5));
}

#[test]
fn cropped_screen_placement_starts_at_screen_origin() {
    let screens = Screens { root_per_screen: false, screens: vec![screen(0, 400, 300, 1, 1)] };
    let wallpapers =
        render_wallpapers(&sample_1x1(), screens, &options("NONE"), &black(), ByteOrder::MsbFirst, &running())
            .unwrap();
    assert_eq!(wallpapers.screen(0).placement.dest_x, 400);
    assert_eq!(wallpapers.screen(0).placement.dest_y, 300);
}

/// A GIF whose only image has width zero.
fn sample_zero_width() -> Vec<u8> {
    let mut gif = sample_1x1();
    gif[24] = 0;
    gif
}

/// A GIF whose image data starts, after a clear code, with a code that
/// refers to itself.
fn sample_self_reference() -> Vec<u8> {
    let mut gif = sample_1x1();
    gif.truncate(29);
    gif.extend_from_slice(&[0x02, 0x01, 0x34, 0x00, 0x3b]);
    gif
}

#[test]
fn scan_accepts_plain_gifs() {
    assert!(gif_is_safe(&sample_1x1()));
    assert!(gif_is_safe(&sample_1x1_keep()));
    assert!(gif_is_safe(&vec![1, 2, 3]));
}

#[test]
fn scan_rejects_what_the_decoder_cannot_take() {
    assert!(!gif_is_safe(&sample_zero_width()));
    assert!(!gif_is_safe(&sample_self_reference()));
    assert_eq!(decode_steps(&sample_zero_width(), &vec![]).err(), Some(DecodeError::Unsupported));
    assert_eq!(decode_steps(&sample_self_reference(), &vec![]).err(), Some(DecodeError::Unsupported));
    assert_eq!(gather_frame_controls(&sample_self_reference()).methods.len(), 0);
}

#[test]
fn pixel_filter_takes_nearest_source_pixel() {
    let mut raster = Vec::new();
    for i in 0..9u8 {
        raster.extend_from_slice(&[i, i, i, 255]);
    }
    let from = Resolution::new(3, 3);
    let to = Resolution::new(2, 2);
    let scaled = nearest_resize(&raster, from, to);
    assert_eq!(
        scaled,
        vec![0, 0, 0, 255, 2, 2, 2, 255, 6, 6, 6, 255, 8, 8, 8, 255]
    );
    let pixel = Options::from_values("#000000", "10", "a.gif", "MAX", "PIXEL", false, None);
    assert_eq!(resize_raster(&raster, &from, &to, &pixel), scaled);
}

#[test]
fn no_screens_give_empty_wallpapers() {
    let screens = Screens { root_per_screen: true, screens: vec![] };
    let wallpapers =
        render_wallpapers(&sample_1x1(), screens, &options("NONE"), &black(), ByteOrder::MsbFirst, &running())
            .unwrap();
    assert_eq!(wallpapers.screen_count(), 0);
    assert_eq!(wallpapers.frameset_count(), 0);
}

#[test]
fn no_steps_give_no_frames() {
    let frames = render_frames(
        &vec![],
        &vec![],
        Resolution::new(1, 1),
        Resolution::new(2, 2),
        &black(),
        ByteOrder::MsbFirst,
        &options("NONE"),
        &AtomicBool::new(false),
    );
    assert_eq!(frames.map(|f| f.len()), Some(0));
}

/// A GIF of one 1x1 image whose LZW data holds `codes` codes of zero after a
/// single clear code, so that the code table grows without bound.
fn sample_without_clear(codes: usize) -> Vec<u8> {
    let mut data: Vec<u8> = Vec::new();
    let mut acc: u64 = 0;
    let mut n_bits: u32 = 0;
    let mut put = |code: u64, width: u32, data: &mut Vec<u8>| {
        acc |= code << n_bits;
        n_bits += width;
        while n_bits >= 8 {
            data.push((acc & 0xff) as u8);
            acc >>= 8;
            n_bits -= 8;
        }
    };
    put(4, 3, &mut data);
    let (mut next, mut width, mut has_prefix) = (6u32, 3u32, false);
    for _ in 0..codes {
        put(0, width, &mut data);
        let old = next;
        if has_prefix {
            next += 1;
        }
        if old + 1 == 1 << width && width < 12 {
            width += 1;
        }
        has_prefix = true;
    }
    put(0, 8, &mut data);
    let mut gif = sample_1x1();
    gif.truncate(30);
    for chunk in data.chunks(255) {
        gif.push(chunk.len() as u8);
        gif.extend_from_slice(chunk);
    }
    gif.push(0);
    gif.push(0x3b);
    gif
}

#[test]
fn scan_rejects_a_code_table_that_outgrows_the_decoder() {
    assert!(gif_is_safe(&sample_without_clear(1000)));
    assert!(!gif_is_safe(&sample_without_clear(66000)));
    assert_eq!(
        decode_steps(&sample_without_clear(66000), &vec![]).err(),
        Some(DecodeError::Unsupported)
    );
}
