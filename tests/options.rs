use xgifwallpaper::options::{is_valid_delay, Options};
use xgifwallpaper::placement::{get_image_placement, ImagePlacement, ImagePlacementStrategy};
use xgifwallpaper::position::{Scaling, ScalingFilter};
use xgifwallpaper::screen_info::Screen;
use xgifwallpaper::xcontext::{parse_window_number, XContextError, EXIT_INVALID_WINDOW_ID};

#[test]
fn values_become_options() {
    let options = Options::from_values("white", "666", "a.gif", "MAX", "PIXEL", true, Some("0x2a"));
    assert_eq!(options.background_color, "white");
    assert_eq!(options.default_delay, 666);
    assert_eq!(options.path_to_gif, "a.gif");
    assert_eq!(options.scaling, Scaling::MAX);
    assert_eq!(options.scaling_filter, ScalingFilter::PIXEL);
    assert_eq!(options.verbose, true);
    assert_eq!(options.window_id, "0x2a");
}

#[test]
fn unusable_default_delay_becomes_default() {
    for delay in ["a", "\"-1\"", "-1", "65536", "", "+"] {
        let options = Options::from_values("#000000", delay, "a.gif", "NONE", "AUTO", false, None);
        assert_eq!(options.default_delay, 10);
    }
    let options = Options::from_values("#000000", "+65535", "a.gif", "NONE", "AUTO", false, None);
    assert_eq!(options.default_delay, 65535);
}

#[test]
fn unknown_names_pick_defaults() {
    let options = Options::from_values("#000000", "10", "a.gif", "fill", "pixel", false, None);
    assert_eq!(options.scaling, Scaling::NONE);
    assert_eq!(options.scaling_filter, ScalingFilter::AUTO);
    assert_eq!(options.window_id, "");
    let options = Options::from_values("#000000", "10", "a.gif", "FILL", "AUTO", false, None);
    assert_eq!(options.scaling, Scaling::FILL);
}

#[test]
fn signed_placement_centers_small_and_clips_large_images() {
    let screen = Screen { screen_number: 0, x_org: 10, y_org: 20, width: 3, height: 3 };
    let small = get_image_placement(1, 1, screen, ImagePlacementStrategy::CENTER);
    assert_eq!(
        small,
        ImagePlacement { src_x: 0, src_y: 0, dest_x: 11, dest_y: 21, width: 1, height: 1 }
    );
    let large = get_image_placement(5, 5, screen, ImagePlacementStrategy::CENTER);
    assert_eq!(
        large,
        ImagePlacement { src_x: 1, src_y: 1, dest_x: 10, dest_y: 20, width: 3, height: 3 }
    );
}

#[test]
fn context_error_carries_code_and_message() {
    let e = XContextError::with(EXIT_INVALID_WINDOW_ID, "no window".to_string());
    assert_eq!(e.code, 104);
    assert_eq!(e.to_string(), "no window");
}

#[test]
fn window_id_is_read_as_decimal_or_hex() {
    assert_eq!(parse_window_number("42"), Some(42));
    assert_eq!(parse_window_number("+42"), Some(42));
    assert_eq!(parse_window_number("0x2A"), Some(42));
    assert_eq!(parse_window_number("0x0x2a"), Some(42));
    assert_eq!(parse_window_number("0x"), None);
    assert_eq!(parse_window_number("0xzz"), None);
    assert_eq!(parse_window_number("2a"), None);
    assert_eq!(parse_window_number("-1"), None);
    assert_eq!(parse_window_number("foobar"), None);
    assert_eq!(parse_window_number("18446744073709551615"), Some(u64::MAX));
    assert_eq!(parse_window_number("18446744073709551616"), None);
}

#[test]
fn delay_is_valid_only_as_u16() {
    assert!(is_valid_delay("0"));
    assert!(is_valid_delay("65535"));
    assert!(!is_valid_delay("65536"));
    assert!(!is_valid_delay(" 1"));
}
