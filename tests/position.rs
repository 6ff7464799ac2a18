use std::collections::HashSet;
use xgifwallpaper::position::{Alignment, ImagePlacement, Resolution, Scaling};
use xgifwallpaper::screens::Screen;

#[test]
fn when_position_is_center_then_target_resolutions_equals_image_resolution() {
    let mut screen_resolutions: HashSet<Resolution> = HashSet::new();
    screen_resolutions.insert(Resolution::new(1920, 1080));
    screen_resolutions.insert(Resolution::new(1080, 1920));
    screen_resolutions.insert(Resolution::new(2000, 2000));

    let image_resolution = Resolution::new(1000, 1000);

    let actual = image_resolution.fit_to_screen(&Resolution::new(1080, 1920), &Scaling::NONE);

    assert_eq!(true, actual == image_resolution);
}

#[test]
fn when_image_1000x1000_screen_1920_1080_position_fill_then_target_1920_1920() {
    _test_compute_fill_resolution(
        Resolution::new(1000, 1000),
        Resolution::new(1920, 1080),
        Resolution::new(1920, 1920),
    );
}

#[test]
fn when_image_1000x1000_screen_1080_1920_position_fill_then_target_1920_1920() {
    _test_compute_fill_resolution(
        Resolution::new(1000, 1000),
        Resolution::new(1080, 1920),
        Resolution::new(1920, 1920),
    );
}

#[test]
fn when_image_1920x1080_screen_1000_1000_position_fill_then_target_1777_1000() {
    _test_compute_fill_resolution(
        Resolution::new(1920, 1080),
        Resolution::new(1000, 1000),
        Resolution::new(1777, 1000),
    );
}

#[test]
fn when_image_1080x1920_screen_1000_1000_position_fill_then_target_1000_1777() {
    _test_compute_fill_resolution(
        Resolution::new(1080, 1920),
        Resolution::new(1000, 1000),
        Resolution::new(1000, 1777),
    );
}

#[test]
fn when_image_1920x1080_screen_1920_1080_position_fill_then_target_1920_1080() {
    _test_compute_fill_resolution(
        Resolution::new(1920, 1080),
        Resolution::new(1920, 1080),
        Resolution::new(1920, 1080),
    );
}

#[test]
fn when_image_1000x1000_screen_1500_500_position_fill_then_target_1500_1500() {
    _test_compute_fill_resolution(
        Resolution::new(1000, 1000),
        Resolution::new(1500, 500),
        Resolution::new(1500, 1500),
    );
}

#[test]
fn when_image_1000x1000_screen_500_1500_position_fill_then_target_1500_1500() {
    _test_compute_fill_resolution(
        Resolution::new(1000, 1000),
        Resolution::new(500, 1500),
        Resolution::new(1500, 1500),
    );
}

#[test]
fn when_image_2x1_screen_2560_1440_position_fill_then_target_2560_2560() {
    _test_compute_fill_resolution(
        Resolution::new(2, 1),
        Resolution::new(2560, 1440),
        Resolution::new(2880, 1440),
    );
}

#[test]
fn when_image_1000x1000_screen_1920_1080_position_max_then_target_1080_1080() {
    _test_compute_max_resolution(
        Resolution::new(1000, 1000),
        Resolution::new(1920, 1080),
        Resolution::new(1080, 1080),
    );
}

#[test]
fn when_image_1000x1000_screen_1080_1920_position_max_then_target_1080_1080() {
    _test_compute_max_resolution(
        Resolution::new(1000, 1000),
        Resolution::new(1080, 1920),
        Resolution::new(1080, 1080),
    );
}

#[test]
fn when_image_1920x1080_screen_1000_1000_position_max_then_target_1000_562() {
    _test_compute_max_resolution(
        Resolution::new(1920, 1080),
        Resolution::new(1000, 1000),
        Resolution::new(1000, 562),
    );
}

#[test]
fn when_image_1080x1920_screen_1000_1000_position_max_then_target_562_1000() {
    _test_compute_max_resolution(
        Resolution::new(1080, 1920),
        Resolution::new(1000, 1000),
        Resolution::new(562, 1000),
    );
}

#[test]
fn when_image_1920x1080_screen_1920_1080_position_max_then_target_1920_1080() {
    _test_compute_max_resolution(
        Resolution::new(1920, 1080),
        Resolution::new(1920, 1080),
        Resolution::new(1920, 1080),
    );
}

#[test]
fn when_image_1000x1000_screen_1500_500_position_max_then_target_500_500() {
    _test_compute_max_resolution(
        Resolution::new(1000, 1000),
        Resolution::new(1500, 500),
        Resolution::new(500, 500),
    );
}

#[test]
fn when_image_1000x1080_screen_500_1500_position_max_then_target_500_500() {
    _test_compute_max_resolution(
        Resolution::new(1000, 1000),
        Resolution::new(500, 1500),
        Resolution::new(500, 500),
    );
}

#[test]
fn when_image_2x1_screen_2560_1440_position_max_then_target_2560_2560() {
    _test_compute_max_resolution(
        Resolution::new(2, 1),
        Resolution::new(2560, 1440),
        Resolution::new(2560, 1280),
    );
}

#[test]
fn when_image_1x1_screen_3x3_then_center() {
    let screen = _create_screen0_3x3();
    let actual = Resolution::new(1, 1).position_on_screen(&screen, Alignment::CENTER);
    assert_eq!(actual, ImagePlacement::new(0, 0, 1, 1, 1, 1));
}

#[test]
fn when_image_1x3_screen_3x3_then_center() {
    let screen = _create_screen0_3x3();
    let actual = Resolution::new(1, 3).position_on_screen(&screen, Alignment::CENTER);
    assert_eq!(actual, ImagePlacement::new(0, 0, 1, 0, 1, 3));
}

#[test]
fn when_image_3x1_screen_3x3_then_center() {
    let screen = _create_screen0_3x3();
    let actual = Resolution::new(3, 1).position_on_screen(&screen, Alignment::CENTER);
    assert_eq!(actual, ImagePlacement::new(0, 0, 0, 1, 3, 1));
}

#[test]
fn when_image_3x3_screen_3x3_then_center() {
    let screen = _create_screen0_3x3();
    let actual = Resolution::new(3, 3).position_on_screen(&screen, Alignment::CENTER);
    assert_eq!(actual, ImagePlacement::new(0, 0, 0, 0, 3, 3));
}

#[test]
fn when_image_1x5_screen_3x3_then_center() {
    let screen = _create_screen0_3x3();
    let actual = Resolution::new(1, 5).position_on_screen(&screen, Alignment::CENTER);
    assert_eq!(actual, ImagePlacement::new(0, 1, 1, 0, 1, 3));
}

#[test]
fn when_image_5x1_screen_3x3_then_center() {
    let screen = _create_screen0_3x3();
    let actual = Resolution::new(5, 1).position_on_screen(&screen, Alignment::CENTER);
    assert_eq!(actual, ImagePlacement::new(1, 0, 0, 1, 3, 1));
}

#[test]
fn when_image_5x5_screen_3x3_then_center() {
    let screen = _create_screen0_3x3();
    let actual = Resolution::new(5, 5).position_on_screen(&screen, Alignment::CENTER);
    assert_eq!(actual, ImagePlacement::new(1, 1, 0, 0, 3, 3));
}

fn _test_compute_fill_resolution(image: Resolution, screen: Resolution, expected: Resolution) {
    _test_compute_resolution(image, screen, Scaling::FILL, expected);
}

fn _test_compute_max_resolution(image: Resolution, screen: Resolution, expected: Resolution) {
    _test_compute_resolution(image, screen, Scaling::MAX, expected);
}

fn _test_compute_resolution(
    image: Resolution,
    screen: Resolution,
    scaling: Scaling,
    expected: Resolution,
) {
    let actual = image.fit_to_screen(&screen, &scaling);

    if actual != expected {
        println!("actual != expected: {:?} != {:?}", actual, expected);
    }

    assert_eq!(true, actual == expected);
}

fn _create_screen0_3x3() -> Screen {
    Screen {
        screen_number: 0,
        x_org: 0,
        y_org: 0,
        width: 3,
        height: 3,
    }
}

#[test]
fn screen_at_far_edge_takes_an_image_of_its_width() {
    let screen = Screen { screen_number: 0, x_org: i32::MAX, y_org: 0, width: 10, height: 10 };
    let actual = Resolution::new(10, 10).position_on_screen(&screen, Alignment::CENTER);
    assert_eq!(actual, ImagePlacement::new(0, 0, i32::MAX, 0, 10, 10));
}
