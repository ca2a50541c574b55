use ping_monitor::circle_color::{CircleColor, Rgb};

fn dist_to_gray(c: Rgb) -> i32 {
    (c.r as i32 - 160).abs() + (c.g as i32 - 160).abs() + (c.b as i32 - 160).abs()
}

#[test]
fn base_colors() {
    assert_eq!(CircleColor::Gray.to_rgb(), Rgb { r: 160, g: 160, b: 160 });
    assert_eq!(CircleColor::Green.to_rgb(), Rgb { r: 0, g: 255, b: 0 });
    assert_eq!(CircleColor::Yellow.to_rgb(), Rgb { r: 255, g: 255, b: 0 });
    assert_eq!(CircleColor::Orange.to_rgb(), Rgb { r: 255, g: 165, b: 0 });
    assert_eq!(CircleColor::Red.to_rgb(), Rgb { r: 255, g: 0, b: 0 });
}

#[test]
fn fresh_color_unchanged_up_to_35s() {
    for &elapsed in &[0u64, 1, 1000, 34_999, 35_000] {
        assert_eq!(
            CircleColor::Green.to_rgb_with_age(elapsed),
            CircleColor::Green.to_rgb()
        );
        assert_eq!(
            CircleColor::Red.to_rgb_with_age(elapsed),
            CircleColor::Red.to_rgb()
        );
    }
}

#[test]
fn old_color_is_gray_from_55s() {
    for &elapsed in &[55_000u64, 55_001, 120_000, u64::MAX] {
        assert_eq!(
            CircleColor::Green.to_rgb_with_age(elapsed),
            Rgb { r: 160, g: 160, b: 160 }
        );
        assert_eq!(
            CircleColor::Orange.to_rgb_with_age(elapsed),
            Rgb { r: 160, g: 160, b: 160 }
        );
    }
}

#[test]
fn fade_midpoint_exact() {
    // At 45 s the weight is 10000 of 20000: each channel is the exact
    // average of base and gray, rounded down.
    let faded = CircleColor::Green.to_rgb_with_age(45_000);
    assert_eq!(faded, Rgb { r: 80, g: 207, b: 80 });
}

#[test]
fn fade_is_monotonic() {
    let colors = [
        CircleColor::Green,
        CircleColor::Yellow,
        CircleColor::Orange,
        CircleColor::Red,
        CircleColor::Gray,
    ];
    for &c in &colors {
        let mut last = dist_to_gray(c.to_rgb_with_age(0));
        for elapsed in (0..70_000u64).step_by(500) {
            let d = dist_to_gray(c.to_rgb_with_age(elapsed));
            assert!(d <= last, "distance to gray grew at {elapsed} ms");
            last = d;
        }
    }
}

#[test]
fn classification_thresholds() {
    let green = 100;
    let yellow = 200;
    assert!(matches!(
        CircleColor::from_ping_response(Some(50), green, yellow),
        CircleColor::Green
    ));
    assert!(matches!(
        CircleColor::from_ping_response(Some(99), green, yellow),
        CircleColor::Green
    ));
    assert!(matches!(
        CircleColor::from_ping_response(Some(100), green, yellow),
        CircleColor::Yellow
    ));
    assert!(matches!(
        CircleColor::from_ping_response(Some(150), green, yellow),
        CircleColor::Yellow
    ));
    assert!(matches!(
        CircleColor::from_ping_response(Some(200), green, yellow),
        CircleColor::Orange
    ));
    assert!(matches!(
        CircleColor::from_ping_response(Some(250), green, yellow),
        CircleColor::Orange
    ));
    assert!(matches!(
        CircleColor::from_ping_response(None, green, yellow),
        CircleColor::Red
    ));
}
