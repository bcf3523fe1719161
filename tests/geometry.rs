use im2lcd::geometry::{resolve, Orientation, ResizePlan};

#[test]
fn portrait_defaults_without_requests() {
    let plan = resolve(100, 200, None, None);
    assert_eq!(
        plan,
        ResizePlan { orientation: Orientation::Portrait, width: 240, height: 320, resize: false }
    );
}

#[test]
fn landscape_defaults_without_requests() {
    let plan = resolve(200, 100, None, None);
    assert_eq!(plan.orientation, Orientation::Landscape);
    assert_eq!((plan.width, plan.height, plan.resize), (320, 240, false));
}

#[test]
fn square_counts_as_landscape() {
    let plan = resolve(50, 50, None, None);
    assert_eq!(plan.orientation, Orientation::Landscape);
    assert_eq!((plan.width, plan.height), (320, 240));
}

#[test]
fn huge_picture_without_requests_is_not_resized() {
    let plan = resolve(10000, 8000, None, None);
    assert!(!plan.resize);
}

#[test]
fn only_width_requested_takes_default_height() {
    let plan = resolve(100, 200, Some(64), None);
    assert_eq!((plan.width, plan.height, plan.resize), (64, 320, true));
    let plan = resolve(300, 200, Some(64), None);
    assert_eq!((plan.width, plan.height, plan.resize), (64, 240, true));
}

#[test]
fn only_height_requested_takes_default_width() {
    let plan = resolve(100, 200, None, Some(48));
    assert_eq!((plan.width, plan.height, plan.resize), (240, 48, true));
    let plan = resolve(300, 200, None, Some(48));
    assert_eq!((plan.width, plan.height, plan.resize), (320, 48, true));
}

#[test]
fn both_requested_are_taken_as_given() {
    let plan = resolve(100, 200, Some(16), Some(8));
    assert_eq!((plan.width, plan.height, plan.resize), (16, 8, true));
}

#[test]
fn orientation_names_and_defaults() {
    assert_eq!(Orientation::from_dimensions((1, 2)), Orientation::Portrait);
    assert_eq!(Orientation::from_dimensions((2, 1)), Orientation::Landscape);
    assert_eq!(Orientation::Portrait.name(), "Portrait");
    assert_eq!(Orientation::Landscape.name(), "Landscape");
    assert_eq!(Orientation::Portrait.default_dimensions(), (240, 320));
    assert_eq!(Orientation::Landscape.default_dimensions(), (320, 240));
}
