use im2lcd::encoding::{OutputFormat, Pixel};
use im2lcd::geometry::Orientation;
use im2lcd::picture::{convert, ConvertError, PixelGrid};

fn solid(width: u32, height: u32, red: u8, green: u8, blue: u8) -> PixelGrid {
    let pixels = vec![Pixel { red, green, blue }; (width * height) as usize];
    PixelGrid { width, height, pixels }
}

#[test]
fn unrequested_picture_keeps_its_size() {
    let src = solid(4, 2, 0, 0, 0);
    let c = convert(src, None, None, false, OutputFormat::Monochrome).unwrap();
    assert_eq!((c.source_width, c.source_height), (4, 2));
    assert_eq!(c.plan.orientation, Orientation::Landscape);
    assert!(!c.plan.resize);
    assert_eq!((c.grid.width, c.grid.height), (4, 2));
    assert_eq!(c.bytes, vec![0xff]);
}

#[test]
fn unrequested_picture_keeps_its_pixels() {
    let pixels = vec![
        Pixel { red: 255, green: 0, blue: 0 },
        Pixel { red: 0, green: 255, blue: 0 },
        Pixel { red: 0, green: 0, blue: 255 },
    ];
    let src = PixelGrid { width: 1, height: 3, pixels: pixels.clone() };
    let c = convert(src, None, None, false, OutputFormat::Rgb565).unwrap();
    assert_eq!(c.plan.orientation, Orientation::Portrait);
    assert_eq!(c.grid.pixels, pixels);
    assert_eq!(c.bytes, vec![0xf8, 0x00, 0x07, 0xe0, 0x00, 0x1f]);
}

#[test]
fn exact_resize_stretches_to_target() {
    let src = solid(10, 4, 0, 0, 0);
    let c = convert(src, Some(3), Some(3), true, OutputFormat::Monochrome).unwrap();
    assert_eq!((c.grid.width, c.grid.height), (3, 3));
    assert_eq!(c.grid.pixels.len(), 9);
    assert_eq!(c.bytes, vec![0xff, 0x80]);
}

#[test]
fn fill_resize_crops_to_target() {
    let src = solid(10, 4, 255, 255, 255);
    let c = convert(src, Some(2), Some(2), false, OutputFormat::Rgb565).unwrap();
    assert_eq!((c.grid.width, c.grid.height), (2, 2));
    assert_eq!(c.bytes, vec![0xff; 8]);
}

#[test]
fn one_side_requested_uses_default_for_other() {
    let src = solid(3, 6, 0, 0, 0);
    let c = convert(src, Some(5), None, false, OutputFormat::Rgb565).unwrap();
    assert_eq!(c.plan.orientation, Orientation::Portrait);
    assert_eq!((c.grid.width, c.grid.height), (5, 320));
    assert_eq!(c.bytes.len(), 5 * 320 * 2);
}

#[test]
fn oversized_target_is_refused() {
    let src = solid(2, 2, 0, 0, 0);
    let r = convert(src, Some(u32::MAX), Some(u32::MAX), true, OutputFormat::Rgb565);
    assert_eq!(r.unwrap_err(), ConvertError::TooLarge { width: u32::MAX, height: u32::MAX });
}

#[test]
fn oversized_cover_is_refused() {
    // a 1 x 4 strip scaled to cover 3000000000 x 2 would be 3000000000 x 12000000000
    let src = solid(1, 4, 0, 0, 0);
    let r = convert(src, Some(3_000_000_000), Some(2), false, OutputFormat::Rgb565);
    assert_eq!(r.unwrap_err(), ConvertError::TooLarge { width: 3_000_000_000, height: 2 });
}

#[test]
fn refused_size_names_default_side() {
    let src = solid(2, 1, 0, 0, 0);
    let r = convert(src, Some(u32::MAX), None, false, OutputFormat::Rgb565);
    assert_eq!(r.unwrap_err(), ConvertError::TooLarge { width: u32::MAX, height: 240 });
}
