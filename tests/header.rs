use im2lcd::encoding::OutputFormat;
use im2lcd::geometry::Orientation;
use im2lcd::header::render;

#[test]
fn header_lists_bytes_in_lowercase_hex() {
    let text = render(Orientation::Landscape, 2, 1, OutputFormat::Rgb565, "data", &[0x0a, 0xff, 0x00]);
    assert_eq!(
        text,
        "/* Landscape - 2x1 - Rgb565*/\nconst uint8_t data[3] = {\n    0xa,\n    0xff,\n    0x0,};"
    );
}

#[test]
fn header_of_empty_buffer() {
    let text = render(Orientation::Portrait, 240, 320, OutputFormat::Monochrome, "logo", &[]);
    assert_eq!(text, "/* Portrait - 240x320 - Monochrome*/\nconst uint8_t logo[0] = {};");
}

#[test]
fn header_counts_bytes_in_decimal() {
    let bytes = vec![0x10u8; 1234];
    let text = render(Orientation::Landscape, 4294967295, 10, OutputFormat::Monochrome, "a", &bytes);
    assert!(text.starts_with("/* Landscape - 4294967295x10 - Monochrome*/\nconst uint8_t a[1234] = {\n    0x10,"));
    assert!(text.ends_with("\n    0x10,};"));
}
