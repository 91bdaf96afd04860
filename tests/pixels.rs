use hue_mosaic::pixels::{ExtractError, PixelBuffer, Rgba8};

fn buffer(width: usize, height: usize, pitch: usize, bpp: usize, pixels: Vec<u8>) -> PixelBuffer {
    PixelBuffer { width, height, pitch, bytes_per_pixel: bpp, pixels }
}

#[test]
fn pitch_one_byte_too_long_is_rejected() {
    let b = buffer(10, 1, 41, 4, vec![0u8; 41]);
    assert_eq!(b.extract(), Err(ExtractError::LayoutMismatch { expected: 40, actual: 41 }));
}

#[test]
fn pitch_of_width_times_four_is_accepted() {
    let b = buffer(10, 1, 40, 4, vec![0u8; 40]);
    let v = b.extract().unwrap();
    assert_eq!(v.len(), 10);
}

#[test]
fn pixels_come_out_in_row_major_order() {
    let bytes = vec![
        255, 0, 0, 255, 0, 255, 0, 128, // row 0
        0, 0, 255, 64, 10, 20, 30, 0, // row 1
    ];
    let b = buffer(2, 2, 8, 4, bytes);
    let v = b.extract().unwrap();
    assert_eq!(
        v,
        vec![
            Rgba8 { red: 255, green: 0, blue: 0, alpha: 255 },
            Rgba8 { red: 0, green: 255, blue: 0, alpha: 128 },
            Rgba8 { red: 0, green: 0, blue: 255, alpha: 64 },
            Rgba8 { red: 10, green: 20, blue: 30, alpha: 0 },
        ]
    );
}

#[test]
fn three_byte_pixels_are_unsupported() {
    let b = buffer(2, 1, 6, 3, vec![1u8; 6]);
    assert_eq!(b.extract(), Err(ExtractError::UnsupportedFormat { bytes_per_pixel: 3 }));
}

#[test]
fn no_bytes_is_an_empty_buffer() {
    let b = buffer(2, 2, 8, 4, Vec::new());
    assert_eq!(b.extract(), Err(ExtractError::EmptyBuffer));
}

#[test]
fn too_few_bytes_is_truncated() {
    let b = buffer(2, 2, 8, 4, vec![0u8; 12]);
    assert_eq!(b.extract(), Err(ExtractError::Truncated { expected: 16, actual: 12 }));
}

#[test]
fn trailing_bytes_are_ignored() {
    let b = buffer(1, 1, 4, 4, vec![1, 2, 3, 4, 5, 6]);
    assert_eq!(b.extract(), Ok(vec![Rgba8 { red: 1, green: 2, blue: 3, alpha: 4 }]));
}
