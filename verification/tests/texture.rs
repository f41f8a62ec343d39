use astronomore::texture::{texture_data, texture_from_rgba8, TextureError};
use std::io::Cursor;

fn png(width: u32, height: u32, rgba: &[u8]) -> Vec<u8> {
    let img = image::RgbaImage::from_raw(width, height, rgba.to_vec()).unwrap();
    let mut out = Cursor::new(Vec::new());
    img.write_to(&mut out, image::ImageFormat::Png).unwrap();
    out.into_inner()
}

#[test]
fn png_bytes_become_texture_data() {
    let pixels: Vec<u8> = (0u8..24).collect();
    let t = texture_data(&png(2, 3, &pixels)).ok().unwrap();
    assert_eq!((t.width, t.height, t.bytes_per_row), (2, 3, 8));
    assert_eq!(t.rgba, pixels);
}

#[test]
fn garbage_is_a_decode_error() {
    match texture_data(b"not an image at all") {
        Err(TextureError::Decode(message)) => assert!(!message.is_empty()),
        _ => panic!("expected a decode error"),
    }
}

#[test]
fn zero_dimension_is_refused() {
    match texture_from_rgba8(0, 5, Vec::new()) {
        Err(TextureError::ZeroDimension { width, height }) => assert_eq!((width, height), (0, 5)),
        _ => panic!("expected a zero-dimension error"),
    }
    match texture_from_rgba8(3, 0, Vec::new()) {
        Err(TextureError::ZeroDimension { width, height }) => assert_eq!((width, height), (3, 0)),
        _ => panic!("expected a zero-dimension error"),
    }
}

#[test]
fn widest_row_pitch_fits() {
    let t = texture_from_rgba8(u32::MAX / 4, 1, Vec::new()).ok().unwrap();
    assert_eq!(t.bytes_per_row, 4 * (u32::MAX / 4));
    assert!(t.rgba.is_empty());
}
