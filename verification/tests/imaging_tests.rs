use photoqt::errors::DecodeError;
use photoqt::imaging::{decode_photo, expand_gray_to_rgba, preview_dims, preview_from_image};

fn png_bytes(width: u32, height: u32) -> Vec<u8> {
    let img = image::DynamicImage::ImageRgb8(image::RgbImage::from_fn(width, height, |x, y| {
        image::Rgb([(x % 256) as u8, (y % 256) as u8, 40])
    }));
    let mut bytes: Vec<u8> = Vec::new();
    img.write_to(&mut std::io::Cursor::new(&mut bytes), image::ImageFormat::Png).unwrap();
    bytes
}

#[test]
fn wide_photo_scales_to_max_width() {
    assert_eq!(preview_dims(4000, 2000, 200), (200, 100));
}

#[test]
fn tall_photo_scales_to_max_height() {
    assert_eq!(preview_dims(2000, 4000, 200), (100, 200));
}

#[test]
fn square_photo_scales_both_sides_to_max() {
    assert_eq!(preview_dims(1000, 1000, 200), (200, 200));
}

#[test]
fn scaling_rounds_down() {
    assert_eq!(preview_dims(3, 2, 200), (200, 133));
}

#[test]
fn gray_expands_to_opaque_rgba() {
    let rgba = expand_gray_to_rgba(&vec![0, 128, 255]);
    assert_eq!(rgba, vec![0, 0, 0, 255, 128, 128, 128, 255, 255, 255, 255, 255]);
}

#[test]
fn garbage_bytes_do_not_decode() {
    let r = decode_photo(&[0, 1, 2, 3, 4, 5]);
    assert!(matches!(r, Err(DecodeError::Undecodable)));
}

#[test]
fn preview_of_a_wide_png_is_exactly_scaled() {
    let bytes = png_bytes(400, 200);
    let img = decode_photo(&bytes).unwrap();
    let preview = preview_from_image(&img, 200).unwrap();
    assert_eq!((preview.width, preview.height), (200, 100));
    assert_eq!(preview.pixels.len(), 4 * 200 * 100);
    for pixel in preview.pixels.chunks(4) {
        assert_eq!(pixel[0], pixel[1]);
        assert_eq!(pixel[1], pixel[2]);
        assert_eq!(pixel[3], 255);
    }
}

#[test]
fn preview_of_a_tall_png_is_exactly_scaled() {
    let bytes = png_bytes(100, 400);
    let img = decode_photo(&bytes).unwrap();
    let preview = preview_from_image(&img, 200).unwrap();
    assert_eq!((preview.width, preview.height), (50, 200));
}
