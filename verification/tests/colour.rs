use bbg::colour::{AverageColor, ColourError};
use std::io::Cursor;

fn png_bytes(width: u32, height: u32, pixels: &[[u8; 4]]) -> Vec<u8> {
    let mut img = image::RgbaImage::new(width, height);
    for (i, p) in img.pixels_mut().enumerate() {
        *p = image::Rgba(pixels[i]);
    }
    let mut out = Vec::new();
    img.write_to(&mut Cursor::new(&mut out), image::ImageFormat::Png).unwrap();
    out
}

#[test]
fn new_holds_channels() {
    assert_eq!(AverageColor::new(1, 2, 3).to_embed_color(), 0x010203);
}

#[test]
fn embed_color_packs_rgb() {
    assert_eq!(AverageColor::new(255, 215, 0).to_embed_color(), 0xFFD700);
    assert_eq!(AverageColor::new(0, 0, 0).to_embed_color(), 0);
}

#[test]
fn mean_of_rgba_buffer_rounds_down() {
    let px = [10, 20, 30, 255, 11, 21, 31, 0];
    assert_eq!(AverageColor::from_rgba(2, 1, &px), AverageColor::new(10, 20, 30));
    let px = [0, 0, 0, 9, 255, 255, 255, 9, 255, 0, 1, 9];
    assert_eq!(AverageColor::from_rgba(3, 1, &px), AverageColor::new(170, 85, 85));
}

#[test]
fn single_colour_image_averages_to_that_colour() {
    let bytes = png_bytes(3, 2, &[[12, 34, 56, 255]; 6]);
    assert_eq!(AverageColor::from_image_bytes(&bytes).unwrap(), AverageColor::new(12, 34, 56));
}

#[test]
fn decoded_image_average() {
    let bytes = png_bytes(2, 2, &[[0, 0, 0, 255], [100, 0, 0, 255], [0, 200, 0, 255], [0, 0, 50, 0]]);
    assert_eq!(AverageColor::from_image_bytes(&bytes).unwrap(), AverageColor::new(25, 50, 12));
}

#[test]
fn undecodable_bytes_are_an_error() {
    let res = AverageColor::from_image_bytes(b"definitely not an image");
    assert!(matches!(res, Err(ColourError::Decode(_))));
}
