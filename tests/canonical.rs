use imgconv::color::{Depth, MatrixCoefficients, RGBConvert, Range, Rgb16, Yuv};
use imgconv::format::Format;
use imgconv::image::{distance, is_gray, ColorSpace, Image, Rgb8, Rgba8};
use imgconv::orient::{orient_image, valid_orientation};

fn px(r: u8, g: u8, b: u8, a: u8) -> Rgba8 {
    Rgba8 { r, g, b, a }
}

#[test]
fn gray_opaque_image_is_gray() {
    let img = Image::from_rgba(vec![px(10, 10, 10, 255), px(20, 21, 20, 255), px(0, 0, 1, 255), px(7, 7, 7, 255)], 2, 2);
    assert_eq!(img.color_space, ColorSpace::Gray);
    assert!(!img.has_alpha());
}

#[test]
fn one_colored_pixel_makes_rgb() {
    let img = Image::from_rgba(vec![px(10, 10, 10, 255), px(20, 23, 20, 255), px(0, 0, 1, 255), px(7, 7, 7, 255)], 2, 2);
    assert_eq!(img.color_space, ColorSpace::RGB);
}

#[test]
fn translucent_pixels_give_alpha_spaces() {
    let gray = Image::from_rgba(vec![px(5, 5, 5, 254)], 1, 1);
    assert_eq!(gray.color_space, ColorSpace::GrayAlpha);
    let rgba = Image::from_rgba(vec![px(5, 50, 5, 10)], 1, 1);
    assert_eq!(rgba.color_space, ColorSpace::RGBA);
    assert!(rgba.has_alpha());
}

#[test]
fn transparent_pixels_lose_colour() {
    let img = Image::from_rgba(vec![px(200, 100, 50, 0), px(1, 2, 3, 4)], 2, 1);
    assert_eq!(img.data[0], px(0, 0, 0, 0));
    assert_eq!(img.data[1], px(1, 2, 3, 4));
}

#[test]
fn new_uses_given_flags() {
    let img = Image::new(vec![px(9, 9, 9, 0)], 1, 1, true, false);
    assert_eq!(img.color_space, ColorSpace::RGB);
    assert_eq!(img.data[0], px(9, 9, 9, 0));
    let img = Image::new(vec![px(9, 9, 9, 0)], 1, 1, false, true);
    assert_eq!(img.color_space, ColorSpace::GrayAlpha);
    assert_eq!(img.data[0], px(0, 0, 0, 0));
}

#[test]
fn from_rgb_and_gray_are_opaque() {
    let img = Image::from_rgb(vec![Rgb8 { r: 1, g: 200, b: 3 }], 1, 1);
    assert_eq!(img.data[0], px(1, 200, 3, 255));
    assert_eq!(img.color_space, ColorSpace::RGB);
    let g = Image::from_gray(vec![42, 7], 2, 1);
    assert_eq!(g.data, vec![px(42, 42, 42, 255), px(7, 7, 7, 255)]);
    assert_eq!(g.color_space, ColorSpace::Gray);
    assert_eq!(g.to_gray(), vec![42, 7]);
}

#[test]
fn bytes_are_rgba_order() {
    let img = Image::from_rgba(vec![px(1, 2, 3, 255), px(4, 5, 6, 255)], 2, 1);
    assert_eq!(img.as_bytes(), vec![1, 2, 3, 255, 4, 5, 6, 255]);
}

#[test]
fn distance_and_grayness() {
    assert_eq!(distance(3, 10), 7);
    assert_eq!(distance(10, 3), 7);
    assert!(is_gray(px(5, 6, 5, 0)));
    assert!(!is_gray(px(5, 7, 5, 0)));
}

fn sample() -> Image {
    Image::from_rgba(
        vec![px(1, 1, 1, 255), px(2, 2, 2, 255), px(3, 3, 3, 255), px(4, 4, 4, 255), px(5, 5, 5, 255), px(6, 6, 6, 255)],
        3,
        2,
    )
}

fn reds(img: &Image) -> Vec<u8> {
    img.data.iter().map(|p| p.r).collect()
}

#[test]
fn rotate_half_turn_twice_restores() {
    let img = sample();
    let once = orient_image(img.clone(), 3);
    assert_eq!(reds(&once), vec![6, 5, 4, 3, 2, 1]);
    let twice = orient_image(once, 3);
    assert_eq!(twice.data, img.data);
}

#[test]
fn each_orientation_moves_pixels() {
    // 3 wide, 2 high:  1 2 3 / 4 5 6
    assert_eq!(reds(&orient_image(sample(), 1)), vec![1, 2, 3, 4, 5, 6]);
    assert_eq!(reds(&orient_image(sample(), 2)), vec![3, 2, 1, 6, 5, 4]);
    assert_eq!(reds(&orient_image(sample(), 4)), vec![4, 5, 6, 1, 2, 3]);
    let r90 = orient_image(sample(), 6);
    assert_eq!((r90.width, r90.height), (2, 3));
    assert_eq!(reds(&r90), vec![4, 1, 5, 2, 6, 3]);
    assert_eq!(reds(&orient_image(sample(), 8)), vec![3, 6, 2, 5, 1, 4]);
    assert_eq!(reds(&orient_image(sample(), 5)), vec![1, 4, 2, 5, 3, 6]);
    assert_eq!(reds(&orient_image(sample(), 7)), vec![6, 3, 5, 2, 4, 1]);
}

#[test]
fn orientation_codes_outside_exif_are_dropped() {
    assert_eq!(valid_orientation(Some(0)), None);
    assert_eq!(valid_orientation(Some(9)), None);
    assert_eq!(valid_orientation(Some(8)), Some(8));
    assert_eq!(valid_orientation(None), None);
}

#[test]
fn formats_from_extensions() {
    assert_eq!(Format::from_ext("jpg"), Some(Format::JPEG));
    assert_eq!(Format::from_ext("jpeg"), Some(Format::JPEG));
    assert_eq!(Format::from_ext("png"), Some(Format::PNG));
    assert_eq!(Format::from_ext("webp"), Some(Format::WEBP));
    assert_eq!(Format::from_ext("avif"), Some(Format::AVIF));
    assert_eq!(Format::from_ext("jxl"), Some(Format::JXL));
    assert_eq!(Format::from_ext("gif"), None);
    assert_eq!(Format::from_ext(""), None);
}

#[test]
fn formats_from_magic() {
    assert_eq!(Format::from_magic(&[0xff, 0xd8, 0xff, 0xe0]), Some(Format::JPEG));
    assert_eq!(Format::from_magic(&[0x89, b'P', b'N', b'G', 0x0d, 0x0a, 0x1a, 0x0a, 0]), Some(Format::PNG));
    assert_eq!(Format::from_magic(b"RIFF\x10\x00\x00\x00WEBPVP8 "), Some(Format::WEBP));
    assert_eq!(Format::from_magic(b"\x00\x00\x00\x1cftypavif"), Some(Format::AVIF));
    assert_eq!(Format::from_magic(&[0xff, 0x0a, 0x18]), Some(Format::JXL));
    assert_eq!(Format::from_magic(b"RIFF"), None);
    assert_eq!(Format::from_magic(&[]), None);
}

#[test]
fn format_capabilities() {
    assert!(!Format::JPEG.supports_transparency());
    assert!(Format::PNG.supports_transparency());
    assert!(Format::AVIF.supports_transparency());
    assert!(Format::JPEG.supports_chroma_subsampling());
    assert!(!Format::WEBP.supports_chroma_subsampling());
}

#[test]
fn bt601_limited_white_and_black() {
    let c = RGBConvert::new(Range::Limited, MatrixCoefficients::BT601, Depth::Depth8).unwrap();
    assert_eq!(c.to_rgb(Yuv { y: 235, u: 128, v: 128 }), Rgb16 { r: 255, g: 255, b: 255 });
    assert_eq!(c.to_rgb(Yuv { y: 16, u: 128, v: 128 }), Rgb16 { r: 0, g: 0, b: 0 });
    assert_eq!(c.to_rgb(Yuv { y: 0, u: 0, v: 255 }), Rgb16 { r: 184, g: 0, b: 0 });
}

#[test]
fn identity_passes_luma_through() {
    let c = RGBConvert::new(Range::Full, MatrixCoefficients::Identity, Depth::Depth10).unwrap();
    assert!(!c.is_matrix_conv());
    assert_eq!(c.to_luma(700), 700);
    assert_eq!(c.to_rgb(Yuv { y: 700, u: 1, v: 1000 }), Rgb16 { r: 700, g: 700, b: 700 });
    assert_eq!(c.max(), 1023);
}

#[test]
fn unsupported_matrices_are_refused() {
    assert!(RGBConvert::new(Range::Full, MatrixCoefficients::YCgCo, Depth::Depth8).is_none());
    assert!(RGBConvert::new(Range::Full, MatrixCoefficients::ICtCp, Depth::Depth8).is_none());
    assert!(RGBConvert::new(Range::Full, MatrixCoefficients::BT2020NCL, Depth::Depth12).unwrap().is_matrix_conv());
}

fn tiff_with_orientation(code: u16) -> Vec<u8> {
    let mut b = vec![0x49, 0x49, 0x2a, 0x00, 0x08, 0x00, 0x00, 0x00, 0x01, 0x00];
    b.extend_from_slice(&[0x12, 0x01, 0x03, 0x00, 0x01, 0x00, 0x00, 0x00]);
    b.extend_from_slice(&code.to_le_bytes());
    b.extend_from_slice(&[0x00, 0x00, 0x00, 0x00, 0x00, 0x00]);
    b
}

#[test]
fn exif_orientation_reads_primary_field() {
    let e = exif::Reader::new().read_raw(tiff_with_orientation(6)).unwrap();
    assert_eq!(imgconv::orient::exif_orientation(e), Some(6));
}

#[test]
fn exif_orientation_drops_invalid_codes() {
    let e = exif::Reader::new().read_raw(tiff_with_orientation(9)).unwrap();
    assert_eq!(imgconv::orient::exif_orientation(e), None);
}

#[test]
fn empty_image_is_gray_and_opaque() {
    let img = Image::from_rgba(vec![], 0, 0);
    assert_eq!(img.color_space, ColorSpace::Gray);
    assert!(img.data.is_empty());
    assert!(orient_image(img, 6).data.is_empty());
}
