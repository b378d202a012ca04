use imgconv::avif::{decode, rgb16to8, rgba16to8, to_image};
use imgconv::chroma::{yuv_420, yuv_422, yuv_444};
use imgconv::color::{Depth, Rgb16, Rgba16, Yuv};
use imgconv::error::{Error, Unsupported};
use imgconv::frame::{convert, Decoded};
use imgconv::image::{ColorSpace, Rgb8, Rgba8};
use imgconv::plane::{read_plane, ChromaSampling, Frame, Plane, PlaneBuffer, Planes};

fn plane(width: usize, height: usize, samples: Vec<u16>) -> Plane {
    Plane { width, height, samples }
}

fn buffer(width: usize, height: usize, bytes: Vec<u8>) -> PlaneBuffer {
    PlaneBuffer { bytes, start: 0, stride: width as isize, width, height }
}

fn frame(fmt: u32, bit_depth: u32, matrix: u32, range: u32, planes: Vec<PlaneBuffer>) -> Frame {
    Frame { fmt, monochrome: false, bit_depth, matrix, range, planes }
}

fn mono(bit_depth: u32, matrix: u32, range: u32, p: PlaneBuffer) -> Frame {
    Frame { fmt: 0x102, monochrome: true, bit_depth, matrix, range, planes: vec![p] }
}

#[test]
fn chroma_444_uses_colocated_samples() {
    let y = plane(3, 2, vec![1, 2, 3, 4, 5, 6]);
    let u = plane(3, 2, vec![11, 12, 13, 14, 15, 16]);
    let v = plane(3, 2, vec![21, 22, 23, 24, 25, 26]);
    let t = yuv_444(&y, &u, &v);
    assert_eq!(t.len(), 6);
    for i in 0..6u16 {
        assert_eq!(t[i as usize], Yuv { y: i + 1, u: i + 11, v: i + 21 });
    }
}

#[test]
fn chroma_420_replicates_one_sample() {
    let y = plane(2, 2, vec![10, 20, 30, 40]);
    let u = plane(1, 1, vec![7]);
    let v = plane(1, 1, vec![9]);
    let t = yuv_420(&y, &u, &v);
    assert_eq!(t.len(), 4);
    assert_eq!(t[0], Yuv { y: 10, u: 7, v: 9 });
    assert_eq!(t[1], Yuv { y: 20, u: 7, v: 9 });
    assert_eq!(t[2], Yuv { y: 30, u: 7, v: 9 });
    assert_eq!(t[3], Yuv { y: 40, u: 7, v: 9 });
}

#[test]
fn chroma_420_maps_rows_and_columns_by_half() {
    let y = plane(4, 4, (0..16).collect());
    let u = plane(2, 2, vec![100, 101, 102, 103]);
    let v = plane(2, 2, vec![200, 201, 202, 203]);
    let t = yuv_420(&y, &u, &v);
    for r in 0..4usize {
        for c in 0..4usize {
            let k = (r / 2) * 2 + c / 2;
            assert_eq!(t[r * 4 + c], Yuv { y: (r * 4 + c) as u16, u: 100 + k as u16, v: 200 + k as u16 });
        }
    }
}

#[test]
fn chroma_422_replicates_horizontally() {
    let y = plane(4, 2, (0..8).collect());
    let u = plane(2, 2, vec![1, 2, 3, 4]);
    let v = plane(2, 2, vec![5, 6, 7, 8]);
    let t = yuv_422(&y, &u, &v);
    let us: Vec<u16> = t.iter().map(|p| p.u).collect();
    let vs: Vec<u16> = t.iter().map(|p| p.v).collect();
    assert_eq!(us, vec![1, 1, 2, 2, 3, 3, 4, 4]);
    assert_eq!(vs, vec![5, 5, 6, 6, 7, 7, 8, 8]);
}

#[test]
fn plane_reader_handles_negative_stride() {
    // Two rows stored bottom-up: row 0 starts at byte 4, row 1 at byte 0.
    let p = PlaneBuffer { bytes: vec![5, 6, 7, 0, 1, 2, 3, 0], start: 4, stride: -4, width: 3, height: 2 };
    let pl = read_plane(&p, 1).unwrap();
    assert_eq!(pl.samples, vec![1, 2, 3, 5, 6, 7]);
}

#[test]
fn plane_reader_reads_little_endian_pairs() {
    let p = PlaneBuffer { bytes: vec![0x34, 0x12, 0xff, 0x03], start: 0, stride: 4, width: 2, height: 1 };
    let pl = read_plane(&p, 2).unwrap();
    assert_eq!(pl.samples, vec![0x1234, 0x03ff]);
}

#[test]
fn plane_reader_refuses_rows_outside_buffer() {
    let p = PlaneBuffer { bytes: vec![1, 2, 3], start: 0, stride: 2, width: 2, height: 2 };
    assert!(read_plane(&p, 1).is_none());
    let q = PlaneBuffer { bytes: vec![1, 2, 3, 4], start: 0, stride: 1, width: 2, height: 1 };
    assert!(read_plane(&q, 1).is_none());
}

#[test]
fn swapped_formats_exchange_u_and_v() {
    let f = frame(0x301, 8, 1, 1, vec![buffer(2, 2, vec![1, 2, 3, 4]), buffer(1, 1, vec![50]), buffer(1, 1, vec![60])]);
    match f.rows_iter().unwrap() {
        Planes::Yuv { u, v, chroma_sampling, .. } => {
            assert_eq!(u.samples, vec![60]);
            assert_eq!(v.samples, vec![50]);
            assert_eq!(chroma_sampling, ChromaSampling::Cs420);
        }
        _ => panic!("expected colour planes"),
    }
}

#[test]
fn end_to_end_420_bt709_full_range() {
    let (y, u, v) = (128u8, 100u8, 200u8);
    let f = frame(0x102, 8, 1, 1, vec![buffer(2, 2, vec![y; 4]), buffer(1, 1, vec![u]), buffer(1, 1, vec![v])]);
    let img = decode(&f, &None, None).unwrap();
    assert_eq!((img.width, img.height), (2, 2));
    let (yf, uf, vf) = (y as f64, u as f64 - 128.0, v as f64 - 128.0);
    let r = yf + 1.5748 * vf;
    let g = yf - 0.1873 * uf - 0.4681 * vf;
    let b = yf + 1.8556 * uf;
    for p in &img.data {
        assert!((p.r as f64 - r).abs() <= 1.0, "r {} vs {}", p.r, r);
        assert!((p.g as f64 - g).abs() <= 1.0, "g {} vs {}", p.g, g);
        assert!((p.b as f64 - b).abs() <= 1.0, "b {} vs {}", p.b, b);
        assert_eq!(p.a, 255);
    }
    assert_eq!(img.color_space, ColorSpace::RGB);
}

#[test]
fn end_to_end_exact_codes() {
    let f = frame(0x102, 8, 1, 1, vec![buffer(2, 2, vec![128; 4]), buffer(1, 1, vec![100]), buffer(1, 1, vec![200])]);
    let img = decode(&f, &None, None).unwrap();
    assert_eq!(img.data[0], Rgba8 { r: 241, g: 100, b: 76, a: 255 });
}

#[test]
fn alpha_size_mismatch_fails() {
    let color = frame(0x106, 8, 1, 1, vec![buffer(4, 4, vec![90; 16]), buffer(4, 4, vec![128; 16]), buffer(4, 4, vec![128; 16])]);
    let alpha = mono(8, 0, 1, buffer(2, 2, vec![255; 4]));
    let r = convert(&color, &Some(alpha));
    assert_eq!(r.err(), Some(Error::Unsupported(Unsupported::InvalidAlphaSize)));
}

#[test]
fn alpha_with_colour_matrix_fails() {
    let color = frame(0x106, 8, 1, 1, vec![buffer(2, 2, vec![90; 4]), buffer(2, 2, vec![128; 4]), buffer(2, 2, vec![128; 4])]);
    let alpha = mono(8, 1, 1, buffer(2, 2, vec![255; 4]));
    assert_eq!(convert(&color, &Some(alpha)).err(), Some(Error::Unsupported(Unsupported::AlphaHasColor)));
}

#[test]
fn alpha_is_composited() {
    let color = frame(0x106, 8, 1, 1, vec![buffer(2, 1, vec![90, 90]), buffer(2, 1, vec![128, 128]), buffer(2, 1, vec![128, 128])]);
    let alpha = mono(8, 2, 1, buffer(2, 1, vec![0, 200]));
    let img = decode(&color, &Some(alpha), None).unwrap();
    assert_eq!(img.data[0], Rgba8 { r: 0, g: 0, b: 0, a: 0 });
    assert_eq!(img.data[1], Rgba8 { r: 90, g: 90, b: 90, a: 200 });
    assert_eq!(img.color_space, ColorSpace::GrayAlpha);
}

#[test]
fn sixteen_bit_alpha_keeps_top_byte() {
    let color = frame(0x106, 8, 1, 1, vec![buffer(1, 1, vec![90]), buffer(1, 1, vec![128]), buffer(1, 1, vec![128])]);
    let a = PlaneBuffer { bytes: vec![0xff, 0x03], start: 0, stride: 2, width: 1, height: 1 };
    let alpha = mono(10, 0, 1, a);
    let d = convert(&color, &Some(alpha)).unwrap();
    match d {
        Decoded::RGBA8 { pixels, .. } => assert_eq!(pixels[0].a, 255),
        _ => panic!("expected an RGBA8 buffer"),
    }
}

#[test]
fn mono_frame_gives_gray_buffer() {
    let f = mono(8, 2, 1, buffer(2, 1, vec![3, 250]));
    match convert(&f, &None).unwrap() {
        Decoded::Gray8 { width, height, pixels } => {
            assert_eq!((width, height), (2, 1));
            assert_eq!(pixels, vec![3, 250]);
        }
        _ => panic!("expected a Gray8 buffer"),
    }
    let img = decode(&f, &None, None).unwrap();
    assert_eq!(img.color_space, ColorSpace::Gray);
    assert_eq!(img.data[1], Rgba8 { r: 250, g: 250, b: 250, a: 255 });
}

#[test]
fn limited_range_mono_is_stretched() {
    let f = mono(8, 0, 0, buffer(3, 1, vec![16, 235, 126]));
    match convert(&f, &None).unwrap() {
        Decoded::Gray8 { pixels, .. } => assert_eq!(pixels, vec![0, 255, 128]),
        _ => panic!("expected a Gray8 buffer"),
    }
}

#[test]
fn ten_bit_frame_is_narrowed() {
    let bytes = vec![0xff, 0x03];
    let y = PlaneBuffer { bytes: bytes.clone(), start: 0, stride: 2, width: 1, height: 1 };
    let f = mono(10, 2, 1, y);
    let d = convert(&f, &None).unwrap();
    match &d {
        Decoded::Gray16 { pixels, depth, .. } => {
            assert_eq!(pixels, &vec![1023]);
            assert_eq!(*depth, Depth::Depth10);
        }
        _ => panic!("expected a Gray16 buffer"),
    }
    let img = to_image(d);
    assert_eq!(img.data[0], Rgba8 { r: 255, g: 255, b: 255, a: 255 });
}

#[test]
fn narrowing_keeps_top_bits() {
    assert_eq!(rgb16to8(Rgb16 { r: 65535, g: 256, b: 255 }, Depth::Depth16), Rgb8 { r: 255, g: 1, b: 0 });
    assert_eq!(
        rgba16to8(Rgba16 { r: 1023, g: 512, b: 3, a: 1020 }, Depth::Depth10),
        Rgba8 { r: 255, g: 128, b: 0, a: 255 }
    );
}

#[test]
fn unknown_format_fails() {
    let f = frame(0x999, 8, 1, 1, vec![buffer(1, 1, vec![0])]);
    assert_eq!(convert(&f, &None).err(), Some(Error::Unsupported(Unsupported::UnknownFormat)));
}

#[test]
fn bad_depth_fails() {
    let f = frame(0x102, 9, 1, 1, vec![buffer(1, 1, vec![0])]);
    assert_eq!(convert(&f, &None).err(), Some(Error::Unsupported(Unsupported::BadDepth)));
}

#[test]
fn missing_plane_fails() {
    let f = frame(0x106, 8, 1, 1, vec![buffer(1, 1, vec![0])]);
    assert_eq!(convert(&f, &None).err(), Some(Error::Unsupported(Unsupported::BadPlane)));
}

#[test]
fn small_chroma_fails() {
    let f = frame(0x106, 8, 1, 1, vec![buffer(2, 2, vec![0; 4]), buffer(1, 1, vec![0]), buffer(1, 1, vec![0])]);
    assert_eq!(convert(&f, &None).err(), Some(Error::Unsupported(Unsupported::InvalidChromaSize)));
}

#[test]
fn unsupported_matrix_fails() {
    let f = frame(0x106, 8, 14, 1, vec![buffer(1, 1, vec![0]), buffer(1, 1, vec![0]), buffer(1, 1, vec![0])]);
    assert_eq!(convert(&f, &None).err(), Some(Error::Unsupported(Unsupported::ColorConversion)));
}

#[test]
fn orientation_is_applied() {
    let f = mono(8, 2, 1, buffer(2, 1, vec![10, 20]));
    let img = decode(&f, &None, Some(6)).unwrap();
    assert_eq!((img.width, img.height), (1, 2));
    assert_eq!(img.data[0].g, 10);
    assert_eq!(img.data[1].g, 20);
    let kept = decode(&f, &None, Some(9)).unwrap();
    assert_eq!((kept.width, kept.height), (2, 1));
}

#[test]
fn empty_frame_gives_empty_image() {
    let f = frame(0x102, 8, 1, 1, vec![buffer(0, 0, vec![]), buffer(0, 0, vec![]), buffer(0, 0, vec![])]);
    let img = decode(&f, &None, Some(3)).unwrap();
    assert_eq!((img.width, img.height), (0, 0));
    assert!(img.data.is_empty());
}
