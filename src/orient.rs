use vstd::prelude::*;
use crate::image::{
    bytes_to_pixels, classify, has_alpha_spec, optimized, pixels_of, pixels_to_bytes, Image, Rgba8,
};

verus! {

/// Parsed Exif metadata of the exif crate, carried through unopened.
#[verifier::external_type_specification]
#[verifier::external_body]
pub struct ExExif(exif::Exif);

/// The value of one Exif field, carried through unopened.
#[verifier::external_type_specification]
#[verifier::external_body]
pub struct ExValue(exif::Value);

/// Mirrors each row: pixel `(x, y)` comes from `(w - 1 - x, y)`.
pub open spec fn flip_h(s: Seq<Rgba8>, w: int, h: int) -> Seq<Rgba8> {
    Seq::new((w * h) as nat, |i: int| s[(i / w) * w + (w - 1 - i % w)])
}

/// Mirrors each column: pixel `(x, y)` comes from `(x, h - 1 - y)`.
pub open spec fn flip_v(s: Seq<Rgba8>, w: int, h: int) -> Seq<Rgba8> {
    Seq::new((w * h) as nat, |i: int| s[(h - 1 - i / w) * w + i % w])
}

/// Turns the image half a turn: the pixels in reverse order.
pub open spec fn rot180(s: Seq<Rgba8>, w: int, h: int) -> Seq<Rgba8> {
    Seq::new((w * h) as nat, |i: int| s[w * h - 1 - i])
}

/// Turns a `w` by `h` image a quarter turn clockwise into an `h` by `w` one:
/// pixel `(x, y)` comes from `(y, h - 1 - x)`.
pub open spec fn rot90(s: Seq<Rgba8>, w: int, h: int) -> Seq<Rgba8> {
    Seq::new((w * h) as nat, |i: int| s[(h - 1 - i % h) * w + i / h])
}

/// Turns a `w` by `h` image a quarter turn anticlockwise into an `h` by `w` one:
/// pixel `(x, y)` comes from `(w - 1 - y, x)`.
pub open spec fn rot270(s: Seq<Rgba8>, w: int, h: int) -> Seq<Rgba8> {
    Seq::new((w * h) as nat, |i: int| s[(i % h) * w + (w - 1 - i / h)])
}

/// The pixels of a `w` by `h` image after the transform of an Exif orientation code.
pub open spec fn oriented_pixels(s: Seq<Rgba8>, w: int, h: int, o: u32) -> Seq<Rgba8> {
    if o == 2 {
        flip_h(s, w, h)
    } else if o == 3 {
        rot180(s, w, h)
    } else if o == 4 {
        flip_v(s, w, h)
    } else if o == 5 {
        flip_h(rot90(s, w, h), h, w)
    } else if o == 6 {
        rot90(s, w, h)
    } else if o == 7 {
        flip_v(rot90(s, w, h), h, w)
    } else if o == 8 {
        rot270(s, w, h)
    } else {
        s
    }
}

/// Width and height after the transform of an Exif orientation code.
pub open spec fn oriented_dims(w: usize, h: usize, o: u32) -> (usize, usize) {
    if 5 <= o <= 8 {
        (h, w)
    } else {
        (w, h)
    }
}

pub open spec fn raster_ok(b: Seq<u8>, w: u32, h: u32) -> bool {
    b.len() == 4 * (w as int) * (h as int)
}

/// Relies on image::imageops::flip_horizontal_in_place, which swaps each pixel
/// with its mirror in the same row.
#[verifier::external_body]
fn flip_horizontal(b: Vec<u8>, w: u32, h: u32) -> (r: Vec<u8>)
    requires
        raster_ok(b@, w, h),
    ensures
        raster_ok(r@, w, h),
        pixels_of(r@) == flip_h(pixels_of(b@), w as int, h as int),
{
    let mut img = image::RgbaImage::from_raw(w, h, b).unwrap();
    image::imageops::flip_horizontal_in_place(&mut img);
    img.into_raw()
}

/// Relies on image::imageops::flip_vertical_in_place, which swaps each pixel
/// with its mirror in the same column.
#[verifier::external_body]
fn flip_vertical(b: Vec<u8>, w: u32, h: u32) -> (r: Vec<u8>)
    requires
        raster_ok(b@, w, h),
    ensures
        raster_ok(r@, w, h),
        pixels_of(r@) == flip_v(pixels_of(b@), w as int, h as int),
{
    let mut img = image::RgbaImage::from_raw(w, h, b).unwrap();
    image::imageops::flip_vertical_in_place(&mut img);
    img.into_raw()
}

/// Relies on image::imageops::rotate180_in_place, which swaps pixel `(x, y)`
/// with `(w - 1 - x, h - 1 - y)`.
#[verifier::external_body]
fn rotate180(b: Vec<u8>, w: u32, h: u32) -> (r: Vec<u8>)
    requires
        raster_ok(b@, w, h),
    ensures
        raster_ok(r@, w, h),
        pixels_of(r@) == rot180(pixels_of(b@), w as int, h as int),
{
    let mut img = image::RgbaImage::from_raw(w, h, b).unwrap();
    image::imageops::rotate180_in_place(&mut img);
    img.into_raw()
}

/// Relies on image::imageops::rotate90, which writes source pixel `(x, y)` to
/// `(h - 1 - y, x)` of a new `h` by `w` image.
#[verifier::external_body]
fn rotate90(b: Vec<u8>, w: u32, h: u32) -> (r: Vec<u8>)
    requires
        raster_ok(b@, w, h),
    ensures
        raster_ok(r@, h, w),
        pixels_of(r@) == rot90(pixels_of(b@), w as int, h as int),
{
    let img = image::RgbaImage::from_raw(w, h, b).unwrap();
    image::imageops::rotate90(&img).into_raw()
}

/// Relies on image::imageops::rotate270, which writes source pixel `(x, y)` to
/// `(y, w - 1 - x)` of a new `h` by `w` image.
#[verifier::external_body]
fn rotate270(b: Vec<u8>, w: u32, h: u32) -> (r: Vec<u8>)
    requires
        raster_ok(b@, w, h),
    ensures
        raster_ok(r@, h, w),
        pixels_of(r@) == rot270(pixels_of(b@), w as int, h as int),
{
    let img = image::RgbaImage::from_raw(w, h, b).unwrap();
    image::imageops::rotate270(&img).into_raw()
}

/// Relies on exif::Exif::get_field: the value of the primary image's
/// orientation field, if the metadata has one.
#[verifier::external_body]
fn orientation_value(e: &exif::Exif) -> (r: Option<exif::Value>) {
    e.get_field(exif::Tag::Orientation, exif::In::PRIMARY).map(|f| f.value.clone())
}

/// Relies on exif::Value::get_uint: the first unsigned integer of a value, if
/// it holds one.
#[verifier::external_body]
fn first_uint(v: &exif::Value) -> (r: Option<u32>) {
    v.get_uint(0)
}

/// Keeps an orientation code only when it is one of the eight that Exif defines.
pub fn valid_orientation(code: Option<u32>) -> (r: Option<u32>)
    ensures
        r == (if code matches Some(c) && 1 <= c <= 8 { code } else { None }),
{
    match code {
        Some(c) => if 1 <= c && c <= 8 {
            Some(c)
        } else {
            None
        },
        None => None,
    }
}

/// The orientation code of an image's Exif metadata, if it has a valid one.
pub fn exif_orientation(exif: exif::Exif) -> (r: Option<u32>)
    ensures
        r matches Some(c) ==> 1 <= c <= 8,
{
    let code = match orientation_value(&exif) {
        Some(v) => first_uint(&v),
        None => None,
    };
    valid_orientation(code)
}

pub open spec fn orientable(image: Image) -> bool {
    &&& image.data@.len() == image.width * image.height
    &&& image.width <= u32::MAX
    &&& image.height <= u32::MAX
    &&& 4 * image.data@.len() <= usize::MAX
}

/// Rotates and flips an image as an Exif orientation code says; code 1 leaves
/// it as it is.
pub fn orient_image(image: Image, orientation: u32) -> (r: Image)
    requires
        1 <= orientation <= 8,
        orientable(image),
    ensures
        orientation == 1 ==> r == image,
        orientation != 1 ==> ({
            let p = oriented_pixels(image.data@, image.width as int, image.height as int, orientation);
            &&& (r.width, r.height) == oriented_dims(image.width, image.height, orientation)
            &&& r.color_space == classify(p)
            &&& r.data@ == optimized(p, has_alpha_spec(p))
            &&& r.is_canonical()
        }),
{
    if orientation == 1 {
        return image;
    }
    let w = image.width;
    let h = image.height;
    let bytes = pixels_to_bytes(&image.data);
    let w32 = w as u32;
    let h32 = h as u32;
    proof {
        assert(raster_ok(bytes@, w32, h32)) by (nonlinear_arith)
            requires
                bytes@.len() == 4 * image.data@.len(),
                image.data@.len() == w * h,
                w32 == w,
                h32 == h,
        ;
    }
    let (out, nw, nh) = if orientation == 2 {
        (flip_horizontal(bytes, w32, h32), w, h)
    } else if orientation == 3 {
        (rotate180(bytes, w32, h32), w, h)
    } else if orientation == 4 {
        (flip_vertical(bytes, w32, h32), w, h)
    } else if orientation == 5 {
        let t = rotate90(bytes, w32, h32);
        (flip_horizontal(t, h32, w32), h, w)
    } else if orientation == 6 {
        (rotate90(bytes, w32, h32), h, w)
    } else if orientation == 7 {
        let t = rotate90(bytes, w32, h32);
        (flip_vertical(t, h32, w32), h, w)
    } else {
        (rotate270(bytes, w32, h32), h, w)
    };
    let data = bytes_to_pixels(&out);
    Image::from_rgba(data, nw, nh)
}

/// Turning a canonical image half a turn twice gives back its pixels exactly.
pub proof fn lemma_rotate180_twice(img: Image)
    requires
        img.is_canonical(),
        img.data@.len() == img.width * img.height,
    ensures
        ({
            let (w, h) = (img.width as int, img.height as int);
            let p1 = oriented_pixels(img.data@, w, h, 3);
            let d1 = optimized(p1, has_alpha_spec(p1));
            let p2 = oriented_pixels(d1, w, h, 3);
            optimized(p2, has_alpha_spec(p2)) == img.data@
        }),
{
    let s = img.data@;
    let (w, h) = (img.width as int, img.height as int);
    let n = s.len() as int;
    let p1 = oriented_pixels(s, w, h, 3);
    assert(p1.len() == n);
    let ha = has_alpha_spec(s);
    if has_alpha_spec(p1) {
        let i = choose|i: int| 0 <= i < p1.len() && (#[trigger] p1[i]).a < 255;
        assert(s[n - 1 - i].a < 255);
    }
    if ha {
        let j = choose|j: int| 0 <= j < s.len() && (#[trigger] s[j]).a < 255;
        assert(p1[n - 1 - j].a < 255);
    }
    assert(has_alpha_spec(p1) == ha);
    let d1 = optimized(p1, ha);
    if ha {
        assert forall|i: int| 0 <= i < n implies #[trigger] d1[i] == p1[i] by {
            assert(s[n - 1 - i] == optimized(s, true)[n - 1 - i]);
        }
    }
    assert(d1 =~= p1);
    let p2 = oriented_pixels(d1, w, h, 3);
    assert(p2 =~= s);
}

} // verus!
