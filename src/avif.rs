use vstd::prelude::*;
use crate::color::{depth_max, depth_scale, Depth, Rgb16, Rgba16};
use crate::error::{Error, Unsupported};
use crate::frame::{convert, convert_error, reconstruction, Decoded, DecodedView};
use crate::orient::{orient_image, orientable, oriented_dims, oriented_pixels, valid_orientation};
use crate::plane::Frame;
use crate::image::{classify, has_alpha_spec, optimized, Image, Rgb8, Rgba8};

verus! {

/// A code of the given depth narrowed to eight bits: its top eight bits, and 255
/// for a code above the depth's maximum.
pub open spec fn narrow(v: u16, d: Depth) -> u8 {
    let n = v as int / depth_scale(d);
    if n > 255 {
        255
    } else {
        n as u8
    }
}

pub open spec fn narrow_pixel(p: Rgba16, d: Depth) -> Rgba8 {
    Rgba8 { r: narrow(p.r, d), g: narrow(p.g, d), b: narrow(p.b, d), a: narrow(p.a, d) }
}

/// The pixels of a reconstruction at eight bits.
pub open spec fn narrowed(v: DecodedView) -> Seq<Rgba8> {
    v.pixels.map_values(|p: Rgba16| narrow_pixel(p, v.depth))
}

fn narrow_exec(v: u16, d: Depth) -> (r: u8)
    ensures
        r == narrow(v, d),
{
    let s: u16 = match d {
        Depth::Depth8 => 1,
        Depth::Depth10 => 4,
        Depth::Depth12 => 16,
        Depth::Depth16 => 256,
    };
    let n = v / s;
    if n > 255 {
        255
    } else {
        n as u8
    }
}

/// A colour pixel of the given depth at eight bits.
pub fn rgb16to8(p: Rgb16, d: Depth) -> (r: Rgb8)
    ensures
        r == (Rgb8 { r: narrow(p.r, d), g: narrow(p.g, d), b: narrow(p.b, d) }),
{
    Rgb8 { r: narrow_exec(p.r, d), g: narrow_exec(p.g, d), b: narrow_exec(p.b, d) }
}

/// A colour and alpha pixel of the given depth at eight bits.
pub fn rgba16to8(p: Rgba16, d: Depth) -> (r: Rgba8)
    ensures
        r == narrow_pixel(p, d),
{
    Rgba8 { r: narrow_exec(p.r, d), g: narrow_exec(p.g, d), b: narrow_exec(p.b, d), a: narrow_exec(p.a, d) }
}

/// The image a reconstruction gives once narrowed to eight bits and classified.
pub open spec fn image_matches(img: Image, v: DecodedView) -> bool {
    let n = narrowed(v);
    &&& img.width == v.width
    &&& img.height == v.height
    &&& img.color_space == classify(n)
    &&& img.data@ == optimized(n, has_alpha_spec(n))
}

/// Narrows a reconstruction to eight bits and builds the canonical image from it.
pub fn to_image(d: Decoded) -> (r: Image)
    ensures
        image_matches(r, d@),
        r.is_canonical(),
{
    let ghost v = d@;
    match d {
        Decoded::RGB8 { width, height, pixels } => {
            let r = Image::from_rgb(pixels, width, height);
            assert(r.data@ =~= narrowed(v));
            r
        },
        Decoded::RGBA8 { width, height, pixels } => {
            assert(pixels@ =~= narrowed(v));
            Image::from_rgba(pixels, width, height)
        },
        Decoded::Gray8 { width, height, pixels } => {
            let r = Image::from_gray(pixels, width, height);
            assert(r.data@ =~= narrowed(v));
            r
        },
        Decoded::RGB16 { width, height, depth, pixels } => {
            let n = pixels.len();
            let mut out: Vec<Rgb8> = Vec::with_capacity(n);
            let mut i: usize = 0;
            while i < n
                invariant
                    n == pixels@.len(),
                    i <= n,
                    out@.len() == i,
                    forall|k: int| 0 <= k < i ==> #[trigger] out@[k] == (Rgb8 {
                        r: narrow(pixels@[k].r, depth),
                        g: narrow(pixels@[k].g, depth),
                        b: narrow(pixels@[k].b, depth),
                    }),
                decreases n - i,
            {
                out.push(rgb16to8(pixels[i], depth));
                i = i + 1;
            }
            let r = Image::from_rgb(out, width, height);
            proof {
                assert(narrow(depth_max(depth) as u16, depth) == 255) by {
                    match depth {
                        Depth::Depth8 => assert((255int as u16) as int / 1 == 255),
                        Depth::Depth10 => assert((1023int as u16) as int / 4 == 255),
                        Depth::Depth12 => assert((4095int as u16) as int / 16 == 255),
                        Depth::Depth16 => assert((65535int as u16) as int / 256 == 255),
                    }
                }
                assert(r.data@ =~= narrowed(v));
            }
            r
        },
        Decoded::RGBA16 { width, height, depth, pixels } => {
            let n = pixels.len();
            let mut out: Vec<Rgba8> = Vec::with_capacity(n);
            let mut i: usize = 0;
            while i < n
                invariant
                    n == pixels@.len(),
                    i <= n,
                    out@.len() == i,
                    forall|k: int| 0 <= k < i ==> #[trigger] out@[k] == narrow_pixel(pixels@[k], depth),
                decreases n - i,
            {
                out.push(rgba16to8(pixels[i], depth));
                i = i + 1;
            }
            assert(out@ =~= narrowed(v));
            Image::from_rgba(out, width, height)
        },
        Decoded::Gray16 { width, height, depth, pixels } => {
            let n = pixels.len();
            let mut out: Vec<u8> = Vec::with_capacity(n);
            let mut i: usize = 0;
            while i < n
                invariant
                    n == pixels@.len(),
                    i <= n,
                    out@.len() == i,
                    forall|k: int| 0 <= k < i ==> #[trigger] out@[k] == narrow(pixels@[k], depth),
                decreases n - i,
            {
                out.push(narrow_exec(pixels[i], depth));
                i = i + 1;
            }
            let r = Image::from_gray(out, width, height);
            proof {
                assert(narrow(depth_max(depth) as u16, depth) == 255) by {
                    match depth {
                        Depth::Depth8 => assert((255int as u16) as int / 1 == 255),
                        Depth::Depth10 => assert((1023int as u16) as int / 4 == 255),
                        Depth::Depth12 => assert((4095int as u16) as int / 16 == 255),
                        Depth::Depth16 => assert((65535int as u16) as int / 256 == 255),
                    }
                }
                assert(r.data@ =~= narrowed(v));
            }
            r
        },
    }
}

/// The orientation a decode applies: the code given when it is valid, else 1.
pub open spec fn orientation_or_default(o: Option<u32>) -> u32 {
    if o matches Some(c) && 1 <= c <= 8 {
        o->0
    } else {
        1
    }
}

/// The image that a reconstruction gives once narrowed, classified and
/// turned as orientation code `o` says.
pub open spec fn decoded_image(img: Image, v: DecodedView, o: u32) -> bool {
    let n = narrowed(v);
    let base = optimized(n, has_alpha_spec(n));
    if o == 1 {
        image_matches(img, v)
    } else {
        let p = oriented_pixels(base, v.width as int, v.height as int, o);
        &&& (img.width, img.height) == oriented_dims(v.width as usize, v.height as usize, o)
        &&& img.color_space == classify(p)
        &&& img.data@ == optimized(p, has_alpha_spec(p))
    }
}

/// Whether a reconstruction's pixels form a raster that can be reoriented:
/// one pixel per position, sides that fit in 32 bits, bytes that fit in memory.
pub open spec fn fits_raster(v: DecodedView) -> bool {
    &&& v.pixels.len() == v.width * v.height
    &&& v.width <= u32::MAX
    &&& v.height <= u32::MAX
    &&& 4 * v.pixels.len() <= usize::MAX
}

fn orientable_exec(img: &Image) -> (r: bool)
    ensures
        r == orientable(*img),
{
    proof {
        let w = img.width as int;
        let h = img.height as int;
        assert(w * h <= 0xffff_ffff_ffff_ffff * 0xffff_ffff_ffff_ffff) by (nonlinear_arith)
            requires
                0 <= w <= 0xffff_ffff_ffff_ffff,
                0 <= h <= 0xffff_ffff_ffff_ffff,
        ;
    }
    let area: u128 = img.width as u128 * img.height as u128;
    img.data.len() as u128 == area && img.width <= u32::MAX as usize && img.height <= u32::MAX as usize
        && img.data.len() <= usize::MAX / 4
}

/// Builds the canonical image of a decoded colour item, an optional alpha
/// item and an optional Exif orientation code (invalid codes count as 1).
/// Codes of more than eight bits are narrowed to their top eight bits.
pub fn decode(color: &Frame, alpha: &Option<Frame>, orientation: Option<u32>) -> (r: Result<Image, Error>)
    ensures
        convert_error(*color, *alpha) matches Some(e) ==> r == Err::<Image, Error>(e),
        r matches Err(e) ==> convert_error(*color, *alpha) == Some(e) || (convert_error(*color, *alpha) is None
            && e == Error::Unsupported(Unsupported::TooLarge)),
        r == Err::<Image, Error>(Error::Unsupported(Unsupported::TooLarge)) && convert_error(*color, *alpha) is None
            ==> orientation_or_default(orientation) != 1 && !fits_raster(reconstruction(*color, *alpha)),
        r matches Ok(img) ==> convert_error(*color, *alpha) is None && decoded_image(
            img,
            reconstruction(*color, *alpha),
            orientation_or_default(orientation),
        ),
{
    let d = convert(color, alpha)?;
    let image = to_image(d);
    let o = match valid_orientation(orientation) {
        Some(c) => c,
        None => 1,
    };
    if o == 1 {
        return Ok(image);
    }
    if !orientable_exec(&image) {
        return Err(Error::Unsupported(Unsupported::TooLarge));
    }
    Ok(orient_image(image, o))
}

} // verus!
