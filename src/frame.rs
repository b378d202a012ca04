use vstd::prelude::*;
use crate::chroma::{planes_fit, triplets, yuv_420, yuv_422, yuv_444};
use crate::color::{
    converter_of, depth_max, depth_scale, Depth, MatrixCoefficients, RGBConvert, Rgb16, Rgba16, Yuv,
};
use crate::error::{Error, Unsupported};
use crate::image::{Rgb8, Rgba8};
use crate::plane::{
    frame_depth, matrix_of, plane_view_of, planes_error, range_of, sample_bytes, sampling_of,
    uv_swapped, ChromaSampling, Frame, Plane, PlaneView, Planes,
};

verus! {

/// Which of the six buffer shapes a reconstruction produced.
#[derive(Clone, Copy, Debug, PartialEq, Eq, Structural)]
pub enum Kind {
    RGB8,
    RGBA8,
    RGB16,
    RGBA16,
    Gray8,
    Gray16,
}

/// A reconstructed frame: one of six pixel buffers. The 16-bit shapes hold
/// codes of the frame's depth.
#[derive(Clone, Debug)]
pub enum Decoded {
    RGB8 { width: usize, height: usize, pixels: Vec<Rgb8> },
    RGBA8 { width: usize, height: usize, pixels: Vec<Rgba8> },
    RGB16 { width: usize, height: usize, depth: Depth, pixels: Vec<Rgb16> },
    RGBA16 { width: usize, height: usize, depth: Depth, pixels: Vec<Rgba16> },
    Gray8 { width: usize, height: usize, pixels: Vec<u8> },
    Gray16 { width: usize, height: usize, depth: Depth, pixels: Vec<u16> },
}

/// A reconstructed frame as a value: every shape seen as RGBA codes, with
/// gray copied into R, G and B and a missing alpha at the depth's maximum.
pub ghost struct DecodedView {
    pub kind: Kind,
    pub width: nat,
    pub height: nat,
    pub depth: Depth,
    pub pixels: Seq<Rgba16>,
}

pub open spec fn rgba16(r: u16, g: u16, b: u16, a: u16) -> Rgba16 {
    Rgba16 { r, g, b, a }
}

pub open spec fn with_alpha(p: Rgb16, a: u16) -> Rgba16 {
    Rgba16 { r: p.r, g: p.g, b: p.b, a }
}

pub open spec fn gray16(v: u16) -> Rgb16 {
    Rgb16 { r: v, g: v, b: v }
}

impl View for Decoded {
    type V = DecodedView;

    open spec fn view(&self) -> DecodedView {
        match self {
            Decoded::RGB8 { width, height, pixels } => DecodedView {
                kind: Kind::RGB8,
                width: *width as nat,
                height: *height as nat,
                depth: Depth::Depth8,
                pixels: pixels@.map_values(|p: Rgb8| rgba16(p.r as u16, p.g as u16, p.b as u16, 255)),
            },
            Decoded::RGBA8 { width, height, pixels } => DecodedView {
                kind: Kind::RGBA8,
                width: *width as nat,
                height: *height as nat,
                depth: Depth::Depth8,
                pixels: pixels@.map_values(
                    |p: Rgba8| rgba16(p.r as u16, p.g as u16, p.b as u16, p.a as u16),
                ),
            },
            Decoded::RGB16 { width, height, depth, pixels } => DecodedView {
                kind: Kind::RGB16,
                width: *width as nat,
                height: *height as nat,
                depth: *depth,
                pixels: pixels@.map_values(|p: Rgb16| with_alpha(p, depth_max(*depth) as u16)),
            },
            Decoded::RGBA16 { width, height, depth, pixels } => DecodedView {
                kind: Kind::RGBA16,
                width: *width as nat,
                height: *height as nat,
                depth: *depth,
                pixels: pixels@,
            },
            Decoded::Gray8 { width, height, pixels } => DecodedView {
                kind: Kind::Gray8,
                width: *width as nat,
                height: *height as nat,
                depth: Depth::Depth8,
                pixels: pixels@.map_values(|v: u8| rgba16(v as u16, v as u16, v as u16, 255)),
            },
            Decoded::Gray16 { width, height, depth, pixels } => DecodedView {
                kind: Kind::Gray16,
                width: *width as nat,
                height: *height as nat,
                depth: *depth,
                pixels: pixels@.map_values(|v: u16| rgba16(v, v, v, depth_max(*depth) as u16)),
            },
        }
    }
}

/// The shape for a depth, for gray or colour pixels, with or without alpha:
/// gray with alpha is stored as RGBA.
pub open spec fn kind_of(d: Depth, gray: bool, alpha: bool) -> Kind {
    if d == Depth::Depth8 {
        if alpha {
            Kind::RGBA8
        } else if gray {
            Kind::Gray8
        } else {
            Kind::RGB8
        }
    } else {
        if alpha {
            Kind::RGBA16
        } else if gray {
            Kind::Gray16
        } else {
            Kind::RGB16
        }
    }
}

pub open spec fn within(p: Rgb16, max: int) -> bool {
    p.r <= max && p.g <= max && p.b <= max
}

/// Stores pixels in the shape that the depth, grayness and alpha select; alpha
/// starts at zero, to be filled in from the alpha item.
pub fn shape(px: Vec<Rgb16>, width: usize, height: usize, depth: Depth, gray: bool, alpha: bool) -> (r: Decoded)
    requires
        forall|i: int| 0 <= i < px@.len() ==> within(#[trigger] px@[i], depth_max(depth)),
        gray ==> forall|i: int| 0 <= i < px@.len() ==> (#[trigger] px@[i]).r == px@[i].g && px@[i].g == px@[i].b,
    ensures
        r@ == (DecodedView {
            kind: kind_of(depth, gray, alpha),
            width: width as nat,
            height: height as nat,
            depth,
            pixels: px@.map_values(|p: Rgb16| with_alpha(p, if alpha { 0 } else { depth_max(depth) as u16 })),
        }),
{
    let eight = match depth {
        Depth::Depth8 => true,
        _ => false,
    };
    let ghost want = px@.map_values(|p: Rgb16| with_alpha(p, if alpha { 0 } else { depth_max(depth) as u16 }));
    let n = px.len();
    let mut i: usize = 0;
    if eight && alpha {
        let mut out: Vec<Rgba8> = Vec::with_capacity(n);
        while i < n
            invariant
                n == px@.len(),
                i <= n,
                want == px@.map_values(|p: Rgb16| with_alpha(p, if alpha { 0 } else { depth_max(depth) as u16 })),
                eight == (depth == Depth::Depth8),
                eight,
                alpha,
                forall|k: int| 0 <= k < px@.len() ==> within(#[trigger] px@[k], depth_max(depth)),
                out@.len() == i,
                forall|k: int| 0 <= k < i ==> rgba16((#[trigger] out@[k]).r as u16, out@[k].g as u16, out@[k].b as u16, out@[k].a as u16) == want[k],
            decreases n - i,
        {
            let p = px[i];
            out.push(Rgba8 { r: p.r as u8, g: p.g as u8, b: p.b as u8, a: 0 });
            i = i + 1;
        }
        let r = Decoded::RGBA8 { width, height, pixels: out };
        assert(r@.pixels =~= want);
        r
    } else if eight && gray {
        let mut out: Vec<u8> = Vec::with_capacity(n);
        while i < n
            invariant
                n == px@.len(),
                i <= n,
                want == px@.map_values(|p: Rgb16| with_alpha(p, if alpha { 0 } else { depth_max(depth) as u16 })),
                eight == (depth == Depth::Depth8),
                eight,
                gray,
                !alpha,
                forall|k: int| 0 <= k < px@.len() ==> within(#[trigger] px@[k], depth_max(depth)),
                forall|k: int| 0 <= k < px@.len() ==> (#[trigger] px@[k]).r == px@[k].g && px@[k].g == px@[k].b,
                out@.len() == i,
                forall|k: int| 0 <= k < i ==> rgba16(#[trigger] out@[k] as u16, out@[k] as u16, out@[k] as u16, 255) == want[k],
            decreases n - i,
        {
            out.push(px[i].g as u8);
            i = i + 1;
        }
        let r = Decoded::Gray8 { width, height, pixels: out };
        assert(r@.pixels =~= want);
        r
    } else if eight {
        let mut out: Vec<Rgb8> = Vec::with_capacity(n);
        while i < n
            invariant
                n == px@.len(),
                i <= n,
                want == px@.map_values(|p: Rgb16| with_alpha(p, if alpha { 0 } else { depth_max(depth) as u16 })),
                eight == (depth == Depth::Depth8),
                eight,
                !alpha,
                forall|k: int| 0 <= k < px@.len() ==> within(#[trigger] px@[k], depth_max(depth)),
                out@.len() == i,
                forall|k: int| 0 <= k < i ==> rgba16((#[trigger] out@[k]).r as u16, out@[k].g as u16, out@[k].b as u16, 255) == want[k],
            decreases n - i,
        {
            let p = px[i];
            out.push(Rgb8 { r: p.r as u8, g: p.g as u8, b: p.b as u8 });
            i = i + 1;
        }
        let r = Decoded::RGB8 { width, height, pixels: out };
        assert(r@.pixels =~= want);
        r
    } else if alpha {
        let mut out: Vec<Rgba16> = Vec::with_capacity(n);
        while i < n
            invariant
                n == px@.len(),
                i <= n,
                want == px@.map_values(|p: Rgb16| with_alpha(p, if alpha { 0 } else { depth_max(depth) as u16 })),
                alpha,
                out@.len() == i,
                forall|k: int| 0 <= k < i ==> #[trigger] out@[k] == want[k],
            decreases n - i,
        {
            let p = px[i];
            out.push(Rgba16 { r: p.r, g: p.g, b: p.b, a: 0 });
            i = i + 1;
        }
        let r = Decoded::RGBA16 { width, height, depth, pixels: out };
        assert(r@.pixels =~= want);
        r
    } else if gray {
        let mut out: Vec<u16> = Vec::with_capacity(n);
        while i < n
            invariant
                n == px@.len(),
                i <= n,
                want == px@.map_values(|p: Rgb16| with_alpha(p, if alpha { 0 } else { depth_max(depth) as u16 })),
                gray,
                !alpha,
                forall|k: int| 0 <= k < px@.len() ==> (#[trigger] px@[k]).r == px@[k].g && px@[k].g == px@[k].b,
                out@.len() == i,
                forall|k: int| 0 <= k < i ==> rgba16(#[trigger] out@[k], out@[k], out@[k], depth_max(depth) as u16) == want[k],
            decreases n - i,
        {
            out.push(px[i].g);
            i = i + 1;
        }
        let r = Decoded::Gray16 { width, height, depth, pixels: out };
        assert(r@.pixels =~= want);
        r
    } else {
        let r = Decoded::RGB16 { width, height, depth, pixels: px };
        assert(r@.pixels =~= want);
        r
    }
}

/// Converts every triplet to RGB.
pub fn yuv_to_rgb(conv: &RGBConvert, px: &Vec<Yuv>) -> (r: Vec<Rgb16>)
    requires
        conv.wf(),
    ensures
        r@ == px@.map_values(|t: Yuv| conv.rgb_spec(t)),
        forall|i: int| 0 <= i < r@.len() ==> within(#[trigger] r@[i], conv.levels().max as int),
{
    let n = px.len();
    let mut out: Vec<Rgb16> = Vec::with_capacity(n);
    let mut i: usize = 0;
    while i < n
        invariant
            conv.wf(),
            n == px@.len(),
            i <= n,
            out@.len() == i,
            forall|k: int| 0 <= k < i ==> #[trigger] out@[k] == conv.rgb_spec(px@[k]),
            forall|k: int| 0 <= k < i ==> within(#[trigger] out@[k], conv.levels().max as int),
        decreases n - i,
    {
        out.push(conv.to_rgb(px[i]));
        i = i + 1;
    }
    assert(out@ =~= px@.map_values(|t: Yuv| conv.rgb_spec(t)));
    out
}

/// Converts every Y code to luma.
pub fn yuv_to_luma(conv: &RGBConvert, samples: &Vec<u16>) -> (r: Vec<u16>)
    requires
        conv.wf(),
    ensures
        r@ == samples@.map_values(|s: u16| conv.luma_spec(s as int) as u16),
        forall|i: int| 0 <= i < r@.len() ==> #[trigger] r@[i] <= conv.levels().max,
{
    let n = samples.len();
    let mut out: Vec<u16> = Vec::with_capacity(n);
    let mut i: usize = 0;
    while i < n
        invariant
            conv.wf(),
            n == samples@.len(),
            i <= n,
            out@.len() == i,
            forall|k: int| 0 <= k < i ==> #[trigger] out@[k] == conv.luma_spec(samples@[k] as int) as u16,
            forall|k: int| 0 <= k < i ==> #[trigger] out@[k] <= conv.levels().max,
        decreases n - i,
    {
        out.push(conv.to_luma(samples[i]));
        i = i + 1;
    }
    assert(out@ =~= samples@.map_values(|s: u16| conv.luma_spec(s as int) as u16));
    out
}

/// Gray values as RGB pixels with equal channels.
pub fn gray_to_rgb(v: &Vec<u16>) -> (r: Vec<Rgb16>)
    ensures
        r@ == v@.map_values(|g: u16| gray16(g)),
{
    let n = v.len();
    let mut out: Vec<Rgb16> = Vec::with_capacity(n);
    let mut i: usize = 0;
    while i < n
        invariant
            n == v@.len(),
            i <= n,
            out@.len() == i,
            forall|k: int| 0 <= k < i ==> #[trigger] out@[k] == gray16(v@[k]),
        decreases n - i,
    {
        let g = v[i];
        out.push(Rgb16 { r: g, g, b: g });
        i = i + 1;
    }
    assert(out@ =~= v@.map_values(|g: u16| gray16(g)));
    out
}

/// An alpha code of depth `da` stored in a buffer of the given shape and depth:
/// the top eight bits for an 8-bit buffer, the code itself at equal depths,
/// and otherwise the top eight bits widened by repeating them.
pub open spec fn alpha_code(a: u16, da: Depth, kind: Kind, dc: Depth) -> u16 {
    let a8 = a as int / depth_scale(da);
    if kind == Kind::RGBA8 {
        a8 as u16
    } else if da == dc {
        a
    } else {
        (a8 * depth_scale(dc) + a8 * depth_scale(dc) / 256) as u16
    }
}

pub open spec fn set_alpha(p: Rgba16, a: u16) -> Rgba16 {
    Rgba16 { r: p.r, g: p.g, b: p.b, a }
}

/// The view with each pixel's alpha taken from `alpha`.
pub open spec fn place_alpha(v: DecodedView, alpha: Seq<u16>, da: Depth) -> DecodedView {
    DecodedView {
        pixels: Seq::new(
            v.pixels.len(),
            |i: int| set_alpha(v.pixels[i], alpha_code(alpha[i], da, v.kind, v.depth)),
        ),
        ..v
    }
}

fn alpha_code_exec(a: u16, da: Depth, eight: bool, dc: Depth) -> (r: u16)
    requires
        a <= depth_max(da),
    ensures
        r == alpha_code(a, da, if eight { Kind::RGBA8 } else { Kind::RGBA16 }, dc),
        eight ==> r <= 255,
{
    let sa: u16 = match da {
        Depth::Depth8 => 1,
        Depth::Depth10 => 4,
        Depth::Depth12 => 16,
        Depth::Depth16 => 256,
    };
    let a8 = a / sa;
    assert(a8 <= 255) by (nonlinear_arith)
        requires
            a8 == a / sa,
            a <= 256 * sa - 1,
            sa >= 1,
    ;
    if eight {
        a8
    } else if da == dc {
        a
    } else {
        let sc: u16 = match dc {
            Depth::Depth8 => 1,
            Depth::Depth10 => 4,
            Depth::Depth12 => 16,
            Depth::Depth16 => 256,
        };
        assert(a8 * sc <= 65280) by (nonlinear_arith)
            requires
                a8 <= 255,
                sc <= 256,
        ;
        let w = a8 * sc;
        assert(w + w / 256 <= 65535);
        w + w / 256
    }
}

/// Fills in the alpha channel of an RGBA buffer from alpha codes of depth `da`.
pub fn add_alpha(img: Decoded, alpha: &Vec<u16>, da: Depth) -> (r: Decoded)
    requires
        img@.kind == Kind::RGBA8 || img@.kind == Kind::RGBA16,
        alpha@.len() == img@.pixels.len(),
        forall|i: int| 0 <= i < alpha@.len() ==> #[trigger] alpha@[i] <= depth_max(da),
    ensures
        r@ == place_alpha(img@, alpha@, da),
{
    let ghost want = place_alpha(img@, alpha@, da);
    match img {
        Decoded::RGBA8 { width, height, pixels } => {
            let n = pixels.len();
            let mut out: Vec<Rgba8> = Vec::with_capacity(n);
            let mut i: usize = 0;
            while i < n
                invariant
                    n == pixels@.len(),
                    n == alpha@.len(),
                    want == place_alpha(img@, alpha@, da),
                    img == (Decoded::RGBA8 { width, height, pixels }),
                    forall|k: int| 0 <= k < alpha@.len() ==> #[trigger] alpha@[k] <= depth_max(da),
                    i <= n,
                    out@.len() == i,
                    forall|k: int| 0 <= k < i ==> rgba16((#[trigger] out@[k]).r as u16, out@[k].g as u16, out@[k].b as u16, out@[k].a as u16) == want.pixels[k],
                decreases n - i,
            {
                let p = pixels[i];
                let a = alpha_code_exec(alpha[i], da, true, Depth::Depth8);
                out.push(Rgba8 { r: p.r, g: p.g, b: p.b, a: a as u8 });
                i = i + 1;
            }
            let r = Decoded::RGBA8 { width, height, pixels: out };
            assert(r@.pixels =~= want.pixels);
            r
        },
        Decoded::RGBA16 { width, height, depth, pixels } => {
            let n = pixels.len();
            let mut out: Vec<Rgba16> = Vec::with_capacity(n);
            let mut i: usize = 0;
            while i < n
                invariant
                    n == pixels@.len(),
                    n == alpha@.len(),
                    want == place_alpha(img@, alpha@, da),
                    img == (Decoded::RGBA16 { width, height, depth, pixels }),
                    forall|k: int| 0 <= k < alpha@.len() ==> #[trigger] alpha@[k] <= depth_max(da),
                    i <= n,
                    out@.len() == i,
                    forall|k: int| 0 <= k < i ==> #[trigger] out@[k] == want.pixels[k],
                decreases n - i,
            {
                let p = pixels[i];
                let a = alpha_code_exec(alpha[i], da, false, depth);
                out.push(Rgba16 { r: p.r, g: p.g, b: p.b, a });
                i = i + 1;
            }
            let r = Decoded::RGBA16 { width, height, depth, pixels: out };
            assert(r@.pixels =~= want.pixels);
            r
        },
        _ => {
            proof {
                assert(false);
            }
            img
        },
    }
}

pub open spec fn is_mono(f: Frame) -> bool {
    sampling_of(f) == Some(ChromaSampling::Monochrome)
}

/// The matrix a colour item is converted with: its own, or when it names none,
/// Identity for gray and BT.709 for colour.
pub open spec fn color_matrix(f: Frame) -> MatrixCoefficients {
    match matrix_of(f.matrix) {
        Some(m) => m,
        None => if is_mono(f) {
            MatrixCoefficients::Identity
        } else {
            MatrixCoefficients::BT709
        },
    }
}

pub open spec fn color_conv(f: Frame) -> Option<RGBConvert> {
    converter_of(range_of(f.range), color_matrix(f), frame_depth(f)->0)
}

/// The matrix an alpha item is converted with: its own, or Identity.
pub open spec fn alpha_conv(a: Frame) -> Option<RGBConvert> {
    let mc = match matrix_of(a.matrix) {
        Some(m) => m,
        None => MatrixCoefficients::Identity,
    };
    converter_of(range_of(a.range), mc, frame_depth(a)->0)
}

/// Horizontal and vertical chroma subsampling factors.
pub open spec fn factors(cs: ChromaSampling) -> (int, int) {
    match cs {
        ChromaSampling::Cs420 => (2, 2),
        ChromaSampling::Cs422 => (2, 1),
        _ => (1, 1),
    }
}

pub open spec fn luma_view(f: Frame) -> PlaneView {
    plane_view_of(f.planes@[0], sample_bytes(frame_depth(f)->0))
}

pub open spec fn u_view(f: Frame) -> PlaneView {
    plane_view_of(f.planes@[if uv_swapped(f) { 2int } else { 1int }], sample_bytes(frame_depth(f)->0))
}

pub open spec fn v_view(f: Frame) -> PlaneView {
    plane_view_of(f.planes@[if uv_swapped(f) { 1int } else { 2int }], sample_bytes(frame_depth(f)->0))
}

pub open spec fn chroma_fits(f: Frame) -> bool {
    let (sh, sv) = factors(sampling_of(f)->0);
    planes_fit(luma_view(f), u_view(f), v_view(f), sh, sv)
}

/// Why a colour item cannot be reconstructed, if it cannot.
pub open spec fn color_error(f: Frame) -> Option<Error> {
    if planes_error(f) is Some {
        Some(Error::Unsupported(planes_error(f)->0))
    } else if color_conv(f) is None {
        Some(Error::Unsupported(Unsupported::ColorConversion))
    } else if !is_mono(f) && !chroma_fits(f) {
        Some(Error::Unsupported(Unsupported::InvalidChromaSize))
    } else {
        None
    }
}

/// Why an alpha item cannot be put on a colour image of `w` by `h`, if it cannot.
pub open spec fn alpha_error(a: Frame, w: nat, h: nat) -> Option<Error> {
    if planes_error(a) is Some {
        Some(Error::Unsupported(planes_error(a)->0))
    } else if alpha_conv(a) is None {
        Some(Error::Unsupported(Unsupported::ColorConversion))
    } else if alpha_conv(a)->0.is_matrix() {
        Some(Error::Unsupported(Unsupported::AlphaHasColor))
    } else if luma_view(a).width != w || luma_view(a).height != h {
        Some(Error::Unsupported(Unsupported::InvalidAlphaSize))
    } else {
        None
    }
}

pub open spec fn convert_error(color: Frame, alpha: Option<Frame>) -> Option<Error> {
    if color_error(color) is Some {
        color_error(color)
    } else if let Some(a) = alpha {
        alpha_error(a, luma_view(color).width, luma_view(color).height)
    } else {
        None
    }
}

/// The colour item's pixels at the depth of the item.
pub open spec fn color_pixels(f: Frame) -> Seq<Rgb16> {
    let conv = color_conv(f)->0;
    let (sh, sv) = factors(sampling_of(f)->0);
    if is_mono(f) {
        luma_view(f).samples.map_values(|s: u16| conv.luma_spec(s as int) as u16).map_values(
            |g: u16| gray16(g),
        )
    } else {
        triplets(luma_view(f), u_view(f), v_view(f), sh, sv).map_values(|t: Yuv| conv.rgb_spec(t))
    }
}

/// The colour item stored in its buffer shape, alpha zero when an alpha item follows.
pub open spec fn color_view(f: Frame, has_alpha: bool) -> DecodedView {
    let d = frame_depth(f)->0;
    DecodedView {
        kind: kind_of(d, is_mono(f), has_alpha),
        width: luma_view(f).width,
        height: luma_view(f).height,
        depth: d,
        pixels: color_pixels(f).map_values(
            |p: Rgb16| with_alpha(p, if has_alpha { 0 } else { depth_max(d) as u16 }),
        ),
    }
}

pub open spec fn alpha_values(a: Frame) -> Seq<u16> {
    let conv = alpha_conv(a)->0;
    luma_view(a).samples.map_values(|s: u16| conv.luma_spec(s as int) as u16)
}

/// The reconstruction of a colour item and an optional alpha item.
pub open spec fn reconstruction(color: Frame, alpha: Option<Frame>) -> DecodedView {
    match alpha {
        None => color_view(color, false),
        Some(a) => place_alpha(color_view(color, true), alpha_values(a), frame_depth(a)->0),
    }
}

/// Reconstructs an image from a decoded colour item and, if the source has one,
/// a decoded alpha item. The alpha item must carry luma only and match the
/// colour item's size.
pub fn convert(color: &Frame, alpha: &Option<Frame>) -> (r: Result<Decoded, Error>)
    ensures
        match r {
            Ok(d) => convert_error(*color, *alpha) is None && d@ == reconstruction(*color, *alpha),
            Err(e) => convert_error(*color, *alpha) == Some(e),
        },
{
    let has_alpha = alpha.is_some();
    let planes = color.rows_iter()?;
    let range = color.range();
    let mc = color.matrix_coefficients();
    let (img, width, height) = match planes {
        Planes::Mono(y, depth) => {
            let mc = match mc {
                Some(m) => m,
                None => MatrixCoefficients::Identity,
            };
            let conv = match RGBConvert::new(range, mc, depth) {
                Some(c) => c,
                None => return Err(Error::Unsupported(Unsupported::ColorConversion)),
            };
            let luma = yuv_to_luma(&conv, &y.samples);
            let px = gray_to_rgb(&luma);
            proof {
                assert(px@ =~= color_pixels(*color));
            }
            (shape(px, y.width, y.height, depth, true, has_alpha), y.width, y.height)
        },
        Planes::Yuv { y, u, v, chroma_sampling, depth } => {
            let mc = match mc {
                Some(m) => m,
                None => MatrixCoefficients::BT709,
            };
            let conv = match RGBConvert::new(range, mc, depth) {
                Some(c) => c,
                None => return Err(Error::Unsupported(Unsupported::ColorConversion)),
            };
            let (sh, sv): (usize, usize) = match chroma_sampling {
                ChromaSampling::Cs420 => (2, 2),
                ChromaSampling::Cs422 => (2, 1),
                _ => (1, 1),
            };
            if !fits(&y, &u, &v, sh, sv) {
                return Err(Error::Unsupported(Unsupported::InvalidChromaSize));
            }
            let tri = match chroma_sampling {
                ChromaSampling::Cs420 => yuv_420(&y, &u, &v),
                ChromaSampling::Cs422 => yuv_422(&y, &u, &v),
                _ => yuv_444(&y, &u, &v),
            };
            let px = yuv_to_rgb(&conv, &tri);
            (shape(px, y.width, y.height, depth, false, has_alpha), y.width, y.height)
        },
    };
    match alpha {
        None => Ok(img),
        Some(a) => {
            let planes = a.rows_iter()?;
            let (ay, ad) = match planes {
                Planes::Mono(y, d) => (y, d),
                Planes::Yuv { y, depth, .. } => (y, depth),
            };
            let mc = match a.matrix_coefficients() {
                Some(m) => m,
                None => MatrixCoefficients::Identity,
            };
            let conv = match RGBConvert::new(a.range(), mc, ad) {
                Some(c) => c,
                None => return Err(Error::Unsupported(Unsupported::ColorConversion)),
            };
            if conv.is_matrix_conv() {
                return Err(Error::Unsupported(Unsupported::AlphaHasColor));
            }
            if ay.width != width || ay.height != height {
                return Err(Error::Unsupported(Unsupported::InvalidAlphaSize));
            }
            let values = yuv_to_luma(&conv, &ay.samples);
            Ok(add_alpha(img, &values, ad))
        },
    }
}

/// Whether chroma planes cover the luma plane at the given subsampling.
pub fn fits(y: &Plane, u: &Plane, v: &Plane, sh: usize, sv: usize) -> (r: bool)
    requires
        y@.wf(),
        u@.wf(),
        v@.wf(),
        1 <= sh <= 2,
        1 <= sv <= 2,
    ensures
        r == planes_fit(y@, u@, v@, sh as int, sv as int),
{
    let uw: u128 = if sh == 1 { u.width as u128 } else { 2 * (u.width as u128) };
    let vw: u128 = if sh == 1 { v.width as u128 } else { 2 * (v.width as u128) };
    let uh: u128 = if sv == 1 { u.height as u128 } else { 2 * (u.height as u128) };
    let vh: u128 = if sv == 1 { v.height as u128 } else { 2 * (v.height as u128) };
    (y.width as u128) <= uw && (y.width as u128) <= vw && (y.height as u128) <= uh && (y.height as u128) <= vh
}

} // verus!
