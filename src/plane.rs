use vstd::prelude::*;
use crate::chroma::lemma_row_col;
use crate::color::{Depth, MatrixCoefficients, Range};
use crate::error::{Error, Unsupported};

verus! {

/// What a plane holds, as a mathematical value.
pub ghost struct PlaneView {
    pub width: nat,
    pub height: nat,
    pub samples: Seq<u16>,
}

impl PlaneView {
    pub open spec fn wf(&self) -> bool {
        self.samples.len() == self.width * self.height
    }
}

/// One plane copied out of a decoded frame: `width * height` samples, row by row.
#[derive(Clone, Debug)]
pub struct Plane {
    pub width: usize,
    pub height: usize,
    pub samples: Vec<u16>,
}

impl View for Plane {
    type V = PlaneView;

    open spec fn view(&self) -> PlaneView {
        PlaneView { width: self.width as nat, height: self.height as nat, samples: self.samples@ }
    }
}

/// One plane as the decoder stores it: row `r` starts at byte `start + r * stride`,
/// where the stride may be negative for bottom-up storage.
#[derive(Clone, Debug)]
pub struct PlaneBuffer {
    pub bytes: Vec<u8>,
    pub start: usize,
    pub stride: isize,
    pub width: usize,
    pub height: usize,
}

/// A decoded frame as the decoder describes it, with its numeric tags.
#[derive(Clone, Debug)]
pub struct Frame {
    pub fmt: u32,
    pub monochrome: bool,
    pub bit_depth: u32,
    pub matrix: u32,
    pub range: u32,
    pub planes: Vec<PlaneBuffer>,
}

/// How the chroma planes are laid out relative to luma.
#[derive(Clone, Copy, Debug, PartialEq, Eq, Structural)]
pub enum ChromaSampling {
    Monochrome,
    Cs420,
    Cs422,
    Cs444,
}

/// The planes of a frame, copied out of it.
#[derive(Clone, Debug)]
pub enum Planes {
    Mono(Plane, Depth),
    Yuv { y: Plane, u: Plane, v: Plane, chroma_sampling: ChromaSampling, depth: Depth },
}

/// Plane format tags of the decoder: a layout number with flag bits.
pub const FMT_PLANAR: u32 = 0x100;
pub const FMT_UV_FLIP: u32 = 0x200;
pub const FMT_HIGHBITDEPTH: u32 = 0x800;
pub const FMT_YV12: u32 = FMT_PLANAR | FMT_UV_FLIP | 1;
pub const FMT_I420: u32 = FMT_PLANAR | 2;
pub const FMT_AOMYV12: u32 = FMT_PLANAR | FMT_UV_FLIP | 3;
pub const FMT_AOMI420: u32 = FMT_PLANAR | 4;
pub const FMT_I422: u32 = FMT_PLANAR | 5;
pub const FMT_I444: u32 = FMT_PLANAR | 6;
pub const FMT_I42016: u32 = FMT_I420 | FMT_HIGHBITDEPTH;
pub const FMT_YV1216: u32 = FMT_YV12 | FMT_HIGHBITDEPTH;
pub const FMT_I42216: u32 = FMT_I422 | FMT_HIGHBITDEPTH;
pub const FMT_I44416: u32 = FMT_I444 | FMT_HIGHBITDEPTH;

/// The range tag of limited (studio) range; any other tag is full range.
pub const RANGE_STUDIO: u32 = 0;

pub open spec fn sampling_of(f: Frame) -> Option<ChromaSampling> {
    if f.monochrome {
        Some(ChromaSampling::Monochrome)
    } else if f.fmt == FMT_YV12 || f.fmt == FMT_I420 || f.fmt == FMT_AOMYV12 || f.fmt == FMT_AOMI420
        || f.fmt == FMT_I42016 || f.fmt == FMT_YV1216 {
        Some(ChromaSampling::Cs420)
    } else if f.fmt == FMT_I422 || f.fmt == FMT_I42216 {
        Some(ChromaSampling::Cs422)
    } else if f.fmt == FMT_I444 || f.fmt == FMT_I44416 {
        Some(ChromaSampling::Cs444)
    } else {
        None
    }
}

pub open spec fn depth_of(bits: u32) -> Option<Depth> {
    if bits == 8 {
        Some(Depth::Depth8)
    } else if bits == 10 {
        Some(Depth::Depth10)
    } else if bits == 12 {
        Some(Depth::Depth12)
    } else if bits == 16 {
        Some(Depth::Depth16)
    } else {
        None
    }
}

/// The matrix named by a coefficient code; unspecified and reserved codes name none.
pub open spec fn matrix_of(code: u32) -> Option<MatrixCoefficients> {
    if code == 0 {
        Some(MatrixCoefficients::Identity)
    } else if code == 1 {
        Some(MatrixCoefficients::BT709)
    } else if code == 4 {
        Some(MatrixCoefficients::FCC)
    } else if code == 5 {
        Some(MatrixCoefficients::BT470BG)
    } else if code == 6 {
        Some(MatrixCoefficients::BT601)
    } else if code == 7 {
        Some(MatrixCoefficients::SMPTE240)
    } else if code == 8 {
        Some(MatrixCoefficients::YCgCo)
    } else if code == 9 || code == 10 {
        Some(MatrixCoefficients::BT2020NCL)
    } else if code == 11 {
        Some(MatrixCoefficients::SMPTE2085)
    } else if code == 12 {
        Some(MatrixCoefficients::ChromatNCL)
    } else if code == 13 {
        Some(MatrixCoefficients::ChromatCL)
    } else if code == 14 {
        Some(MatrixCoefficients::ICtCp)
    } else {
        None
    }
}

pub open spec fn range_of(code: u32) -> Range {
    if code == RANGE_STUDIO {
        Range::Limited
    } else {
        Range::Full
    }
}

/// Formats that store V before U.
pub open spec fn uv_swapped(f: Frame) -> bool {
    f.fmt == FMT_YV12 || f.fmt == FMT_AOMYV12 || f.fmt == FMT_YV1216
}

pub open spec fn row_start(p: PlaneBuffer, r: int) -> int {
    p.start + r * p.stride
}

pub open spec fn abs(x: int) -> int {
    if x < 0 {
        -x
    } else {
        x
    }
}

/// Every row of `sb`-byte samples lies inside the buffer, and rows are at
/// least a row's width apart.
pub open spec fn readable(p: PlaneBuffer, sb: int) -> bool {
    &&& abs(p.stride as int) * sb >= p.width
    &&& forall|r: int|
        0 <= r < p.height ==> 0 <= #[trigger] row_start(p, r) && row_start(p, r) + p.width * sb
            <= p.bytes@.len()
}

/// The sample at row `r`, column `c`; a two-byte sample is little-endian.
pub open spec fn raw_sample(p: PlaneBuffer, sb: int, r: int, c: int) -> u16 {
    let at = row_start(p, r) + c * sb;
    if sb == 1 {
        p.bytes@[at] as u16
    } else {
        (p.bytes@[at] + 256 * p.bytes@[at + 1]) as u16
    }
}

/// The plane copied out of a buffer of `sb`-byte samples.
pub open spec fn plane_view_of(p: PlaneBuffer, sb: int) -> PlaneView {
    PlaneView {
        width: p.width as nat,
        height: p.height as nat,
        samples: Seq::new(
            (p.width * p.height) as nat,
            |i: int| raw_sample(p, sb, i / p.width as int, i % p.width as int),
        ),
    }
}

pub open spec fn sample_bytes(d: Depth) -> int {
    if d == Depth::Depth8 {
        1
    } else {
        2
    }
}

pub open spec fn frame_depth(f: Frame) -> Option<Depth> {
    depth_of(f.bit_depth)
}

/// Whether the planes a frame's layout needs are present and readable.
pub open spec fn frame_readable(f: Frame, cs: ChromaSampling, d: Depth) -> bool {
    let n = if cs == ChromaSampling::Monochrome { 1int } else { 3int };
    &&& f.planes@.len() >= n
    &&& forall|i: int| 0 <= i < n ==> readable(#[trigger] f.planes@[i], sample_bytes(d))
}

/// What reading the planes of a frame gives: its layout and depth, or the reason
/// it cannot be read.
pub open spec fn planes_error(f: Frame) -> Option<Unsupported> {
    if sampling_of(f) is None {
        Some(Unsupported::UnknownFormat)
    } else if frame_depth(f) is None {
        Some(Unsupported::BadDepth)
    } else if !frame_readable(f, sampling_of(f)->0, frame_depth(f)->0) {
        Some(Unsupported::BadPlane)
    } else {
        None
    }
}

/// The planes read from a frame match the frame: plane `i` of the result is
/// plane `i` of the frame, U and V exchanged where the format stores V first.
pub open spec fn planes_match(f: Frame, p: Planes) -> bool {
    let cs = sampling_of(f)->0;
    let d = frame_depth(f)->0;
    let sb = sample_bytes(d);
    match p {
        Planes::Mono(y, pd) => {
            &&& cs == ChromaSampling::Monochrome
            &&& pd == d
            &&& y@ == plane_view_of(f.planes@[0], sb)
        },
        Planes::Yuv { y, u, v, chroma_sampling, depth } => {
            let (ui, vi) = if uv_swapped(f) { (2int, 1int) } else { (1int, 2int) };
            &&& cs != ChromaSampling::Monochrome
            &&& chroma_sampling == cs
            &&& depth == d
            &&& y@ == plane_view_of(f.planes@[0], sb)
            &&& u@ == plane_view_of(f.planes@[ui], sb)
            &&& v@ == plane_view_of(f.planes@[vi], sb)
        },
    }
}

impl Frame {
    /// The chroma layout, from the format tag and the monochrome flag.
    pub fn chroma_sampling(&self) -> (r: Result<ChromaSampling, Error>)
        ensures
            r == match sampling_of(*self) {
                Some(cs) => Ok(cs),
                None => Err(Error::Unsupported(Unsupported::UnknownFormat)),
            },
    {
        if self.monochrome {
            return Ok(ChromaSampling::Monochrome);
        }
        let f = self.fmt;
        if f == FMT_YV12 || f == FMT_I420 || f == FMT_AOMYV12 || f == FMT_AOMI420 || f == FMT_I42016
            || f == FMT_YV1216 {
            Ok(ChromaSampling::Cs420)
        } else if f == FMT_I422 || f == FMT_I42216 {
            Ok(ChromaSampling::Cs422)
        } else if f == FMT_I444 || f == FMT_I44416 {
            Ok(ChromaSampling::Cs444)
        } else {
            Err(Error::Unsupported(Unsupported::UnknownFormat))
        }
    }

    /// The sample depth.
    pub fn depth(&self) -> (r: Result<Depth, Error>)
        ensures
            r == match depth_of(self.bit_depth) {
                Some(d) => Ok(d),
                None => Err(Error::Unsupported(Unsupported::BadDepth)),
            },
    {
        match self.bit_depth {
            8 => Ok(Depth::Depth8),
            10 => Ok(Depth::Depth10),
            12 => Ok(Depth::Depth12),
            16 => Ok(Depth::Depth16),
            _ => Err(Error::Unsupported(Unsupported::BadDepth)),
        }
    }

    /// The declared matrix coefficients, if the code names one.
    pub fn matrix_coefficients(&self) -> (r: Option<MatrixCoefficients>)
        ensures
            r == matrix_of(self.matrix),
    {
        match self.matrix {
            0 => Some(MatrixCoefficients::Identity),
            1 => Some(MatrixCoefficients::BT709),
            4 => Some(MatrixCoefficients::FCC),
            5 => Some(MatrixCoefficients::BT470BG),
            6 => Some(MatrixCoefficients::BT601),
            7 => Some(MatrixCoefficients::SMPTE240),
            8 => Some(MatrixCoefficients::YCgCo),
            9 | 10 => Some(MatrixCoefficients::BT2020NCL),
            11 => Some(MatrixCoefficients::SMPTE2085),
            12 => Some(MatrixCoefficients::ChromatNCL),
            13 => Some(MatrixCoefficients::ChromatCL),
            14 => Some(MatrixCoefficients::ICtCp),
            _ => None,
        }
    }

    /// Whether samples use the limited or the full range.
    pub fn range(&self) -> (r: Range)
        ensures
            r == range_of(self.range),
    {
        if self.range == RANGE_STUDIO {
            Range::Limited
        } else {
            Range::Full
        }
    }

    /// Copies the planes out of the frame, with U and V in their usual order.
    pub fn rows_iter(&self) -> (r: Result<Planes, Error>)
        ensures
            match r {
                Ok(p) => planes_error(*self) is None && planes_match(*self, p),
                Err(e) => planes_error(*self) matches Some(u) && e == Error::Unsupported(u),
            },
    {
        let cs = self.chroma_sampling()?;
        let depth = self.depth()?;
        let sb: usize = if let Depth::Depth8 = depth { 1 } else { 2 };
        let n: usize = if let ChromaSampling::Monochrome = cs { 1 } else { 3 };
        if self.planes.len() < n {
            return Err(Error::Unsupported(Unsupported::BadPlane));
        }
        let y = match read_plane(&self.planes[0], sb) {
            Some(p) => p,
            None => return Err(Error::Unsupported(Unsupported::BadPlane)),
        };
        if n == 1 {
            return Ok(Planes::Mono(y, depth));
        }
        let p1 = match read_plane(&self.planes[1], sb) {
            Some(p) => p,
            None => return Err(Error::Unsupported(Unsupported::BadPlane)),
        };
        let p2 = match read_plane(&self.planes[2], sb) {
            Some(p) => p,
            None => return Err(Error::Unsupported(Unsupported::BadPlane)),
        };
        proof {
            assert forall|i: int| 0 <= i < n implies readable(#[trigger] self.planes@[i], sample_bytes(depth)) by {
                if i == 0 {} else if i == 1 {} else {}
            }
        }
        let swapped = self.fmt == FMT_YV12 || self.fmt == FMT_AOMYV12 || self.fmt == FMT_YV1216;
        let (u, v) = if swapped { (p2, p1) } else { (p1, p2) };
        Ok(Planes::Yuv { y, u, v, chroma_sampling: cs, depth })
    }
}

/// Copies a plane of `sb`-byte samples out of its buffer; `None` when a row
/// would fall outside the buffer or rows are closer than a row's width.
pub fn read_plane(p: &PlaneBuffer, sb: usize) -> (r: Option<Plane>)
    requires
        sb == 1 || sb == 2,
    ensures
        r is Some <==> readable(*p, sb as int),
        r matches Some(pl) ==> pl@ == plane_view_of(*p, sb as int) && pl@.wf(),
{
    let w = p.width;
    let h = p.height;
    let len = p.bytes.len();
    let stride = p.stride as i128;
    let abs_stride: i128 = if stride < 0 { -stride } else { stride };
    assert(abs_stride <= 0x8000_0000_0000_0000);
    let row_bytes: i128 = if sb == 1 { abs_stride } else { 2 * abs_stride };
    assert(row_bytes == abs_stride * sb);
    if row_bytes < w as i128 {
        return None;
    }
    let mut out: Vec<u16> = Vec::new();
    let mut pos: i128 = p.start as i128;
    let mut row: usize = 0;
    while row < h
        invariant
            sb == 1 || sb == 2,
            w == p.width,
            h == p.height,
            len == p.bytes@.len(),
            stride == p.stride,
            row <= h,
            pos == row_start(*p, row as int),
            -0x1_0000_0000_0000_0000_0000 < pos < 0x1_0000_0000_0000_0000_0000,
            -0x8000_0000_0000_0000 <= stride < 0x8000_0000_0000_0000,
            forall|r: int| 0 <= r < row ==> 0 <= #[trigger] row_start(*p, r) && row_start(*p, r) + p.width * sb <= len,
            out@.len() == row * w,
            forall|i: int| 0 <= i < out@.len() ==> #[trigger] out@[i] == raw_sample(*p, sb as int, i / w as int, i % w as int),
        decreases h - row,
    {
        if pos < 0 || pos + (w as i128) * (sb as i128) > len as i128 {
            assert(!(0 <= row_start(*p, row as int) && row_start(*p, row as int) + p.width * sb <= len));
            return None;
        }
        let base = pos as usize;
        let mut col: usize = 0;
        while col < w
            invariant
                sb == 1 || sb == 2,
                w == p.width,
                h == p.height,
                len == p.bytes@.len(),
                row < h,
                col <= w,
                base == row_start(*p, row as int),
                base + w * sb <= len,
                out@.len() == row * w + col,
                forall|i: int| 0 <= i < out@.len() ==> #[trigger] out@[i] == raw_sample(*p, sb as int, i / w as int, i % w as int),
            decreases w - col,
        {
            proof {
                lemma_row_col(row as int, col as int, w as int);
            }
            let s: u16 = if sb == 1 {
                p.bytes[base + col] as u16
            } else {
                let at = base + 2 * col;
                p.bytes[at] as u16 + 256 * (p.bytes[at + 1] as u16)
            };
            out.push(s);
            col = col + 1;
        }
        proof {
            assert(out@.len() == (row + 1) * w) by (nonlinear_arith)
                requires
                    out@.len() == row * w + w,
            ;
            assert(row_start(*p, row + 1) == row_start(*p, row as int) + p.stride) by (nonlinear_arith);
        }
        row = row + 1;
        pos = pos + stride;
    }
    proof {
        assert(out@.len() == w * h) by (nonlinear_arith)
            requires
                out@.len() == h * w,
        ;
        assert(out@ =~= plane_view_of(*p, sb as int).samples);
    }
    Some(Plane { width: w, height: h, samples: out })
}

} // verus!
