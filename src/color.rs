use vstd::prelude::*;

verus! {

/// Sample range: limited ("studio") keeps head- and footroom, full uses every code.
#[derive(Clone, Copy, Debug, PartialEq, Eq, Structural)]
pub enum Range {
    Limited,
    Full,
}

/// Bits per sample.
#[derive(Clone, Copy, Debug, PartialEq, Eq, Structural)]
pub enum Depth {
    Depth8,
    Depth10,
    Depth12,
    Depth16,
}

/// The transform from YUV to RGB that a frame declares.
#[derive(Clone, Copy, Debug, PartialEq, Eq, Structural)]
pub enum MatrixCoefficients {
    Identity,
    BT709,
    FCC,
    BT470BG,
    BT601,
    SMPTE240,
    YCgCo,
    BT2020NCL,
    SMPTE2085,
    ChromatNCL,
    ChromatCL,
    ICtCp,
}

/// A YUV sample triplet; 8-bit samples are held in the low byte.
#[derive(Clone, Copy, Debug, PartialEq, Eq, Structural)]
pub struct Yuv {
    pub y: u16,
    pub u: u16,
    pub v: u16,
}

/// An RGB pixel of up to 16 bits per channel.
#[derive(Clone, Copy, Debug, PartialEq, Eq, Structural)]
pub struct Rgb16 {
    pub r: u16,
    pub g: u16,
    pub b: u16,
}

/// An RGBA pixel of up to 16 bits per channel.
#[derive(Clone, Copy, Debug, PartialEq, Eq, Structural)]
pub struct Rgba16 {
    pub r: u16,
    pub g: u16,
    pub b: u16,
    pub a: u16,
}

/// How input codes map to output codes at one depth and range.
///
/// Luma is `(y - y_off) * y_num / y_den`; chroma is `(c - mid) * c_num / c_den`;
/// results are rounded and clamped to `0..=max`.
#[derive(Clone, Copy, Debug, PartialEq, Eq, Structural)]
pub struct Levels {
    pub max: u32,
    pub mid: u32,
    pub y_off: u32,
    pub y_num: u32,
    pub y_den: u32,
    pub c_num: u32,
    pub c_den: u32,
}

/// The red and blue luma weights of a matrix, in parts per ten thousand.
#[derive(Clone, Copy, Debug, PartialEq, Eq, Structural)]
pub struct Weights {
    pub kr: u32,
    pub kb: u32,
}

/// A conversion from YUV samples to RGB at a fixed depth.
#[derive(Clone, Copy, Debug, PartialEq, Eq, Structural)]
pub enum RGBConvert {
    /// Y already is the gray value; U and V carry no colour.
    Identity(Levels),
    /// A full 3x3 transform given by its luma weights.
    Matrix(Levels, Weights),
}

/// Luma weights are given in parts of this.
pub const WEIGHT_ONE: u32 = 10000;

/// `2^(bits - 8)`: how much wider a code of this depth is than an 8-bit one.
pub open spec fn depth_scale(d: Depth) -> int {
    match d {
        Depth::Depth8 => 1,
        Depth::Depth10 => 4,
        Depth::Depth12 => 16,
        Depth::Depth16 => 256,
    }
}

pub open spec fn depth_max(d: Depth) -> int {
    256 * depth_scale(d) - 1
}

/// Limited range puts black at 16, white at 235 and the chroma extremes 112
/// codes from the middle (scaled with the depth); full range uses codes as they are.
pub open spec fn levels_of(range: Range, d: Depth) -> Levels {
    let s = depth_scale(d);
    let max = depth_max(d);
    match range {
        Range::Full => Levels {
            max: max as u32,
            mid: (128 * s) as u32,
            y_off: 0,
            y_num: 1,
            y_den: 1,
            c_num: 1,
            c_den: 1,
        },
        Range::Limited => Levels {
            max: max as u32,
            mid: (128 * s) as u32,
            y_off: (16 * s) as u32,
            y_num: max as u32,
            y_den: (219 * s) as u32,
            c_num: max as u32,
            c_den: (224 * s) as u32,
        },
    }
}

/// Luma weights of the matrices that have them; the others are not supported.
pub open spec fn weights_of(mc: MatrixCoefficients) -> Option<Weights> {
    match mc {
        MatrixCoefficients::BT709 => Some(Weights { kr: 2126, kb: 722 }),
        MatrixCoefficients::FCC => Some(Weights { kr: 3000, kb: 1100 }),
        MatrixCoefficients::BT470BG => Some(Weights { kr: 2990, kb: 1140 }),
        MatrixCoefficients::BT601 => Some(Weights { kr: 2990, kb: 1140 }),
        MatrixCoefficients::SMPTE240 => Some(Weights { kr: 2120, kb: 870 }),
        MatrixCoefficients::BT2020NCL => Some(Weights { kr: 2627, kb: 593 }),
        _ => None,
    }
}

/// The conversion for a range, matrix and depth, if that combination is supported.
pub open spec fn converter_of(range: Range, mc: MatrixCoefficients, d: Depth) -> Option<RGBConvert> {
    if mc == MatrixCoefficients::Identity {
        Some(RGBConvert::Identity(levels_of(range, d)))
    } else if let Some(w) = weights_of(mc) {
        Some(RGBConvert::Matrix(levels_of(range, d), w))
    } else {
        None
    }
}

pub open spec fn levels_wf(l: Levels) -> bool {
    &&& l.max <= 65535
    &&& l.mid <= 65535
    &&& l.y_off <= 65535
    &&& l.y_num <= 65535
    &&& 1 <= l.y_den <= 65535
    &&& l.c_num <= 65535
    &&& 1 <= l.c_den <= 65535
}

pub open spec fn weights_wf(w: Weights) -> bool {
    &&& 1 <= w.kr
    &&& 1 <= w.kb
    &&& w.kr + w.kb < WEIGHT_ONE
}

pub proof fn lemma_mul_ge_one(a: int, b: int)
    requires
        a >= 1,
        b >= 1,
    ensures
        a * b >= 1,
{
    assert(a * b >= 1) by (nonlinear_arith)
        requires
            a >= 1,
            b >= 1,
    ;
}

/// `n / d` rounded half up and clamped to `0..=max`.
pub open spec fn round_clamp(n: int, d: int, max: int) -> int {
    if n <= 0 {
        0
    } else if (2 * n + d) / (2 * d) > max {
        max
    } else {
        (2 * n + d) / (2 * d)
    }
}

impl RGBConvert {
    pub open spec fn levels(&self) -> Levels {
        match self {
            RGBConvert::Identity(l) => *l,
            RGBConvert::Matrix(l, _) => *l,
        }
    }

    pub open spec fn wf(&self) -> bool {
        match self {
            RGBConvert::Identity(l) => levels_wf(*l),
            RGBConvert::Matrix(l, w) => levels_wf(*l) && weights_wf(*w),
        }
    }

    pub open spec fn is_matrix(&self) -> bool {
        self is Matrix
    }

    /// Luma of a Y code, scaled to the output range.
    pub open spec fn luma_spec(&self, y: int) -> int {
        let l = self.levels();
        round_clamp((y - l.y_off) * l.y_num, l.y_den as int, l.max as int)
    }

    /// The RGB value of a YUV sample.
    pub open spec fn rgb_spec(&self, p: Yuv) -> Rgb16 {
        match self {
            RGBConvert::Identity(_) => {
                let g = self.luma_spec(p.y as int) as u16;
                Rgb16 { r: g, g: g, b: g }
            },
            RGBConvert::Matrix(l, w) => {
                let s = WEIGHT_ONE as int;
                let kr = w.kr as int;
                let kb = w.kb as int;
                let kg = s - kr - kb;
                let yt = (p.y - l.y_off) * l.y_num * l.c_den;
                let ut = (p.u - l.mid) * l.c_num * l.y_den;
                let vt = (p.v - l.mid) * l.c_num * l.y_den;
                let den = l.y_den * l.c_den * s;
                let max = l.max as int;
                Rgb16 {
                    r: round_clamp(yt * s + 2 * (s - kr) * vt, den, max) as u16,
                    g: round_clamp(
                        yt * s * kg - 2 * kb * (s - kb) * ut - 2 * kr * (s - kr) * vt,
                        den * kg,
                        max,
                    ) as u16,
                    b: round_clamp(yt * s + 2 * (s - kb) * ut, den, max) as u16,
                }
            },
        }
    }

    /// Builds the conversion for a range, matrix and depth; matrices without
    /// known luma weights are refused.
    pub fn new(range: Range, mc: MatrixCoefficients, depth: Depth) -> (r: Option<RGBConvert>)
        ensures
            r == converter_of(range, mc, depth),
            r matches Some(c) ==> c.wf() && c.levels().max == depth_max(depth),
    {
        let l = levels(range, depth);
        match mc {
            MatrixCoefficients::Identity => Some(RGBConvert::Identity(l)),
            MatrixCoefficients::BT709 => Some(RGBConvert::Matrix(l, Weights { kr: 2126, kb: 722 })),
            MatrixCoefficients::FCC => Some(RGBConvert::Matrix(l, Weights { kr: 3000, kb: 1100 })),
            MatrixCoefficients::BT470BG => Some(RGBConvert::Matrix(l, Weights { kr: 2990, kb: 1140 })),
            MatrixCoefficients::BT601 => Some(RGBConvert::Matrix(l, Weights { kr: 2990, kb: 1140 })),
            MatrixCoefficients::SMPTE240 => Some(RGBConvert::Matrix(l, Weights { kr: 2120, kb: 870 })),
            MatrixCoefficients::BT2020NCL => Some(RGBConvert::Matrix(l, Weights { kr: 2627, kb: 593 })),
            _ => None,
        }
    }

    /// Whether this is a full colour transform rather than a pass-through of luma.
    pub fn is_matrix_conv(&self) -> (r: bool)
        ensures
            r == self.is_matrix(),
    {
        match self {
            RGBConvert::Matrix(_, _) => true,
            RGBConvert::Identity(_) => false,
        }
    }

    /// The output maximum code.
    pub fn max(&self) -> (r: u32)
        ensures
            r == self.levels().max,
    {
        match self {
            RGBConvert::Identity(l) => l.max,
            RGBConvert::Matrix(l, _) => l.max,
        }
    }

    /// Luma of a Y code, scaled to the output range.
    pub fn to_luma(&self, y: u16) -> (r: u16)
        requires
            self.wf(),
        ensures
            r as int == self.luma_spec(y as int),
            r <= self.levels().max,
    {
        let l = match self {
            RGBConvert::Identity(l) => *l,
            RGBConvert::Matrix(l, _) => *l,
        };
        let yd: i128 = y as i128 - l.y_off as i128;
        proof {
            lemma_mul_bound(yd as int, l.y_num as int, 65536, 65536);
        }
        round_clamp_exec(yd * l.y_num as i128, l.y_den as i128, l.max)
    }

    /// The RGB value of a YUV sample.
    pub fn to_rgb(&self, p: Yuv) -> (r: Rgb16)
        requires
            self.wf(),
        ensures
            r == self.rgb_spec(p),
            r.r <= self.levels().max,
            r.g <= self.levels().max,
            r.b <= self.levels().max,
    {
        match self {
            RGBConvert::Identity(_) => {
                let g = self.to_luma(p.y);
                Rgb16 { r: g, g: g, b: g }
            },
            RGBConvert::Matrix(l, w) => {
                let s: i128 = WEIGHT_ONE as i128;
                let kr: i128 = w.kr as i128;
                let kb: i128 = w.kb as i128;
                let kg: i128 = s - kr - kb;
                let yd: i128 = p.y as i128 - l.y_off as i128;
                let ud: i128 = p.u as i128 - l.mid as i128;
                let vd: i128 = p.v as i128 - l.mid as i128;
                proof {
                    lemma_mul_bound(yd as int, l.y_num as int, 65536, 65536);
                    lemma_mul_bound(ud as int, l.c_num as int, 65536, 65536);
                    lemma_mul_bound(vd as int, l.c_num as int, 65536, 65536);
                }
                let y1: i128 = yd * l.y_num as i128;
                let u1: i128 = ud * l.c_num as i128;
                let v1: i128 = vd * l.c_num as i128;
                proof {
                    lemma_mul_bound(y1 as int, l.c_den as int, 0x1_0000_0000, 65536);
                    lemma_mul_bound(u1 as int, l.y_den as int, 0x1_0000_0000, 65536);
                    lemma_mul_bound(v1 as int, l.y_den as int, 0x1_0000_0000, 65536);
                }
                let yt: i128 = y1 * l.c_den as i128;
                let ut: i128 = u1 * l.y_den as i128;
                let vt: i128 = v1 * l.y_den as i128;
                proof {
                    lemma_mul_bound(yt as int, s as int, 0x1_0000_0000_0000, 10000);
                    lemma_mul_bound(2 * (s - kr) as int, vt as int, 20000, 0x1_0000_0000_0000);
                    lemma_mul_bound(2 * (s - kb) as int, ut as int, 20000, 0x1_0000_0000_0000);
                    lemma_mul_bound(l.y_den as int, l.c_den as int, 65536, 65536);
                    lemma_mul_bound((l.y_den * l.c_den) as int, s as int, 0x1_0000_0000, 10000);
                }
                let ys: i128 = yt * s;
                let rn: i128 = ys + 2 * (s - kr) * vt;
                let bn: i128 = ys + 2 * (s - kb) * ut;
                let den: i128 = l.y_den as i128 * l.c_den as i128 * s;
                proof {
                    lemma_mul_bound(ys as int, kg as int, 2814749767106560000, 10000);
                    lemma_mul_bound(2 * kb as int, (s - kb) as int, 20000, 10000);
                    lemma_mul_bound(2 * kr as int, (s - kr) as int, 20000, 10000);
                    lemma_mul_bound(2 * kb * (s - kb) as int, ut as int, 200000000, 0x1_0000_0000_0000);
                    lemma_mul_bound(2 * kr * (s - kr) as int, vt as int, 200000000, 0x1_0000_0000_0000);
                    lemma_mul_bound(den as int, kg as int, 42949672960000, 10000);
                }
                let gn: i128 = ys * kg - 2 * kb * (s - kb) * ut - 2 * kr * (s - kr) * vt;
                proof {
                    lemma_mul_ge_one(l.y_den as int, l.c_den as int);
                    lemma_mul_ge_one((l.y_den * l.c_den) as int, s as int);
                    lemma_mul_ge_one(den as int, kg as int);
                }
                let gden: i128 = den * kg;
                Rgb16 {
                    r: round_clamp_exec(rn, den, l.max),
                    g: round_clamp_exec(gn, gden, l.max),
                    b: round_clamp_exec(bn, den, l.max),
                }
            },
        }
    }
}

/// The levels for a range and depth.
pub fn levels(range: Range, depth: Depth) -> (r: Levels)
    ensures
        r == levels_of(range, depth),
        levels_wf(r),
        r.max == depth_max(depth),
{
    let (s, max): (u32, u32) = match depth {
        Depth::Depth8 => (1, 255),
        Depth::Depth10 => (4, 1023),
        Depth::Depth12 => (16, 4095),
        Depth::Depth16 => (256, 65535),
    };
    match range {
        Range::Full => Levels { max, mid: 128 * s, y_off: 0, y_num: 1, y_den: 1, c_num: 1, c_den: 1 },
        Range::Limited => Levels {
            max,
            mid: 128 * s,
            y_off: 16 * s,
            y_num: max,
            y_den: 219 * s,
            c_num: max,
            c_den: 224 * s,
        },
    }
}

pub proof fn lemma_mul_bound(a: int, b: int, ba: int, bb: int)
    requires
        -ba <= a <= ba,
        -bb <= b <= bb,
    ensures
        -(ba * bb) <= a * b <= ba * bb,
{
    assert(-(ba * bb) <= a * b <= ba * bb) by (nonlinear_arith)
        requires
            -ba <= a <= ba,
            -bb <= b <= bb,
    ;
}

/// `n / d` rounded half up and clamped to `0..=max`.
fn round_clamp_exec(n: i128, d: i128, max: u32) -> (r: u16)
    requires
        1 <= d < 0x1_0000_0000_0000_0000_0000,
        -0x1_0000_0000_0000_0000_0000_0000 < n < 0x1_0000_0000_0000_0000_0000_0000,
        max <= 65535,
    ensures
        r as int == round_clamp(n as int, d as int, max as int),
        r <= max,
{
    if n <= 0 {
        0
    } else {
        let q: i128 = (2 * n + d) / (2 * d);
        if q > max as i128 {
            max as u16
        } else {
            q as u16
        }
    }
}

} // verus!
