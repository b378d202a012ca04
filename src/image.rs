use vstd::prelude::*;

verus! {

/// An 8-bit RGB pixel.
#[derive(Clone, Copy, Debug, PartialEq, Eq, Structural)]
pub struct Rgb8 {
    pub r: u8,
    pub g: u8,
    pub b: u8,
}

/// An 8-bit RGBA pixel.
#[derive(Clone, Copy, Debug, PartialEq, Eq, Structural)]
pub struct Rgba8 {
    pub r: u8,
    pub g: u8,
    pub b: u8,
    pub a: u8,
}

/// Logical colour model of an image, derived from its pixels.
#[derive(Clone, Copy, Debug, PartialEq, Eq, Structural)]
pub enum ColorSpace {
    Gray,
    GrayAlpha,
    RGB,
    RGBA,
}

/// The in-memory image shared by all codecs: always physically RGBA.
#[derive(Clone, Debug)]
pub struct Image {
    pub width: usize,
    pub height: usize,
    pub data: Vec<Rgba8>,
    pub color_space: ColorSpace,
}

pub open spec fn distance_spec(a: u8, b: u8) -> int {
    if a < b {
        b - a
    } else {
        a - b
    }
}

/// A pixel counts as gray when neighbouring channels differ by at most one.
pub open spec fn is_gray_spec(p: Rgba8) -> bool {
    distance_spec(p.r, p.g) <= 1 && distance_spec(p.g, p.b) <= 1
}

pub open spec fn has_color_spec(s: Seq<Rgba8>) -> bool {
    exists|i: int| 0 <= i < s.len() && !is_gray_spec(#[trigger] s[i])
}

pub open spec fn has_alpha_spec(s: Seq<Rgba8>) -> bool {
    exists|i: int| 0 <= i < s.len() && (#[trigger] s[i]).a < 255
}

pub open spec fn color_space_of(has_color: bool, has_alpha: bool) -> ColorSpace {
    match (has_color, has_alpha) {
        (false, false) => ColorSpace::Gray,
        (false, true) => ColorSpace::GrayAlpha,
        (true, false) => ColorSpace::RGB,
        (true, true) => ColorSpace::RGBA,
    }
}

pub open spec fn classify(s: Seq<Rgba8>) -> ColorSpace {
    color_space_of(has_color_spec(s), has_alpha_spec(s))
}

pub open spec fn space_has_alpha(c: ColorSpace) -> bool {
    c == ColorSpace::GrayAlpha || c == ColorSpace::RGBA
}

/// A fully transparent pixel loses its colour; any other pixel is kept.
pub open spec fn clear_if_transparent(p: Rgba8) -> Rgba8 {
    if p.a == 0 {
        Rgba8 { r: 0, g: 0, b: 0, a: 0 }
    } else {
        p
    }
}

/// The pixels after alpha-zero optimisation, which applies only when the image has alpha.
pub open spec fn optimized(s: Seq<Rgba8>, has_alpha: bool) -> Seq<Rgba8> {
    if has_alpha {
        s.map_values(|p: Rgba8| clear_if_transparent(p))
    } else {
        s
    }
}

pub open spec fn opaque(p: Rgb8) -> Rgba8 {
    Rgba8 { r: p.r, g: p.g, b: p.b, a: 255 }
}

pub open spec fn gray_pixel(v: u8) -> Rgba8 {
    Rgba8 { r: v, g: v, b: v, a: 255 }
}

impl Image {
    /// The image as the constructors leave it: its colour space has alpha exactly
    /// when some pixel is translucent, and transparent pixels are cleared.
    pub open spec fn is_canonical(&self) -> bool {
        &&& space_has_alpha(self.color_space) == has_alpha_spec(self.data@)
        &&& self.data@ == optimized(self.data@, has_alpha_spec(self.data@))
    }

    /// Builds an image with a colour space given by the caller.
    pub fn new(data: Vec<Rgba8>, width: usize, height: usize, has_color: bool, has_alpha: bool) -> (r: Self)
        ensures
            r.width == width,
            r.height == height,
            r.color_space == color_space_of(has_color, has_alpha),
            r.data@ == optimized(data@, has_alpha),
    {
        let color_space = if has_color {
            if has_alpha { ColorSpace::RGBA } else { ColorSpace::RGB }
        } else {
            if has_alpha { ColorSpace::GrayAlpha } else { ColorSpace::Gray }
        };
        let mut s = Image { width, height, data, color_space };
        s.optimize_alpha();
        s
    }

    /// Builds an image from RGBA pixels, classifying its colour space.
    pub fn from_rgba(data: Vec<Rgba8>, width: usize, height: usize) -> (r: Self)
        ensures
            r.width == width,
            r.height == height,
            r.color_space == classify(data@),
            r.data@ == optimized(data@, has_alpha_spec(data@)),
            r.is_canonical(),
    {
        let has_color = any_colored(&data);
        let has_alpha = any_translucent(&data);
        let r = Self::new(data, width, height, has_color, has_alpha);
        proof {
            lemma_optimized_keeps_classification(data@);
        }
        r
    }

    pub fn has_alpha(&self) -> (r: bool)
        ensures
            r == space_has_alpha(self.color_space),
    {
        match self.color_space {
            ColorSpace::Gray | ColorSpace::RGB => false,
            ColorSpace::GrayAlpha | ColorSpace::RGBA => true,
        }
    }

    /// Builds an image from RGB pixels, all of them opaque.
    pub fn from_rgb(data: Vec<Rgb8>, width: usize, height: usize) -> (r: Self)
        ensures
            r.width == width,
            r.height == height,
            r.data@ == data@.map_values(|p: Rgb8| opaque(p)),
            r.color_space == classify(r.data@),
            !space_has_alpha(r.color_space),
            r.is_canonical(),
    {
        let mut rgba: Vec<Rgba8> = Vec::with_capacity(data.len());
        let mut i: usize = 0;
        while i < data.len()
            invariant
                i <= data.len(),
                rgba@ =~= data@.subrange(0, i as int).map_values(|p: Rgb8| opaque(p)),
            decreases data.len() - i,
        {
            let p = data[i];
            rgba.push(Rgba8 { r: p.r, g: p.g, b: p.b, a: 255 });
            i = i + 1;
        }
        assert(data@.subrange(0, data@.len() as int) =~= data@);
        assert(!has_alpha_spec(rgba@));
        Self::from_rgba(rgba, width, height)
    }

    /// Builds an image from gray samples, replicated into R, G and B and opaque.
    pub fn from_gray(data: Vec<u8>, width: usize, height: usize) -> (r: Self)
        ensures
            r.width == width,
            r.height == height,
            r.data@ == data@.map_values(|v: u8| gray_pixel(v)),
            r.color_space == ColorSpace::Gray,
            r.color_space == classify(r.data@),
            r.is_canonical(),
    {
        let mut rgba: Vec<Rgba8> = Vec::with_capacity(data.len());
        let mut i: usize = 0;
        while i < data.len()
            invariant
                i <= data.len(),
                rgba@ =~= data@.subrange(0, i as int).map_values(|v: u8| gray_pixel(v)),
            decreases data.len() - i,
        {
            let v = data[i];
            rgba.push(Rgba8 { r: v, g: v, b: v, a: 255 });
            i = i + 1;
        }
        assert(data@.subrange(0, data@.len() as int) =~= data@);
        assert(!has_alpha_spec(rgba@));
        assert(!has_color_spec(rgba@));
        Image { width, height, data: rgba, color_space: ColorSpace::Gray }
    }

    /// The green channel of every pixel, which for a gray image is its value.
    pub fn to_gray(&self) -> (r: Vec<u8>)
        ensures
            r@ == self.data@.map_values(|p: Rgba8| p.g),
    {
        let mut out: Vec<u8> = Vec::with_capacity(self.data.len());
        let mut i: usize = 0;
        while i < self.data.len()
            invariant
                i <= self.data.len(),
                out@ =~= self.data@.subrange(0, i as int).map_values(|p: Rgba8| p.g),
            decreases self.data.len() - i,
        {
            out.push(self.data[i].g);
            i = i + 1;
        }
        assert(self.data@.subrange(0, self.data@.len() as int) =~= self.data@);
        out
    }

    /// Clears the colour of fully transparent pixels when the image has alpha.
    pub fn optimize_alpha(&mut self)
        ensures
            final(self).width == old(self).width,
            final(self).height == old(self).height,
            final(self).color_space == old(self).color_space,
            final(self).data@ == optimized(old(self).data@, space_has_alpha(old(self).color_space)),
    {
        if self.has_alpha() {
            let mut i: usize = 0;
            while i < self.data.len()
                invariant
                    i <= self.data.len(),
                    self.width == old(self).width,
                    self.height == old(self).height,
                    self.color_space == old(self).color_space,
                    self.data@.len() == old(self).data@.len(),
                    forall|j: int| 0 <= j < i ==> self.data@[j] == clear_if_transparent(#[trigger] old(self).data@[j]),
                    forall|j: int| i <= j < self.data@.len() ==> self.data@[j] == old(self).data@[j],
                decreases self.data.len() - i,
            {
                let p = self.data[i];
                if p.a == 0 {
                    self.data.set(i, Rgba8 { r: 0, g: 0, b: 0, a: 0 });
                }
                i = i + 1;
            }
            assert(self.data@ =~= optimized(old(self).data@, true));
        }
    }

    /// The pixels as bytes, four per pixel in R, G, B, A order.
    pub fn as_bytes(&self) -> (r: Vec<u8>)
        requires
            4 * self.data@.len() <= usize::MAX,
        ensures
            pixels_of(r@) == self.data@,
            r@.len() == 4 * self.data@.len(),
    {
        pixels_to_bytes(&self.data)
    }
}

pub fn distance(a: u8, b: u8) -> (r: u8)
    ensures
        r as int == distance_spec(a, b),
{
    if a < b {
        b - a
    } else {
        a - b
    }
}

pub fn is_gray(c: Rgba8) -> (r: bool)
    ensures
        r == is_gray_spec(c),
{
    distance(c.r, c.g) <= 1 && distance(c.g, c.b) <= 1
}

fn any_colored(data: &Vec<Rgba8>) -> (r: bool)
    ensures
        r == has_color_spec(data@),
{
    let mut i: usize = 0;
    while i < data.len()
        invariant
            i <= data.len(),
            forall|j: int| 0 <= j < i ==> is_gray_spec(#[trigger] data@[j]),
        decreases data.len() - i,
    {
        if !is_gray(data[i]) {
            return true;
        }
        i = i + 1;
    }
    false
}

fn any_translucent(data: &Vec<Rgba8>) -> (r: bool)
    ensures
        r == has_alpha_spec(data@),
{
    let mut i: usize = 0;
    while i < data.len()
        invariant
            i <= data.len(),
            forall|j: int| 0 <= j < i ==> (#[trigger] data@[j]).a == 255,
        decreases data.len() - i,
    {
        if data[i].a < 255 {
            return true;
        }
        i = i + 1;
    }
    false
}

/// Clearing transparent pixels keeps every alpha value, so whether the image has
/// alpha is unchanged, and clearing a second time changes nothing.
pub proof fn lemma_optimized_keeps_classification(s: Seq<Rgba8>)
    ensures
        ({
            let o = optimized(s, has_alpha_spec(s));
            &&& has_alpha_spec(o) == has_alpha_spec(s)
            &&& optimized(o, has_alpha_spec(o)) == o
        }),
{
    let h = has_alpha_spec(s);
    let o = optimized(s, h);
    if h {
        let i = choose|i: int| 0 <= i < s.len() && (#[trigger] s[i]).a < 255;
        assert(o[i].a < 255);
        assert(optimized(o, true) =~= o);
    }
}

pub open spec fn pixel_at(b: Seq<u8>, i: int) -> Rgba8 {
    Rgba8 { r: b[4 * i], g: b[4 * i + 1], b: b[4 * i + 2], a: b[4 * i + 3] }
}

/// Reads bytes four at a time as RGBA pixels.
pub open spec fn pixels_of(b: Seq<u8>) -> Seq<Rgba8> {
    Seq::new(b.len() / 4, |i: int| pixel_at(b, i))
}

/// Flattens pixels into bytes.
pub fn pixels_to_bytes(data: &Vec<Rgba8>) -> (r: Vec<u8>)
    requires
        4 * data@.len() <= usize::MAX,
    ensures
        r@.len() == 4 * data@.len(),
        pixels_of(r@) == data@,
{
    let mut out: Vec<u8> = Vec::with_capacity(4 * data.len());
    let mut i: usize = 0;
    while i < data.len()
        invariant
            i <= data.len(),
            4 * data@.len() <= usize::MAX,
            out@.len() == 4 * i,
            forall|j: int| 0 <= j < i ==> pixel_at(out@, j) == #[trigger] data@[j],
        decreases data.len() - i,
    {
        let p = data[i];
        out.push(p.r);
        out.push(p.g);
        out.push(p.b);
        out.push(p.a);
        assert forall|j: int| 0 <= j < i + 1 implies pixel_at(out@, j) == #[trigger] data@[j] by {
            if j < i {
                assert(pixel_at(out@, j) == pixel_at(out@.subrange(0, 4 * i), j));
            }
        }
        i = i + 1;
    }
    assert(pixels_of(out@) =~= data@);
    out
}

/// Groups bytes four at a time into pixels; a trailing partial pixel is dropped.
pub fn bytes_to_pixels(b: &Vec<u8>) -> (r: Vec<Rgba8>)
    ensures
        r@ == pixels_of(b@),
{
    let len = b.len();
    let n = len / 4;
    assert(4 * n <= b@.len());
    let mut out: Vec<Rgba8> = Vec::with_capacity(n);
    let mut i: usize = 0;
    while i < n
        invariant
            n == b@.len() / 4,
            len == b@.len(),
            4 * n <= b@.len(),
            i <= n,
            out@.len() == i,
            forall|j: int| 0 <= j < i ==> #[trigger] out@[j] == pixel_at(b@, j),
        decreases n - i,
    {
        assert(4 * i + 3 < b@.len()) by (nonlinear_arith)
            requires
                i < n,
                4 * n <= b@.len(),
        ;
        assert(4 * i < len);
        let k: usize = 4 * i;
        out.push(Rgba8 { r: b[k], g: b[k + 1], b: b[k + 2], a: b[k + 3] });
        i = i + 1;
    }
    assert(out@ =~= pixels_of(b@));
    out
}

/// Every pixel that an image is built from with alpha zero ends up with red,
/// green and blue zero as well, whatever they were.
pub proof fn lemma_transparent_pixels_cleared(data: Seq<Rgba8>)
    ensures
        forall|i: int|
            0 <= i < data.len() && (#[trigger] data[i]).a == 0 ==> optimized(data, has_alpha_spec(data))[i]
                == (Rgba8 { r: 0, g: 0, b: 0, a: 0 }),
{
    assert forall|i: int|
        0 <= i < data.len() && (#[trigger] data[i]).a == 0 implies optimized(data, has_alpha_spec(data))[i]
            == (Rgba8 { r: 0, g: 0, b: 0, a: 0 }) by {
        assert(has_alpha_spec(data));
    }
}

} // verus!
