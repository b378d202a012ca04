use vstd::prelude::*;
use vstd::string::StringSliceAdditionalSpecFns;

verus! {

/// The image file formats that can be read or written.
#[derive(Clone, Copy, Debug, PartialEq, Eq, Structural)]
pub enum Format {
    JPEG,
    PNG,
    WEBP,
    AVIF,
    JXL,
}

/// The format named by a lower-case file extension.
pub open spec fn format_of_ext(e: Seq<u8>) -> Option<Format> {
    if e == seq![106u8, 112u8, 101u8, 103u8] || e == seq![106u8, 112u8, 103u8] {
        Some(Format::JPEG)
    } else if e == seq![112u8, 110u8, 103u8] {
        Some(Format::PNG)
    } else if e == seq![119u8, 101u8, 98u8, 112u8] {
        Some(Format::WEBP)
    } else if e == seq![97u8, 118u8, 105u8, 102u8] {
        Some(Format::AVIF)
    } else if e == seq![106u8, 120u8, 108u8] {
        Some(Format::JXL)
    } else {
        None
    }
}

/// Whether `b` starts with the bytes of `p`.
pub open spec fn starts_with(b: Seq<u8>, p: Seq<u8>) -> bool {
    p.len() <= b.len() && b.subrange(0, p.len() as int) == p
}

pub open spec fn is_jpeg_magic(b: Seq<u8>) -> bool {
    starts_with(b, seq![0xffu8, 0xd8u8, 0xffu8])
}

pub open spec fn is_png_magic(b: Seq<u8>) -> bool {
    starts_with(b, seq![0x89u8, 80u8, 78u8, 71u8, 0x0du8, 0x0au8, 0x1au8, 0x0au8])
}

/// "RIFF", four bytes of any value, then "WEBP".
pub open spec fn is_webp_magic(b: Seq<u8>) -> bool {
    &&& b.len() >= 12
    &&& b.subrange(0, 4) == seq![82u8, 73u8, 70u8, 70u8]
    &&& b.subrange(8, 12) == seq![87u8, 69u8, 66u8, 80u8]
}

/// Three zero bytes, one byte of any value, then "ftypavif".
pub open spec fn is_avif_magic(b: Seq<u8>) -> bool {
    &&& b.len() >= 12
    &&& b.subrange(0, 3) == seq![0u8, 0u8, 0u8]
    &&& b.subrange(4, 12) == seq![102u8, 116u8, 121u8, 112u8, 97u8, 118u8, 105u8, 102u8]
}

pub open spec fn is_jxl_magic(b: Seq<u8>) -> bool {
    starts_with(b, seq![0xffu8, 0x0au8, 0x18u8])
}

/// The format that a file's first bytes announce, tried in a fixed order.
pub open spec fn format_of_magic(b: Seq<u8>) -> Option<Format> {
    if is_jpeg_magic(b) {
        Some(Format::JPEG)
    } else if is_png_magic(b) {
        Some(Format::PNG)
    } else if is_webp_magic(b) {
        Some(Format::WEBP)
    } else if is_avif_magic(b) {
        Some(Format::AVIF)
    } else if is_jxl_magic(b) {
        Some(Format::JXL)
    } else {
        None
    }
}

/// Whether the bytes of `b` from `start` on begin with those of `p`.
fn matches_at(b: &[u8], start: usize, p: &[u8]) -> (r: bool)
    requires
        start <= b@.len(),
    ensures
        r == (start + p@.len() <= b@.len() && b@.subrange(start as int, start + p@.len()) == p@),
{
    if p.len() > b.len() - start {
        return false;
    }
    let n = b.len();
    let mut i: usize = 0;
    while i < p.len()
        invariant
            n == b@.len(),
            start + p@.len() <= b@.len(),
            i <= p@.len(),
            forall|j: int| 0 <= j < i ==> b@[start + j] == p@[j],
        decreases p@.len() - i,
    {
        if b[start + i] != p[i] {
            assert(b@.subrange(start as int, start + p@.len())[i as int] != p@[i as int]);
            return false;
        }
        i = i + 1;
    }
    assert(b@.subrange(start as int, start + p@.len()) =~= p@);
    true
}

impl Format {
    /// The format for a lower-case file extension such as "png" or "jpg".
    pub fn from_ext(input: &str) -> (r: Option<Format>)
        ensures
            r == format_of_ext(input.spec_bytes()),
    {
        let b = input.as_bytes();
        let jpeg: [u8; 4] = [106u8, 112u8, 101u8, 103u8];
        let jpg: [u8; 3] = [106u8, 112u8, 103u8];
        let png: [u8; 3] = [112u8, 110u8, 103u8];
        let webp: [u8; 4] = [119u8, 101u8, 98u8, 112u8];
        let avif: [u8; 4] = [97u8, 118u8, 105u8, 102u8];
        let jxl: [u8; 3] = [106u8, 120u8, 108u8];
        let is_jpeg = (b.len() == 4 && matches_at(b, 0, jpeg.as_slice())) || (b.len() == 3
            && matches_at(b, 0, jpg.as_slice()));
        proof {
            assert(b@.subrange(0, b@.len() as int) =~= b@);
        }
        if is_jpeg {
            Some(Format::JPEG)
        } else if b.len() == 3 && matches_at(b, 0, png.as_slice()) {
            Some(Format::PNG)
        } else if b.len() == 4 && matches_at(b, 0, webp.as_slice()) {
            Some(Format::WEBP)
        } else if b.len() == 4 && matches_at(b, 0, avif.as_slice()) {
            Some(Format::AVIF)
        } else if b.len() == 3 && matches_at(b, 0, jxl.as_slice()) {
            Some(Format::JXL)
        } else {
            None
        }
    }

    /// The format that a file's first bytes announce, if any.
    pub fn from_magic(buffer: &[u8]) -> (r: Option<Format>)
        ensures
            r == format_of_magic(buffer@),
    {
        let jpeg: [u8; 3] = [0xff, 0xd8, 0xff];
        let png: [u8; 8] = [0x89, 80u8, 78u8, 71u8, 0x0d, 0x0a, 0x1a, 0x0a];
        let riff: [u8; 4] = [82u8, 73u8, 70u8, 70u8];
        let webp: [u8; 4] = [87u8, 69u8, 66u8, 80u8];
        let zeros: [u8; 3] = [0, 0, 0];
        let ftyp: [u8; 8] = [102u8, 116u8, 121u8, 112u8, 97u8, 118u8, 105u8, 102u8];
        let jxl: [u8; 3] = [0xff, 0x0a, 0x18];
        let long = buffer.len() >= 12;
        if matches_at(buffer, 0, jpeg.as_slice()) {
            Some(Format::JPEG)
        } else if matches_at(buffer, 0, png.as_slice()) {
            Some(Format::PNG)
        } else if long && matches_at(buffer, 0, riff.as_slice()) && matches_at(buffer, 8, webp.as_slice()) {
            Some(Format::WEBP)
        } else if long && matches_at(buffer, 0, zeros.as_slice()) && matches_at(buffer, 4, ftyp.as_slice()) {
            Some(Format::AVIF)
        } else if matches_at(buffer, 0, jxl.as_slice()) {
            Some(Format::JXL)
        } else {
            None
        }
    }

    pub fn supports_transparency(&self) -> (r: bool)
        ensures
            r == (*self != Format::JPEG),
    {
        match self {
            Format::JPEG => false,
            Format::PNG => true,
            Format::WEBP => true,
            Format::AVIF => true,
            Format::JXL => true,
        }
    }

    pub fn supports_chroma_subsampling(&self) -> (r: bool)
        ensures
            r == (*self == Format::JPEG),
    {
        match self {
            Format::JPEG => true,
            Format::PNG => false,
            Format::WEBP => false,
            Format::AVIF => false,
            Format::JXL => false,
        }
    }
}

} // verus!
