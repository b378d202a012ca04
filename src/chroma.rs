use vstd::prelude::*;
use vstd::arithmetic::div_mod::lemma_fundamental_div_mod_converse;
use vstd::arithmetic::mul::lemma_mul_is_commutative;
use crate::color::Yuv;
use crate::plane::{Plane, PlaneView};

verus! {

/// The sample of `p` at row `r`, column `c`.
pub open spec fn sample(p: PlaneView, r: int, c: int) -> u16 {
    p.samples[r * p.width + c]
}

/// The YUV triplet at luma position `(r, c)` when chroma is subsampled by
/// `sh` horizontally and `sv` vertically: the chroma sample is `(r / sv, c / sh)`.
pub open spec fn triplet_at(y: PlaneView, u: PlaneView, v: PlaneView, sh: int, sv: int, r: int, c: int) -> Yuv {
    Yuv { y: sample(y, r, c), u: sample(u, r / sv, c / sh), v: sample(v, r / sv, c / sh) }
}

/// The triplets of a whole frame in row-major order at luma resolution.
pub open spec fn triplets(y: PlaneView, u: PlaneView, v: PlaneView, sh: int, sv: int) -> Seq<Yuv> {
    Seq::new(
        y.width * y.height,
        |i: int| triplet_at(y, u, v, sh, sv, i / y.width as int, i % y.width as int),
    )
}

/// Chroma planes cover the luma plane once scaled up by `sh` and `sv`.
pub open spec fn chroma_covers(y: PlaneView, c: PlaneView, sh: int, sv: int) -> bool {
    &&& y.width <= c.width * sh
    &&& y.height <= c.height * sv
}

pub open spec fn planes_fit(y: PlaneView, u: PlaneView, v: PlaneView, sh: int, sv: int) -> bool {
    &&& y.wf()
    &&& u.wf()
    &&& v.wf()
    &&& chroma_covers(y, u, sh, sv)
    &&& chroma_covers(y, v, sh, sv)
}

pub proof fn lemma_index_in_grid(row: int, col: int, rows: int, cols: int)
    requires
        0 <= row < rows,
        0 <= col < cols,
    ensures
        0 <= row * cols,
        row * cols + col < rows * cols,
        row * cols + cols <= rows * cols,
{
    assert(0 <= row * cols && row * cols + cols <= rows * cols) by (nonlinear_arith)
        requires
            0 <= row < rows,
            0 <= col < cols,
    ;
}

pub proof fn lemma_row_col(r: int, c: int, w: int)
    requires
        0 <= r,
        0 <= c < w,
    ensures
        (r * w + c) / w == r,
        (r * w + c) % w == c,
{
    lemma_fundamental_div_mod_converse(r * w + c, w, r, c);
}

/// Chroma position `(r / sv, c / sh)` lies inside a chroma plane that covers the luma plane.
proof fn lemma_chroma_in_plane(y: PlaneView, p: PlaneView, sh: int, sv: int, r: int, c: int)
    requires
        chroma_covers(y, p, sh, sv),
        1 <= sh <= 2,
        1 <= sv <= 2,
        0 <= r < y.height,
        0 <= c < y.width,
    ensures
        0 <= r / sv < p.height,
        0 <= c / sh < p.width,
{
    assert(0 <= r / sv < p.height) by (nonlinear_arith)
        requires
            r < y.height <= p.height * sv,
            0 <= r,
            1 <= sv <= 2,
    ;
    assert(0 <= c / sh < p.width) by (nonlinear_arith)
        requires
            c < y.width <= p.width * sh,
            0 <= c,
            1 <= sh <= 2,
    ;
}

/// Combines Y, U and V planes into triplets at luma resolution, replicating each
/// chroma sample `sh` times across and `sv` times down (nearest neighbour).
pub fn combine(y: &Plane, u: &Plane, v: &Plane, sh: usize, sv: usize) -> (r: Vec<Yuv>)
    requires
        planes_fit(y@, u@, v@, sh as int, sv as int),
        1 <= sh <= 2,
        1 <= sv <= 2,
    ensures
        r@ == triplets(y@, u@, v@, sh as int, sv as int),
{
    let w = y.width;
    let h = y.height;
    let y_len = y.samples.len();
    let u_len = u.samples.len();
    let v_len = v.samples.len();
    let mut out: Vec<Yuv> = Vec::new();
    let mut row: usize = 0;
    while row < h
        invariant
            planes_fit(y@, u@, v@, sh as int, sv as int),
            1 <= sh <= 2,
            1 <= sv <= 2,
            w == y.width,
            h == y.height,
            y_len == y.samples@.len(),
            u_len == u.samples@.len(),
            v_len == v.samples@.len(),
            row <= h,
            out@.len() == row * w,
            forall|i: int| 0 <= i < out@.len() ==> #[trigger] out@[i] == triplet_at(y@, u@, v@, sh as int, sv as int, i / w as int, i % w as int),
        decreases h - row,
    {
        if w == 0 {
            row = row + 1;
            proof {
                assert(out@.len() == row * w) by (nonlinear_arith)
                    requires
                        w == 0,
                        out@.len() == (row - 1) * w,
                ;
            }
            continue;
        }
        proof {
            lemma_mul_is_commutative(h as int, w as int);
            lemma_mul_is_commutative(u.height as int, u.width as int);
            lemma_mul_is_commutative(v.height as int, v.width as int);
            lemma_index_in_grid(row as int, 0, h as int, w as int);
            lemma_chroma_in_plane(y@, u@, sh as int, sv as int, row as int, 0);
            lemma_chroma_in_plane(y@, v@, sh as int, sv as int, row as int, 0);
            lemma_index_in_grid((row / sv) as int, 0, u.height as int, u.width as int);
            lemma_index_in_grid((row / sv) as int, 0, v.height as int, v.width as int);
        }
        let y_base = row * w;
        let u_base = (row / sv) * u.width;
        let v_base = (row / sv) * v.width;
        let mut col: usize = 0;
        while col < w
            invariant
                planes_fit(y@, u@, v@, sh as int, sv as int),
                1 <= sh <= 2,
                1 <= sv <= 2,
                w == y.width,
                h == y.height,
                y_len == y.samples@.len(),
                u_len == u.samples@.len(),
                v_len == v.samples@.len(),
                row < h,
                col <= w,
                y_base == row * w,
                u_base == (row / sv) * u.width,
                v_base == (row / sv) * v.width,
                out@.len() == row * w + col,
                forall|i: int| 0 <= i < out@.len() ==> #[trigger] out@[i] == triplet_at(y@, u@, v@, sh as int, sv as int, i / w as int, i % w as int),
            decreases w - col,
        {
            proof {
                lemma_mul_is_commutative(h as int, w as int);
                lemma_mul_is_commutative(u.height as int, u.width as int);
                lemma_mul_is_commutative(v.height as int, v.width as int);
                lemma_index_in_grid(row as int, col as int, h as int, w as int);
                lemma_chroma_in_plane(y@, u@, sh as int, sv as int, row as int, col as int);
                lemma_chroma_in_plane(y@, v@, sh as int, sv as int, row as int, col as int);
                lemma_index_in_grid((row / sv) as int, (col / sh) as int, u.height as int, u.width as int);
                lemma_index_in_grid((row / sv) as int, (col / sh) as int, v.height as int, v.width as int);
                lemma_row_col(row as int, col as int, w as int);
            }
            let t = Yuv {
                y: y.samples[y_base + col],
                u: u.samples[u_base + col / sh],
                v: v.samples[v_base + col / sh],
            };
            out.push(t);
            col = col + 1;
        }
        row = row + 1;
        proof {
            assert(out@.len() == row * w) by (nonlinear_arith)
                requires
                    out@.len() == (row - 1) * w + w,
            ;
        }
    }
    proof {
        assert(out@.len() == w * h) by (nonlinear_arith)
            requires
                out@.len() == h * w,
        ;
        assert(out@ =~= triplets(y@, u@, v@, sh as int, sv as int));
    }
    out
}

/// Triplets at position `(r, c)` of the frame sit at `r * width + c`.
pub proof fn lemma_triplet_position(y: PlaneView, u: PlaneView, v: PlaneView, sh: int, sv: int, r: int, c: int)
    requires
        0 <= r < y.height,
        0 <= c < y.width,
    ensures
        0 <= r * y.width + c < y.width * y.height,
        triplets(y, u, v, sh, sv)[r * y.width + c] == triplet_at(y, u, v, sh, sv, r, c),
{
    lemma_index_in_grid(r, c, y.height as int, y.width as int);
    assert(r * y.width + c < y.width * y.height) by (nonlinear_arith)
        requires
            r * y.width + c < y.height * y.width,
    ;
    lemma_row_col(r, c, y.width as int);
}

/// Combines planes of equal size.
pub fn yuv_444(y: &Plane, u: &Plane, v: &Plane) -> (r: Vec<Yuv>)
    requires
        planes_fit(y@, u@, v@, 1, 1),
    ensures
        r@ == triplets(y@, u@, v@, 1, 1),
        r@.len() == y.width * y.height,
        forall|row: int, col: int|
            0 <= row < y.height && 0 <= col < y.width ==> r@[row * y.width + col] == (Yuv {
                y: sample(y@, row, col),
                u: sample(u@, row, col),
                v: sample(v@, row, col),
            }),
{
    let r = combine(y, u, v, 1, 1);
    proof {
        assert forall|row: int, col: int|
            0 <= row < y.height && 0 <= col < y.width implies r@[row * y.width + col] == (Yuv {
                y: sample(y@, row, col),
                u: sample(u@, row, col),
                v: sample(v@, row, col),
            }) by {
            lemma_triplet_position(y@, u@, v@, 1, 1, row, col);
        }
    }
    r
}

/// Combines planes where U and V have half the luma width.
pub fn yuv_422(y: &Plane, u: &Plane, v: &Plane) -> (r: Vec<Yuv>)
    requires
        planes_fit(y@, u@, v@, 2, 1),
    ensures
        r@ == triplets(y@, u@, v@, 2, 1),
        r@.len() == y.width * y.height,
{
    combine(y, u, v, 2, 1)
}

/// Combines planes where U and V have half the luma width and half its height.
pub fn yuv_420(y: &Plane, u: &Plane, v: &Plane) -> (r: Vec<Yuv>)
    requires
        planes_fit(y@, u@, v@, 2, 2),
    ensures
        r@ == triplets(y@, u@, v@, 2, 2),
        r@.len() == y.width * y.height,
        forall|row: int, col: int|
            0 <= row < y.height && 0 <= col < y.width ==> r@[row * y.width + col] == (Yuv {
                y: sample(y@, row, col),
                u: sample(u@, row / 2, col / 2),
                v: sample(v@, row / 2, col / 2),
            }),
{
    let r = combine(y, u, v, 2, 2);
    proof {
        assert forall|row: int, col: int|
            0 <= row < y.height && 0 <= col < y.width implies r@[row * y.width + col] == (Yuv {
                y: sample(y@, row, col),
                u: sample(u@, row / 2, col / 2),
                v: sample(v@, row / 2, col / 2),
            }) by {
            lemma_triplet_position(y@, u@, v@, 2, 2, row, col);
        }
    }
    r
}

} // verus!
