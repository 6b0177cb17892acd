//! Turning intensities into feature bits.
//!
//! Every pixel is compared with each of its levels: the bit of pixel
//! `(r, c)` and bit plane `b` is set exactly when the pixel's intensity
//! reaches level `(r, c, b)`. The bits are laid out like the levels, in
//! row-major order with the bit plane varying fastest.

use vstd::prelude::*;
use vstd::arithmetic::div_mod::{lemma_fundamental_div_mod_converse, lemma_multiply_divide_lt};
use crate::error::WnnError;
use crate::tensor::{lemma_offset3_in_range, offset3, Cube, Grid, PixelGrid, ThresholdCube};

verus! {

/// The feature bit of pixel `(r, c)` in bit plane `b`.
pub open spec fn feature_bit(levels: Cube<u16>, image: Grid<u8>, r: int, c: int, b: int) -> bool {
    image.at(r, c) >= levels.at(r, c, b)
}

/// All feature bits of an image, in the order of the levels.
pub open spec fn spec_encode(levels: Cube<u16>, image: Grid<u8>) -> Seq<bool> {
    Seq::new(levels.cells.len(), |i: int| image.cells[i / (levels.d2 as int)] >= levels.cells[i])
}

/// The levels of every pixel do not decrease from one bit plane to the next.
pub open spec fn nondecreasing(levels: Cube<u16>) -> bool {
    forall|r: int, c: int, b: int|
        0 <= r < levels.d0 && 0 <= c < levels.d1 && 0 < b < levels.d2 ==> levels.at(r, c, b - 1)
            <= #[trigger] levels.at(r, c, b)
}

/// An image fits a table of levels when it has one pixel per pair of the
/// table's first two indices.
pub open spec fn fits(levels: Cube<u16>, image: Grid<u8>) -> bool {
    image.rows == levels.d0 && image.cols == levels.d1
}

/// The sequence of feature bits holds the bit of pixel `(r, c)` and bit
/// plane `b` at the row-major position of `(r, c, b)`.
pub proof fn lemma_encode_at(levels: Cube<u16>, image: Grid<u8>, r: int, c: int, b: int)
    requires
        levels.wf(),
        fits(levels, image),
        levels.has(r, c, b),
    ensures
        0 <= offset3(levels.d1, levels.d2, r, c, b) < spec_encode(levels, image).len(),
        spec_encode(levels, image)[offset3(levels.d1, levels.d2, r, c, b)] == feature_bit(
            levels,
            image,
            r,
            c,
            b,
        ),
{
    lemma_offset3_in_range(levels.d0, levels.d1, levels.d2, r, c, b);
    let i = offset3(levels.d1, levels.d2, r, c, b);
    lemma_fundamental_div_mod_converse(i, levels.d2 as int, r * levels.d1 + c, b);
}

/// Across all bit planes of one pixel the levels do not decrease.
pub proof fn lemma_levels_ordered(levels: Cube<u16>, r: int, c: int, lo: int, hi: int)
    requires
        nondecreasing(levels),
        0 <= r < levels.d0,
        0 <= c < levels.d1,
        0 <= lo <= hi < levels.d2,
    ensures
        levels.at(r, c, lo) <= levels.at(r, c, hi),
    decreases hi - lo,
{
    if lo < hi {
        lemma_levels_ordered(levels, r, c, lo, hi - 1);
        assert(levels.at(r, c, hi - 1) <= levels.at(r, c, hi));
    }
}

/// Thermometer pattern: once a bit of a pixel is clear, so is every bit of
/// that pixel in a higher bit plane.
pub proof fn lemma_thermometer(levels: Cube<u16>, image: Grid<u8>, r: int, c: int, lo: int, hi: int)
    requires
        nondecreasing(levels),
        0 <= r < levels.d0,
        0 <= c < levels.d1,
        0 <= lo <= hi < levels.d2,
        !feature_bit(levels, image, r, c, lo),
    ensures
        !feature_bit(levels, image, r, c, hi),
{
    lemma_levels_ordered(levels, r, c, lo, hi);
}

/// Monotonicity: an image that is at least as bright as another in every
/// pixel has every feature bit that the other has.
pub proof fn lemma_encode_monotone(levels: Cube<u16>, brighter: Grid<u8>, darker: Grid<u8>)
    requires
        levels.wf(),
        brighter.wf(),
        darker.wf(),
        fits(levels, brighter),
        fits(levels, darker),
        forall|p: int| 0 <= p < darker.cells.len() ==> brighter.cells[p] >= darker.cells[p],
    ensures
        spec_encode(levels, brighter).len() == spec_encode(levels, darker).len(),
        forall|i: int|
            0 <= i < spec_encode(levels, darker).len() && spec_encode(levels, darker)[i]
                ==> spec_encode(levels, brighter)[i],
{
    assert forall|i: int|
        0 <= i < spec_encode(levels, darker).len() && spec_encode(
            levels,
            darker,
        )[i] implies spec_encode(levels, brighter)[i] by {
        let pixels = levels.d0 * levels.d1;
        let planes = levels.d2 as int;
        assert(planes > 0) by (nonlinear_arith)
            requires
                0 <= i < pixels * planes,
                planes >= 0,
        ;
        assert(pixels * planes == planes * pixels) by (nonlinear_arith);
        lemma_multiply_divide_lt(i, planes, pixels as int);
        assert(0 <= i / planes) by (nonlinear_arith)
            requires
                0 <= i,
                planes > 0,
        ;
        assert(brighter.cells[i / planes] >= darker.cells[i / planes]);
    }
}

/// Decides whether the levels of every pixel are in non-decreasing order.
pub fn check_nondecreasing(levels: &ThresholdCube) -> (ok: bool)
    ensures
        ok == nondecreasing(levels@),
{
    let (d0, d1, d2) = levels.dim();
    let mut r: usize = 0;
    while r < d0
        invariant
            r <= d0,
            levels@.d0 == d0,
            levels@.d1 == d1,
            levels@.d2 == d2,
            forall|x: int, y: int, z: int|
                0 <= x < r && 0 <= y < d1 && 0 < z < d2 ==> levels@.at(x, y, z - 1)
                    <= #[trigger] levels@.at(x, y, z),
        decreases d0 - r,
    {
        let mut c: usize = 0;
        while c < d1
            invariant
                r < d0,
                c <= d1,
                levels@.d0 == d0,
                levels@.d1 == d1,
                levels@.d2 == d2,
                forall|x: int, y: int, z: int|
                    0 <= x < r && 0 <= y < d1 && 0 < z < d2 ==> levels@.at(x, y, z - 1)
                        <= #[trigger] levels@.at(x, y, z),
                forall|y: int, z: int|
                    0 <= y < c && 0 < z < d2 ==> levels@.at(r as int, y, z - 1)
                        <= #[trigger] levels@.at(r as int, y, z),
            decreases d1 - c,
        {
            let mut b: usize = 1;
            while b < d2
                invariant
                    r < d0,
                    c < d1,
                    1 <= b,
                    levels@.d0 == d0,
                    levels@.d1 == d1,
                    levels@.d2 == d2,
                    forall|z: int|
                        0 < z < b && z < d2 ==> levels@.at(r as int, c as int, z - 1)
                            <= #[trigger] levels@.at(r as int, c as int, z),
                decreases d2 - b,
            {
                let below: u16 = levels.get(r, c, b - 1);
                let here: u16 = levels.get(r, c, b);
                if below > here {
                    assert(!(levels@.at(r as int, c as int, b - 1) <= levels@.at(
                        r as int,
                        c as int,
                        b as int,
                    )));
                    return false;
                }
                b = b + 1;
            }
            c = c + 1;
        }
        r = r + 1;
    }
    true
}

/// Encodes an image against a table of levels.
///
/// Fails with `ShapeMismatch` when the image does not have one pixel per
/// pair of the table's first two indices.
pub fn encode(levels: &ThresholdCube, image: &PixelGrid) -> (r: Result<Vec<bool>, WnnError>)
    ensures
        r is Ok <==> fits(levels@, image@),
        r matches Ok(bits) ==> bits@ == spec_encode(levels@, image@),
        r matches Err(e) ==> e == WnnError::ShapeMismatch,
{
    let (d0, d1, d2) = levels.dim();
    let (rows, cols) = image.dim();
    if rows != d0 || cols != d1 {
        return Err(WnnError::ShapeMismatch);
    }
    let ghost lv = levels@;
    let ghost im = image@;
    let mut bits: Vec<bool> = Vec::new();
    let mut r: usize = 0;
    assert((0 * d1) * d2 == 0) by (nonlinear_arith);
    while r < d0
        invariant
            r <= d0,
            lv == levels@,
            im == image@,
            lv.wf(),
            im.wf(),
            lv.d0 == d0,
            lv.d1 == d1,
            lv.d2 == d2,
            im.rows == d0,
            im.cols == d1,
            bits.len() == (r * d1) * d2,
            forall|i: int| 0 <= i < bits.len() ==> bits[i] == (im.cells[i / (d2 as int)] >= lv.cells[i]),
        decreases d0 - r,
    {
        let mut c: usize = 0;
        while c < d1
            invariant
                r < d0,
                c <= d1,
                lv == levels@,
                im == image@,
                lv.wf(),
                im.wf(),
                lv.d0 == d0,
                lv.d1 == d1,
                lv.d2 == d2,
                im.rows == d0,
                im.cols == d1,
                bits.len() == (r * d1 + c) * d2,
                forall|i: int|
                    0 <= i < bits.len() ==> bits[i] == (im.cells[i / (d2 as int)] >= lv.cells[i]),
            decreases d1 - c,
        {
            let pixel: u8 = image.get(r, c);
            let mut b: usize = 0;
            while b < d2
                invariant
                    r < d0,
                    c < d1,
                    b <= d2,
                    lv == levels@,
                    im == image@,
                    lv.wf(),
                    im.wf(),
                    lv.d0 == d0,
                    lv.d1 == d1,
                    lv.d2 == d2,
                    im.rows == d0,
                    im.cols == d1,
                    pixel == im.at(r as int, c as int),
                    bits.len() == (r * d1 + c) * d2 + b,
                    forall|i: int|
                        0 <= i < bits.len() ==> bits[i] == (im.cells[i / (d2 as int)]
                            >= lv.cells[i]),
                decreases d2 - b,
            {
                let level: u16 = levels.get(r, c, b);
                proof {
                    let i = offset3(d1 as nat, d2 as nat, r as int, c as int, b as int);
                    assert(i == bits.len());
                    lemma_fundamental_div_mod_converse(i, d2 as int, r * d1 + c, b as int);
                }
                bits.push(pixel as u16 >= level);
                b = b + 1;
            }
            assert((r * d1 + c) * d2 + d2 == (r * d1 + (c + 1)) * d2) by (nonlinear_arith);
            c = c + 1;
        }
        assert((r * d1 + d1) * d2 == ((r + 1) * d1) * d2) by (nonlinear_arith);
        r = r + 1;
    }
    assert(bits@ =~= spec_encode(lv, im));
    Ok(bits)
}

} // verus!
