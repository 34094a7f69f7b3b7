//! Geometric transforms on composited RGBA buffers: sub-rectangle extraction
//! by direct pixel copy, and the arithmetic of aspect-preserving resizing.

use vstd::prelude::*;
use vstd::arithmetic::div_mod::{
    lemma_div_is_ordered,
    lemma_div_multiples_vanish,
    lemma_fundamental_div_mod_converse,
};
use crate::pixels::Rgba;

verus! {

/// The `w`-by-`h` sub-rectangle of a `sw`-wide row-major buffer, starting at
/// column `x` and row `y`: a direct pixel copy, no resampling.
pub open spec fn crop_region(src: Seq<Rgba>, sw: int, x: int, y: int, w: int, h: int) -> Seq<
    Rgba,
> {
    Seq::new((w * h) as nat, |k: int| src[(y + k / w) * sw + x + k % w])
}

/// Extracts the requested sub-rectangle of a row-major RGBA buffer by direct
/// pixel copy.  The output holds exactly `w * h` pixels; pixel `(col, row)` of
/// the output is pixel `(x + col, y + row)` of the source.
pub fn crop_buffer(src: &Vec<Rgba>, sw: u32, sh: u32, x: u32, y: u32, w: u32, h: u32) -> (out: Vec<
    Rgba,
>)
    requires
        src@.len() == sw * sh,
        x + w <= sw,
        y + h <= sh,
    ensures
        out@ == crop_region(src@, sw as int, x as int, y as int, w as int, h as int),
        out@.len() == w * h,
{
    let ghost target = crop_region(src@, sw as int, x as int, y as int, w as int, h as int);
    let srclen: usize = src.len();
    let mut out: Vec<Rgba> = Vec::new();
    let mut row: u32 = 0;
    proof {
        assert(w * h >= 0) by (nonlinear_arith);
    }
    while row < h
        invariant
            row <= h,
            src@.len() == sw * sh,
            src@.len() == srclen,
            x + w <= sw,
            y + h <= sh,
            out@.len() == row * w,
            target == crop_region(src@, sw as int, x as int, y as int, w as int, h as int),
            target.len() == w * h,
            out@ == target.take((row * w) as int),
        decreases h - row,
    {
        let mut col: u32 = 0;
        proof {
            assert(row * w + w <= w * h) by (nonlinear_arith)
                requires
                    row < h,
            ;
        }
        while col < w
            invariant
                col <= w,
                row < h,
                src@.len() == sw * sh,
                src@.len() == srclen,
                x + w <= sw,
                y + h <= sh,
                out@.len() == row * w + col,
                row * w + w <= w * h,
                target == crop_region(src@, sw as int, x as int, y as int, w as int, h as int),
                target.len() == w * h,
                out@ == target.take((row * w + col) as int),
            decreases w - col,
        {
            let ghost k: int = row * w + col;
            proof {
                assert((y + row) * sw + x + col < sw * sh) by (nonlinear_arith)
                    requires
                        y + row < sh,
                        x + col < sw,
                        sw > 0,
                ;
                lemma_fundamental_div_mod_converse(k, w as int, row as int, col as int);
                assert(target[k] == src@[(y + row) * sw + x + col]);
            }
            let idx: usize = ((y + row) as usize) * (sw as usize) + (x + col) as usize;
            let px = src[idx];
            out.push(px);
            proof {
                assert(out@ =~= target.take(k + 1));
            }
            col = col + 1;
        }
        proof {
            assert((row + 1) * w == row * w + w) by (nonlinear_arith);
        }
        row = row + 1;
    }
    proof {
        assert(row * w == w * h) by (nonlinear_arith)
            requires
                row == h,
        ;
        assert(out@ =~= target);
    }
    out
}

/// The output dimensions of an aspect-preserving resize into the bounding box
/// `(mw, mh)`.  When the box is relatively wider than the source, the scale is
/// bound by height, otherwise by width; the free dimension is truncated, never
/// rounded.
pub open spec fn fit_dims(sw: int, sh: int, mw: int, mh: int) -> (int, int) {
    if mw * sh > mh * sw {
        (sw * mh / sh, mh)
    } else {
        (mw, sh * mw / sw)
    }
}

/// Computes the aspect-preserving output dimensions for a resize request.
/// Both results stay within the bounding box, and when the box's aspect ratio
/// differs from the source's, exactly one of them equals its bound.
pub fn resize_dims(sw: u32, sh: u32, mw: u32, mh: u32) -> (r: (u32, u32))
    requires
        sw >= 1,
        sh >= 1,
    ensures
        (r.0 as int, r.1 as int) == fit_dims(sw as int, sh as int, mw as int, mh as int),
        r.0 <= mw,
        r.1 <= mh,
        mw * sh > mh * sw ==> r.1 == mh && r.0 < mw,
        mw * sh < mh * sw ==> r.0 == mw && r.1 < mh,
        mw * sh == mh * sw ==> r.0 == mw && r.1 == mh,
{
    proof {
        lemma_u32_mul_fits(mw as int, sh as int);
        lemma_u32_mul_fits(mh as int, sw as int);
        lemma_u32_mul_fits(sw as int, mh as int);
        lemma_u32_mul_fits(sh as int, mw as int);
    }
    let wide = (mw as u64) * (sh as u64) > (mh as u64) * (sw as u64);
    if wide {
        let nw64: u64 = (sw as u64) * (mh as u64) / (sh as u64);
        proof {
            lemma_bound_div(sw as int, mh as int, sh as int, mw as int);
        }
        (nw64 as u32, mh)
    } else {
        let nh64: u64 = (sh as u64) * (mw as u64) / (sw as u64);
        proof {
            if mw * sh < mh * sw {
                lemma_bound_div(sh as int, mw as int, sw as int, mh as int);
            } else {
                assert(sh * mw == mh * sw) by (nonlinear_arith)
                    requires
                        mw * sh == mh * sw,
                ;
                lemma_div_multiples_vanish(mh as int, sw as int);
            }
        }
        (mw, nh64 as u32)
    }
}

/// If `a * b < c * d` with everything nonnegative and `d > 0`, then
/// `a * b / d < c`, so the truncated dimension stays strictly under its bound.
proof fn lemma_bound_div(a: int, b: int, d: int, c: int)
    requires
        0 <= a,
        0 <= b,
        0 < d,
        0 <= c,
        a * b < c * d,
    ensures
        a * b / d < c,
        a * b / d >= 0,
{
    lemma_div_is_ordered(a * b, c * d - 1, d);
    assert(c * d - 1 == (c - 1) * d + (d - 1)) by (nonlinear_arith);
    lemma_fundamental_div_mod_converse(c * d - 1, d, c - 1, d - 1);
    assert(a * b >= 0) by (nonlinear_arith)
        requires
            0 <= a,
            0 <= b,
    ;
    lemma_div_is_ordered(0, a * b, d);
}

/// The product of two 32-bit values fits in 64 bits.
pub proof fn lemma_u32_mul_fits(a: int, b: int)
    requires
        0 <= a <= u32::MAX,
        0 <= b <= u32::MAX,
    ensures
        0 <= a * b <= u64::MAX,
{
    assert(0 <= a * b <= u64::MAX) by (nonlinear_arith)
        requires
            0 <= a <= u32::MAX,
            0 <= b <= u32::MAX,
    ;
}

} // verus!
