//! The frame compositor: turns the stream of raw frame deltas of an animated
//! container into a stream of fully composited, full-canvas RGBA snapshots.
//!
//! Each delta covers only a sub-rectangle of the logical screen, and a
//! per-frame disposal rule says how the canvas is prepared for the next delta.
//! The compositor owns the canvas for the length of one decode pass, yields
//! one snapshot per delta, and holds at most one cached pre-blit region.

use vstd::prelude::*;
use vstd::arithmetic::div_mod::{lemma_fundamental_div_mod, lemma_fundamental_div_mod_converse};
use crate::ImgError;
use crate::geometry::{crop_buffer, crop_region};
use crate::pixels::{clear_px, rgba_of, Rgba};

verus! {

/// How the canvas is prepared for the next delta once a frame was shown.
#[derive(Clone, Copy, Debug, PartialEq, Eq, Structural)]
pub enum Disposal {
    /// Leave the canvas unchanged.
    Keep,
    /// Clear the delta's region to fully transparent.
    Background,
    /// Revert the delta's region to the canvas contents from just before the
    /// delta was blitted.
    Previous,
}

/// One animated-container frame as stored: a sparse RGBA delta against the
/// canvas, its placement, its display delay in hundredths of a second, and its
/// disposal rule.  `pixels` holds four bytes per pixel in row-major order; a
/// zero alpha byte marks a pixel the delta does not touch.
pub struct FrameDelta {
    /// Column of the delta's left edge on the canvas.
    pub left: u16,
    /// Row of the delta's top edge on the canvas.
    pub top: u16,
    /// Width of the delta region.
    pub width: u16,
    /// Height of the delta region.
    pub height: u16,
    /// Canvas preparation rule for the next delta.
    pub disposal: Disposal,
    /// Display delay, in units of 10 ms, copied verbatim to any output.
    pub delay: u16,
    /// Raw RGBA bytes of the delta region.
    pub pixels: Vec<u8>,
}

/// The mathematical shadow of a [`FrameDelta`].
pub ghost struct FrameDeltaView {
    /// Column of the delta's left edge.
    pub left: u16,
    /// Row of the delta's top edge.
    pub top: u16,
    /// Width of the delta region.
    pub width: u16,
    /// Height of the delta region.
    pub height: u16,
    /// Canvas preparation rule.
    pub disposal: Disposal,
    /// Display delay in units of 10 ms.
    pub delay: u16,
    /// Raw RGBA bytes of the delta region.
    pub pixels: Seq<u8>,
}

impl View for FrameDelta {
    type V = FrameDeltaView;

    open spec fn view(&self) -> FrameDeltaView {
        FrameDeltaView {
            left: self.left,
            top: self.top,
            width: self.width,
            height: self.height,
            disposal: self.disposal,
            delay: self.delay,
            pixels: self.pixels@,
        }
    }
}

/// One fully composited frame: the whole canvas at one point of playback,
/// paired with the source delta's display delay.
pub struct CompositedFrame {
    /// The full canvas, row-major, one entry per canvas pixel.
    pub pixels: Vec<Rgba>,
    /// Display delay in units of 10 ms, copied verbatim from the delta.
    pub delay: u16,
}

/// The mathematical shadow of a [`CompositedFrame`].
pub ghost struct CompositedFrameView {
    /// The full canvas at this point of playback.
    pub pixels: Seq<Rgba>,
    /// Display delay in units of 10 ms.
    pub delay: u16,
}

impl View for CompositedFrame {
    type V = CompositedFrameView;

    open spec fn view(&self) -> CompositedFrameView {
        CompositedFrameView { pixels: self.pixels@, delay: self.delay }
    }
}

/// Whether canvas cell `k` of a `cw`-wide canvas lies inside the delta's
/// region.
pub open spec fn in_region(k: int, cw: int, d: FrameDeltaView) -> bool {
    &&& d.top <= k / cw < d.top + d.height
    &&& d.left <= k % cw < d.left + d.width
}

/// The row-major index inside the delta's own buffer of canvas cell `k`.
pub open spec fn region_idx(k: int, cw: int, d: FrameDeltaView) -> int {
    (k / cw - d.top) * d.width + (k % cw - d.left)
}

/// A delta fits a `cw`-by-`ch` canvas when its region lies inside the canvas
/// and its buffer holds exactly four bytes per region pixel.
pub open spec fn delta_wf(d: FrameDeltaView, cw: int, ch: int) -> bool {
    &&& d.left + d.width <= cw
    &&& d.top + d.height <= ch
    &&& d.pixels.len() == 4 * (d.width * d.height)
}

/// The canvas after the first `n` delta pixels (in the delta's row-major
/// order) were blitted: a delta pixel with zero alpha is not written, so the
/// canvas shows through.
pub open spec fn blit_upto(c: Seq<Rgba>, cw: int, d: FrameDeltaView, n: int) -> Seq<Rgba> {
    Seq::new(
        c.len(),
        |k: int|
            if in_region(k, cw, d) && region_idx(k, cw, d) < n && rgba_of(d.pixels)[region_idx(
                k,
                cw,
                d,
            )].a != 0 {
                rgba_of(d.pixels)[region_idx(k, cw, d)]
            } else {
                c[k]
            },
    )
}

/// The canvas after the whole delta was blitted.
pub open spec fn blit(c: Seq<Rgba>, cw: int, d: FrameDeltaView) -> Seq<Rgba> {
    blit_upto(c, cw, d, d.width * d.height)
}

/// The canvas after the first `n` region pixels were cleared to transparent.
pub open spec fn clear_upto(c: Seq<Rgba>, cw: int, d: FrameDeltaView, n: int) -> Seq<Rgba> {
    Seq::new(
        c.len(),
        |k: int|
            if in_region(k, cw, d) && region_idx(k, cw, d) < n {
                clear_px()
            } else {
                c[k]
            },
    )
}

/// The canvas after the first `n` region pixels were reverted to `before`.
pub open spec fn restore_upto(c: Seq<Rgba>, cw: int, d: FrameDeltaView, before: Seq<Rgba>, n: int) -> Seq<
    Rgba,
> {
    Seq::new(
        c.len(),
        |k: int|
            if in_region(k, cw, d) && region_idx(k, cw, d) < n {
                before[k]
            } else {
                c[k]
            },
    )
}

/// The canvas handed to the next delta: `shown` is the canvas as just
/// displayed, `before` the canvas from just before this delta was blitted.
pub open spec fn dispose(before: Seq<Rgba>, shown: Seq<Rgba>, cw: int, d: FrameDeltaView) -> Seq<
    Rgba,
> {
    match d.disposal {
        Disposal::Keep => shown,
        Disposal::Background => clear_upto(shown, cw, d, d.width * d.height),
        Disposal::Previous => restore_upto(shown, cw, d, before, d.width * d.height),
    }
}

/// All deltas of a sequence fit the canvas.
pub open spec fn frames_wf(frames: Seq<FrameDeltaView>, cw: int, ch: int) -> bool {
    forall|i: int| 0 <= i < frames.len() ==> delta_wf(#[trigger] frames[i], cw, ch)
}

/// The composited snapshots produced by feeding `frames`, in order, to a
/// compositor whose canvas starts as `canvas`: each delta is blitted, the
/// canvas is snapshotted, and the delta's disposal rule prepares the canvas
/// for its successor.
pub open spec fn composite_from(canvas: Seq<Rgba>, cw: int, frames: Seq<FrameDeltaView>) -> Seq<
    CompositedFrameView,
>
    decreases frames.len(),
{
    if frames.len() == 0 {
        Seq::empty()
    } else {
        let d = frames[0];
        let shown = blit(canvas, cw, d);
        seq![CompositedFrameView { pixels: shown, delay: d.delay }] + composite_from(
            dispose(canvas, shown, cw, d),
            cw,
            frames.drop_first(),
        )
    }
}

/// The all-transparent canvas of a `w`-by-`h` screen.
pub open spec fn clear_canvas(w: int, h: int) -> Seq<Rgba> {
    Seq::new((w * h) as nat, |k: int| clear_px())
}

/// Law: compositing preserves the frame count and the per-frame timing.  The
/// composited sequence has exactly one snapshot per delta, each snapshot's
/// delay is the delta's delay copied verbatim, and every snapshot covers the
/// whole canvas.
pub proof fn lemma_composite_preserves_timing(
    canvas: Seq<Rgba>,
    cw: int,
    frames: Seq<FrameDeltaView>,
)
    ensures
        composite_from(canvas, cw, frames).len() == frames.len(),
        forall|i: int|
            0 <= i < frames.len() ==> #[trigger] composite_from(canvas, cw, frames)[i].delay
                == frames[i].delay,
        forall|i: int|
            0 <= i < frames.len() ==> #[trigger] composite_from(canvas, cw, frames)[i].pixels.len()
                == canvas.len(),
    decreases frames.len(),
{
    if frames.len() > 0 {
        let d = frames[0];
        let shown = blit(canvas, cw, d);
        let rest = composite_from(dispose(canvas, shown, cw, d), cw, frames.drop_first());
        lemma_composite_preserves_timing(dispose(canvas, shown, cw, d), cw, frames.drop_first());
        assert forall|i: int| 0 <= i < frames.len() implies #[trigger] composite_from(
            canvas,
            cw,
            frames,
        )[i].delay == frames[i].delay && composite_from(canvas, cw, frames)[i].pixels.len()
            == canvas.len() by {
            if i > 0 {
                assert(composite_from(canvas, cw, frames)[i] == rest[i - 1]);
                assert(frames.drop_first()[i - 1] == frames[i]);
            }
        }
    }
}

/// Unfolds one step of [`composite_from`]: the head snapshot and the tail.
pub proof fn lemma_composite_step(canvas: Seq<Rgba>, cw: int, frames: Seq<FrameDeltaView>)
    requires
        frames.len() > 0,
    ensures
        composite_from(canvas, cw, frames).len() == frames.len(),
        composite_from(canvas, cw, frames)[0] == (CompositedFrameView {
            pixels: blit(canvas, cw, frames[0]),
            delay: frames[0].delay,
        }),
        composite_from(canvas, cw, frames).drop_first() == composite_from(
            dispose(canvas, blit(canvas, cw, frames[0]), cw, frames[0]),
            cw,
            frames.drop_first(),
        ),
{
    lemma_composite_preserves_timing(canvas, cw, frames);
    let d = frames[0];
    let shown = blit(canvas, cw, d);
    let rest = composite_from(dispose(canvas, shown, cw, d), cw, frames.drop_first());
    assert(composite_from(canvas, cw, frames).drop_first() =~= rest);
}

/// The product of two 16-bit values stays below 2^32.
proof fn lemma_u16_prod_bound(a: int, b: int)
    requires
        0 <= a < 0x10000,
        0 <= b < 0x10000,
    ensures
        0 <= a * b <= 0xfffe0001,
{
    assert(0 <= a * b <= 0xfffe0001) by (nonlinear_arith)
        requires
            0 <= a < 0x10000,
            0 <= b < 0x10000,
    ;
}

/// A cell inside the delta's region has a region index inside the delta's
/// buffer.
proof fn lemma_region_idx_bound(cw: int, d: FrameDeltaView, k: int)
    requires
        cw > 0,
        d.left + d.width <= cw,
        in_region(k, cw, d),
    ensures
        0 <= region_idx(k, cw, d) < d.width * d.height,
{
    let row = k / cw - d.top;
    let col = k % cw - d.left;
    assert(0 <= row < d.height && 0 <= col < d.width);
    assert(0 <= row * d.width + col < d.width * d.height) by (nonlinear_arith)
        requires
            0 <= row < d.height,
            0 <= col < d.width,
    ;
}

/// Canvas cell `(d.top + row) * cw + (d.left + col)` is the unique cell whose
/// region index is `row * d.width + col`.
proof fn lemma_region_cell(cw: int, d: FrameDeltaView, row: int, col: int, k: int)
    requires
        0 <= row < d.height,
        0 <= col < d.width,
        k == (d.top + row) * cw + (d.left + col),
        d.left + d.width <= cw,
        cw > 0,
    ensures
        in_region(k, cw, d),
        region_idx(k, cw, d) == row * d.width + col,
        forall|j: int|
            0 <= j && in_region(j, cw, d) && #[trigger] region_idx(j, cw, d) == row * d.width + col
                ==> j == k,
{
    lemma_fundamental_div_mod_converse(k, cw, d.top + row, d.left + col);
    assert forall|j: int|
        0 <= j && in_region(j, cw, d) && #[trigger] region_idx(j, cw, d) == row * d.width
            + col implies j == k by {
        let rj = j / cw - d.top;
        let cj = j % cw - d.left;
        assert(0 <= rj && 0 <= cj < d.width);
        assert(rj * d.width + cj == row * d.width + col);
        assert(rj == row && cj == col) by (nonlinear_arith)
            requires
                rj * d.width + cj == row * d.width + col,
                0 <= cj < d.width,
                0 <= col < d.width,
                0 <= rj,
                0 <= row,
        ;
        lemma_fundamental_div_mod(j, cw);
        assert(j == cw * (j / cw) + j % cw);
        assert(j / cw == d.top + row);
        assert(j % cw == d.left + col);
        assert(cw * (d.top + row) == (d.top + row) * cw) by (nonlinear_arith);
    }
}

/// The disposal-aware compositor: owns the canvas for one decode pass and
/// yields one composited snapshot per delta, in arrival order.
pub struct Compositor {
    width: u16,
    height: u16,
    canvas: Vec<Rgba>,
}

impl Compositor {
    /// The canvas width this compositor was opened with.
    pub closed spec fn spec_width(&self) -> u16 {
        self.width
    }

    /// The canvas height this compositor was opened with.
    pub closed spec fn spec_height(&self) -> u16 {
        self.height
    }

    /// The current canvas contents.
    pub closed spec fn canvas_view(&self) -> Seq<Rgba> {
        self.canvas@
    }

    /// The canvas always holds exactly one pixel per screen cell.
    pub open spec fn wf(&self) -> bool {
        self.canvas_view().len() == self.spec_width() * self.spec_height()
    }

    /// Opens a compositor for a `width`-by-`height` logical screen, with the
    /// canvas fully transparent.
    pub fn new(width: u16, height: u16) -> (c: Compositor)
        ensures
            c.wf(),
            c.spec_width() == width,
            c.spec_height() == height,
            c.canvas_view() == clear_canvas(width as int, height as int),
    {
        proof {
            assert(width * height <= u32::MAX) by (nonlinear_arith)
                requires
                    width <= u16::MAX,
                    height <= u16::MAX,
            ;
        }
        let n: usize = (width as usize) * (height as usize);
        let mut canvas: Vec<Rgba> = Vec::new();
        let mut i: usize = 0;
        while i < n
            invariant
                i <= n,
                canvas@.len() == i,
                forall|k: int| 0 <= k < i ==> canvas@[k] == clear_px(),
            decreases n - i,
        {
            canvas.push(Rgba { r: 0, g: 0, b: 0, a: 0 });
            i = i + 1;
        }
        let c = Compositor { width, height, canvas };
        proof {
            assert(c.canvas_view() =~= clear_canvas(width as int, height as int));
        }
        c
    }

    /// Consumes one delta: blits it onto the canvas, snapshots the canvas as
    /// the frame a viewer would see, then applies the delta's disposal rule to
    /// prepare the canvas for the next delta.  A delta that does not fit the
    /// canvas is malformed input and leaves the canvas untouched.
    pub fn next_frame(&mut self, d: &FrameDelta) -> (r: Result<CompositedFrame, ImgError>)
        requires
            old(self).wf(),
        ensures
            final(self).wf(),
            final(self).spec_width() == old(self).spec_width(),
            final(self).spec_height() == old(self).spec_height(),
            r is Ok <==> delta_wf(
                d@,
                old(self).spec_width() as int,
                old(self).spec_height() as int,
            ),
            r matches Ok(f) ==> f@.pixels.len() == old(self).spec_width() * old(
                self,
            ).spec_height(),
            r matches Ok(f) ==> f@ == (CompositedFrameView {
                pixels: blit(old(self).canvas_view(), old(self).spec_width() as int, d@),
                delay: d@.delay,
            }) && final(self).canvas_view() == dispose(
                old(self).canvas_view(),
                blit(old(self).canvas_view(), old(self).spec_width() as int, d@),
                old(self).spec_width() as int,
                d@,
            ),
            r matches Err(e) ==> e == ImgError::DecodeError && final(self).canvas_view() == old(
                self,
            ).canvas_view(),
    {
        let cw = self.width;
        let ch = self.height;
        proof {
            lemma_u16_prod_bound(d.width as int, d.height as int);
        }
        if !((d.left as u32 + d.width as u32 <= cw as u32) && (d.top as u32 + d.height as u32
            <= ch as u32) && (d.pixels.len() as u64 == 4u64 * ((d.width as u64) * (d.height
            as u64)))) {
            return Err(ImgError::DecodeError);
        }
        if cw == 0 || ch == 0 {
            // the region check above forces an empty delta; nothing to do
            let snap = copy_pixels(&self.canvas);
            proof {
                assert(blit(self.canvas@, cw as int, d@) =~= self.canvas@);
                assert(dispose(self.canvas@, self.canvas@, cw as int, d@) =~= self.canvas@);
            }
            return Ok(CompositedFrame { pixels: snap, delay: d.delay });
        }
        let ghost c0 = self.canvas@;
        let ghost cwi = cw as int;
        let ghost dv = d@;
        // cache the pre-blit region when the disposal rule will need it
        let saved: Option<Vec<Rgba>> = match d.disposal {
            Disposal::Previous => Some(
                crop_buffer(
                    &self.canvas,
                    cw as u32,
                    ch as u32,
                    d.left as u32,
                    d.top as u32,
                    d.width as u32,
                    d.height as u32,
                ),
            ),
            _ => None,
        };
        self.blit_delta(d);
        let ghost shown = self.canvas@;
        proof {
            assert(shown == blit(c0, cwi, dv));
        }
        let snap = copy_pixels(&self.canvas);
        match d.disposal {
            Disposal::Keep => {},
            Disposal::Background => {
                self.clear_delta(d);
            },
            Disposal::Previous => {
                if let Some(ref before) = saved {
                    self.restore_delta(d, before);
                    proof {
                        let after = self.canvas@;
                        let target = restore_upto(shown, cwi, dv, c0, (dv.width * dv.height) as int);
                        assert forall|k: int| 0 <= k < after.len() implies after[k] == target[k] by {
                            if in_region(k, cwi, dv) {
                                lemma_region_roundtrip(
                                    c0,
                                    cwi,
                                    self.spec_height() as int,
                                    dv,
                                    k,
                                );
                            }
                        }
                        assert(after =~= target);
                    }
                }
            },
        }
        Ok(CompositedFrame { pixels: snap, delay: d.delay })
    }

    /// Blits the delta's region onto the canvas, skipping zero-alpha pixels.
    fn blit_delta(&mut self, d: &FrameDelta)
        requires
            old(self).wf(),
            delta_wf(d@, old(self).spec_width() as int, old(self).spec_height() as int),
            old(self).spec_width() > 0,
        ensures
            final(self).wf(),
            final(self).spec_width() == old(self).spec_width(),
            final(self).spec_height() == old(self).spec_height(),
            final(self).canvas_view() == blit(
                old(self).canvas_view(),
                old(self).spec_width() as int,
                d@,
            ),
    {
        let ghost c0 = self.canvas@;
        let ghost cwi = self.width as int;
        let ghost dv = d@;
        let cw = self.width;
        let w = d.width;
        let h = d.height;
        proof {
            assert(blit_upto(c0, cwi, dv, 0) =~= c0);
        }
        let mut row: u16 = 0;
        while row < h
            invariant
                row <= h,
                self.spec_width() == cw,
                self.width == cw,
                self.spec_height() == old(self).spec_height(),
                d@ == dv,
                dv.width == w,
                dv.height == h,
                delta_wf(dv, cwi, self.spec_height() as int),
                cwi == cw as int,
                cw > 0,
                self.canvas@.len() == c0.len(),
                c0.len() == cw * self.spec_height(),
                self.canvas@ == blit_upto(c0, cwi, dv, (row * w) as int),
            decreases h - row,
        {
            let mut col: u16 = 0;
            proof {
                assert(row * w + w <= w * h && (row + 1) * w == row * w + w) by (nonlinear_arith)
                    requires
                        row < h,
                ;
            }
            while col < w
                invariant
                    col <= w,
                    row < h,
                    self.spec_width() == cw,
                    self.width == cw,
                    self.spec_height() == old(self).spec_height(),
                    d@ == dv,
                    dv.width == w,
                    dv.height == h,
                    delta_wf(dv, cwi, self.spec_height() as int),
                    cwi == cw as int,
                    cw > 0,
                    self.canvas@.len() == c0.len(),
                    c0.len() == cw * self.spec_height(),
                    row * w + w <= w * h,
                    self.canvas@ == blit_upto(c0, cwi, dv, (row * w + col) as int),
                decreases w - col,
            {
                let ghost n = (row * w + col) as int;
                proof {
                    lemma_u16_prod_bound(w as int, h as int);
                    lemma_delta_pixel(dv, row as int, col as int);
                }
                let plen: usize = d.pixels.len();
                let pidx: usize = (row as usize) * (w as usize) + (col as usize);
                let base: usize = 4 * pidx;
                let pr = d.pixels[base];
                let pg = d.pixels[base + 1];
                let pb = d.pixels[base + 2];
                let pa = d.pixels[base + 3];
                let ghost px = rgba_of(dv.pixels)[n];
                proof {
                    assert(px == (Rgba { r: pr, g: pg, b: pb, a: pa }));
                }
                let ghost kk: int = (dv.top + row) * cwi + (dv.left + col);
                proof {
                    lemma_u16_prod_bound(cwi, self.spec_height() as int);
                    assert(0 <= kk < cwi * self.spec_height()) by (nonlinear_arith)
                        requires
                            kk == (dv.top + row) * cwi + (dv.left + col),
                            0 <= dv.top + row < self.spec_height(),
                            0 <= dv.left + col < cwi,
                            cwi > 0,
                    ;
                    assert(cw * self.spec_height() == cwi * self.spec_height());
                    lemma_region_cell(cwi, dv, row as int, col as int, kk);
                }
                let cidx: usize = ((d.top + row) as usize) * (cw as usize) + ((d.left + col)
                    as usize);
                if pa != 0 {
                    self.canvas.set(cidx, Rgba { r: pr, g: pg, b: pb, a: pa });
                }
                proof {
                    assert forall|j: int| 0 <= j < c0.len() implies self.canvas@[j] == blit_upto(
                        c0,
                        cwi,
                        dv,
                        n + 1,
                    )[j] by {
                        if j != cidx as int && in_region(j, cwi, dv) && region_idx(j, cwi, dv)
                            == n {
                            assert(false);
                        }
                    }
                    assert(self.canvas@ =~= blit_upto(c0, cwi, dv, n + 1));
                }
                col = col + 1;
            }
            row = row + 1;
        }
        proof {
            assert(h * w == w * h) by (nonlinear_arith);
        }
    }

    /// Clears the delta's region to fully transparent.
    fn clear_delta(&mut self, d: &FrameDelta)
        requires
            old(self).wf(),
            delta_wf(d@, old(self).spec_width() as int, old(self).spec_height() as int),
            old(self).spec_width() > 0,
        ensures
            final(self).wf(),
            final(self).spec_width() == old(self).spec_width(),
            final(self).spec_height() == old(self).spec_height(),
            final(self).canvas_view() == clear_upto(
                old(self).canvas_view(),
                old(self).spec_width() as int,
                d@,
                d@.width * d@.height,
            ),
    {
        let ghost c0 = self.canvas@;
        let ghost cwi = self.width as int;
        let ghost dv = d@;
        let cw = self.width;
        let w = d.width;
        let h = d.height;
        proof {
            assert(clear_upto(c0, cwi, dv, 0) =~= c0);
        }
        let mut row: u16 = 0;
        while row < h
            invariant
                row <= h,
                self.spec_width() == cw,
                self.width == cw,
                self.spec_height() == old(self).spec_height(),
                d@ == dv,
                dv.width == w,
                dv.height == h,
                delta_wf(dv, cwi, self.spec_height() as int),
                cwi == cw as int,
                cw > 0,
                self.canvas@.len() == c0.len(),
                c0.len() == cw * self.spec_height(),
                self.canvas@ == clear_upto(c0, cwi, dv, (row * w) as int),
            decreases h - row,
        {
            let mut col: u16 = 0;
            proof {
                assert(row * w + w <= w * h && (row + 1) * w == row * w + w) by (nonlinear_arith)
                    requires
                        row < h,
                ;
            }
            while col < w
                invariant
                    col <= w,
                    row < h,
                    self.spec_width() == cw,
                    self.width == cw,
                    self.spec_height() == old(self).spec_height(),
                    d@ == dv,
                    dv.width == w,
                    dv.height == h,
                    delta_wf(dv, cwi, self.spec_height() as int),
                    cwi == cw as int,
                    cw > 0,
                    self.canvas@.len() == c0.len(),
                    c0.len() == cw * self.spec_height(),
                    row * w + w <= w * h,
                    self.canvas@ == clear_upto(c0, cwi, dv, (row * w + col) as int),
                decreases w - col,
            {
                let ghost n = (row * w + col) as int;
                let ghost kk: int = (dv.top + row) * cwi + (dv.left + col);
                proof {
                    lemma_u16_prod_bound(cwi, self.spec_height() as int);
                    assert(0 <= kk < cwi * self.spec_height()) by (nonlinear_arith)
                        requires
                            kk == (dv.top + row) * cwi + (dv.left + col),
                            0 <= dv.top + row < self.spec_height(),
                            0 <= dv.left + col < cwi,
                            cwi > 0,
                    ;
                    assert(cw * self.spec_height() == cwi * self.spec_height());
                    lemma_region_cell(cwi, dv, row as int, col as int, kk);
                }
                let cidx: usize = ((d.top + row) as usize) * (cw as usize) + ((d.left + col)
                    as usize);
                self.canvas.set(cidx, Rgba { r: 0, g: 0, b: 0, a: 0 });
                proof {
                    assert forall|j: int| 0 <= j < c0.len() implies self.canvas@[j] == clear_upto(
                        c0,
                        cwi,
                        dv,
                        n + 1,
                    )[j] by {
                        if j != cidx as int && in_region(j, cwi, dv) && region_idx(j, cwi, dv)
                            == n {
                            assert(false);
                        }
                    }
                    assert(self.canvas@ =~= clear_upto(c0, cwi, dv, n + 1));
                }
                col = col + 1;
            }
            row = row + 1;
        }
        proof {
            assert(h * w == w * h) by (nonlinear_arith);
        }
    }

    /// Reverts the delta's region to the cached pre-blit pixels.
    fn restore_delta(&mut self, d: &FrameDelta, before: &Vec<Rgba>)
        requires
            old(self).wf(),
            delta_wf(d@, old(self).spec_width() as int, old(self).spec_height() as int),
            old(self).spec_width() > 0,
            before@.len() == d@.width * d@.height,
        ensures
            final(self).wf(),
            final(self).spec_width() == old(self).spec_width(),
            final(self).spec_height() == old(self).spec_height(),
            final(self).canvas_view().len() == old(self).canvas_view().len(),
            forall|k: int|
                0 <= k < old(self).canvas_view().len() ==> #[trigger] final(self).canvas_view()[k]
                    == if in_region(k, old(self).spec_width() as int, d@) {
                    before@[region_idx(k, old(self).spec_width() as int, d@)]
                } else {
                    old(self).canvas_view()[k]
                },
    {
        let ghost c0 = self.canvas@;
        let ghost cwi = self.width as int;
        let ghost dv = d@;
        let cw = self.width;
        let w = d.width;
        let h = d.height;
        let ghost target = Seq::new(
            c0.len(),
            |k: int|
                if in_region(k, cwi, dv) {
                    before@[region_idx(k, cwi, dv)]
                } else {
                    c0[k]
                },
        );
        let ghost upto = |n: int|
            Seq::new(
                c0.len(),
                |k: int|
                    if in_region(k, cwi, dv) && region_idx(k, cwi, dv) < n {
                        before@[region_idx(k, cwi, dv)]
                    } else {
                        c0[k]
                    },
            );
        proof {
            assert(upto(0) =~= c0);
        }
        let mut row: u16 = 0;
        while row < h
            invariant
                row <= h,
                self.spec_width() == cw,
                self.width == cw,
                self.spec_height() == old(self).spec_height(),
                d@ == dv,
                dv.width == w,
                dv.height == h,
                delta_wf(dv, cwi, self.spec_height() as int),
                cwi == cw as int,
                cw > 0,
                before@.len() == w * h,
                self.canvas@.len() == c0.len(),
                c0.len() == cw * self.spec_height(),
                upto == (|n: int|
                    Seq::new(
                        c0.len(),
                        |k: int|
                            if in_region(k, cwi, dv) && region_idx(k, cwi, dv) < n {
                                before@[region_idx(k, cwi, dv)]
                            } else {
                                c0[k]
                            },
                    )),
                self.canvas@ == upto((row * w) as int),
            decreases h - row,
        {
            let mut col: u16 = 0;
            proof {
                assert(row * w + w <= w * h && (row + 1) * w == row * w + w) by (nonlinear_arith)
                    requires
                        row < h,
                ;
            }
            while col < w
                invariant
                    col <= w,
                    row < h,
                    self.spec_width() == cw,
                    self.width == cw,
                    self.spec_height() == old(self).spec_height(),
                    d@ == dv,
                    dv.width == w,
                    dv.height == h,
                    delta_wf(dv, cwi, self.spec_height() as int),
                    cwi == cw as int,
                    cw > 0,
                    before@.len() == w * h,
                    self.canvas@.len() == c0.len(),
                    c0.len() == cw * self.spec_height(),
                    row * w + w <= w * h,
                    upto == (|n: int|
                        Seq::new(
                            c0.len(),
                            |k: int|
                                if in_region(k, cwi, dv) && region_idx(k, cwi, dv) < n {
                                    before@[region_idx(k, cwi, dv)]
                                } else {
                                    c0[k]
                                },
                        )),
                    self.canvas@ == upto((row * w + col) as int),
                decreases w - col,
            {
                let ghost n = (row * w + col) as int;
                proof {
                    lemma_u16_prod_bound(w as int, h as int);
                    assert(row * w + col < w * h) by (nonlinear_arith)
                        requires
                            row < h,
                            col < w,
                            row * w + w <= w * h,
                    ;
                }
                let pidx: usize = (row as usize) * (w as usize) + (col as usize);
                let px = before[pidx];
                let ghost kk: int = (dv.top + row) * cwi + (dv.left + col);
                proof {
                    lemma_u16_prod_bound(cwi, self.spec_height() as int);
                    assert(0 <= kk < cwi * self.spec_height()) by (nonlinear_arith)
                        requires
                            kk == (dv.top + row) * cwi + (dv.left + col),
                            0 <= dv.top + row < self.spec_height(),
                            0 <= dv.left + col < cwi,
                            cwi > 0,
                    ;
                    assert(cw * self.spec_height() == cwi * self.spec_height());
                    lemma_region_cell(cwi, dv, row as int, col as int, kk);
                }
                let cidx: usize = ((d.top + row) as usize) * (cw as usize) + ((d.left + col)
                    as usize);
                self.canvas.set(cidx, px);
                proof {
                    assert forall|j: int| 0 <= j < c0.len() implies self.canvas@[j] == upto(n + 1)[j]
                        by {
                        if j != cidx as int && in_region(j, cwi, dv) && region_idx(j, cwi, dv)
                            == n {
                            assert(false);
                        }
                    }
                    assert(self.canvas@ =~= upto(n + 1));
                }
                col = col + 1;
            }
            row = row + 1;
        }
        proof {
            assert(h * w == w * h) by (nonlinear_arith);
            assert forall|k: int| 0 <= k < c0.len() implies #[trigger] self.canvas@[k] == if in_region(
                k,
                cwi,
                dv,
            ) {
                before@[region_idx(k, cwi, dv)]
            } else {
                c0[k]
            } by {
                if in_region(k, cwi, dv) {
                    lemma_region_idx_bound(cwi, dv, k);
                }
                assert(self.canvas@ == upto((w * h) as int));
            }
        }
    }
}

/// In the delta's own buffer, pixel `row * width + col` occupies bytes
/// `4 * (row * width + col)` through three past it, and those four bytes are
/// exactly the pixel [`rgba_of`] reads there.
proof fn lemma_delta_pixel(d: FrameDeltaView, row: int, col: int)
    requires
        0 <= row < d.height,
        0 <= col < d.width,
        d.pixels.len() == 4 * (d.width * d.height),
        row * d.width + d.width <= d.width * d.height,
    ensures
        0 <= row * d.width + col,
        row * d.width + col < d.width * d.height,
        4 * (row * d.width + col) + 3 < d.pixels.len(),
        rgba_of(d.pixels).len() == d.width * d.height,
        rgba_of(d.pixels)[row * d.width + col] == (Rgba {
            r: d.pixels[4 * (row * d.width + col)],
            g: d.pixels[4 * (row * d.width + col) + 1],
            b: d.pixels[4 * (row * d.width + col) + 2],
            a: d.pixels[4 * (row * d.width + col) + 3],
        }),
{
    assert(0 <= row * d.width + col && row * d.width + col < d.width * d.height)
        by (nonlinear_arith)
        requires
            0 <= row,
            0 <= col < d.width,
            row * d.width + d.width <= d.width * d.height,
    ;
    assert(d.pixels.len() / 4 == d.width * d.height) by {
        vstd::arithmetic::div_mod::lemma_div_multiples_vanish(
            d.width * d.height,
            4,
        );
    }
}

/// For a canvas cell inside the delta's region, the cached region copy holds
/// exactly the cell's pre-blit pixel: cropping the canvas at the delta's
/// rectangle and indexing it by the cell's region index round-trips.
proof fn lemma_region_roundtrip(c0: Seq<Rgba>, cwi: int, ch: int, dv: FrameDeltaView, k: int)
    requires
        cwi > 0,
        dv.left + dv.width <= cwi,
        dv.top + dv.height <= ch,
        c0.len() == cwi * ch,
        0 <= k < c0.len(),
        in_region(k, cwi, dv),
        dv.width > 0,
    ensures
        0 <= region_idx(k, cwi, dv) < dv.width * dv.height,
        crop_region(
            c0,
            cwi,
            dv.left as int,
            dv.top as int,
            dv.width as int,
            dv.height as int,
        )[region_idx(k, cwi, dv)] == c0[k],
{
    let row = k / cwi - dv.top;
    let col = k % cwi - dv.left;
    let j = region_idx(k, cwi, dv);
    assert(0 <= row < dv.height && 0 <= col < dv.width);
    assert(0 <= j < dv.width * dv.height) by (nonlinear_arith)
        requires
            j == row * dv.width + col,
            0 <= row < dv.height,
            0 <= col < dv.width,
    ;
    lemma_fundamental_div_mod_converse(j, dv.width as int, row, col);
    lemma_fundamental_div_mod(k, cwi);
    assert(crop_region(
        c0,
        cwi,
        dv.left as int,
        dv.top as int,
        dv.width as int,
        dv.height as int,
    )[j] == c0[(dv.top + j / (dv.width as int)) * cwi + dv.left + j % (dv.width as int)]);
    assert((dv.top + row) * cwi + dv.left + col == (k / cwi) * cwi + k % cwi) by (nonlinear_arith)
        requires
            row == k / cwi - dv.top,
            col == k % cwi - dv.left,
    ;
}

/// Copies a pixel buffer.
fn copy_pixels(src: &Vec<Rgba>) -> (out: Vec<Rgba>)
    ensures
        out@ == src@,
{
    let mut out: Vec<Rgba> = Vec::new();
    let mut i: usize = 0;
    while i < src.len()
        invariant
            i <= src@.len(),
            out@ == src@.take(i as int),
        decreases src@.len() - i,
    {
        out.push(src[i]);
        proof {
            assert(out@ =~= src@.take(i + 1));
        }
        i = i + 1;
    }
    proof {
        assert(src@.take(src@.len() as int) =~= src@);
    }
    out
}

} // verus!
