//! The transform operations: crop and aspect-preserving resize over encoded
//! bytes, for still sources and for animated ones.
//!
//! Control flow: sniff, extract metadata, validate the request eagerly, then
//! either decode–transform–encode through the still codec, or stream the
//! animated source delta by delta through the compositor, transform each
//! composited snapshot, and write it to a fresh container with its original
//! delay and an infinite loop directive.

use vstd::prelude::*;
use crate::ImgError;
use crate::compositor::{
    clear_canvas,
    composite_from,
    delta_wf,
    frames_wf,
    lemma_composite_preserves_timing,
    lemma_composite_step,
    CompositedFrameView,
    Compositor,
};
use crate::geometry::{crop_buffer, crop_region, fit_dims, resize_dims};
use crate::gifio::{
    gif_clean,
    gif_encoded,
    gif_frames,
    gif_next,
    gif_open,
    gif_screen,
    gif_write_frame,
    gif_writer_finish,
    gif_writer_new,
    reader_clean,
    reader_pending,
    writer_dims,
    writer_written,
    EncFrameView,
};
use crate::meta::{info, info_spec};
use crate::pixels::{bytes_of, bytes_to_rgba, rgba_of, rgba_to_bytes};
use crate::sniff::Format;
use crate::stillio::{
    decode_still,
    encode_still,
    resample,
    resampled,
    still_encoded,
    still_parse,
    StillView,
};

verus! {

/// One validated geometric transform: a sub-rectangle to extract, or the
/// exact output size of an aspect-preserving resize (computed once from the
/// source's metadata, so that the scale never drifts across frames).
#[derive(Clone, Copy, Debug, PartialEq, Eq, Structural)]
pub enum Transform {
    /// Extract the `width`-by-`height` rectangle at `(x, y)`.
    Crop {
        /// Column of the rectangle's left edge.
        x: u32,
        /// Row of the rectangle's top edge.
        y: u32,
        /// Output width.
        width: u32,
        /// Output height.
        height: u32,
    },
    /// Resample to exactly `width`-by-`height`.
    Resize {
        /// Output width.
        width: u32,
        /// Output height.
        height: u32,
    },
}

/// The output dimensions of a transform.
pub open spec fn transform_dims(t: Transform) -> (u32, u32) {
    match t {
        Transform::Crop { x, y, width, height } => (width, height),
        Transform::Resize { width, height } => (width, height),
    }
}

/// Whether a transform can be carried out on a `sw`-by-`sh` canvas whose
/// frames go into an animated container: a crop must lie inside the canvas,
/// and any output size must fit the container's 16-bit dimension fields and
/// the machine's address space.
pub open spec fn transform_fits(t: Transform, sw: u16, sh: u16) -> bool {
    match t {
        Transform::Crop { x, y, width, height } => {
            &&& width >= 1
            &&& height >= 1
            &&& x + width <= sw
            &&& y + height <= sh
        },
        Transform::Resize { width, height } => {
            &&& width <= u16::MAX
            &&& height <= u16::MAX
            &&& 4 * ((width as nat) * (height as nat)) <= usize::MAX
        },
    }
}

/// What one composited snapshot is turned into: a direct pixel copy of the
/// requested rectangle, or a Lanczos resampling to the target size.
pub open spec fn transform_pixels(t: Transform, f: Seq<crate::pixels::Rgba>, sw: u16, sh: u16) -> Seq<
    u8,
> {
    match t {
        Transform::Crop { x, y, width, height } => bytes_of(
            crop_region(f, sw as int, x as int, y as int, width as int, height as int),
        ),
        Transform::Resize { width, height } => resampled(
            bytes_of(f),
            sw as u32,
            sh as u32,
            width,
            height,
        ),
    }
}

/// The frames of the output container: the source's deltas composited in
/// order from a transparent canvas, each snapshot transformed, each delay
/// copied verbatim.
pub open spec fn transform_frames(bytes: Seq<u8>, t: Transform) -> Seq<EncFrameView> {
    let scr = gif_screen(bytes)->Some_0;
    composite_from(clear_canvas(scr.0 as int, scr.1 as int), scr.0 as int, gif_frames(bytes)).map(
        |i: int, f: CompositedFrameView| EncFrameView {
            width: transform_dims(t).0 as u16,
            height: transform_dims(t).1 as u16,
            delay: f.delay,
            pixels: transform_pixels(t, f.pixels, scr.0, scr.1),
        },
    )
}

/// An animated transform succeeds when the container opens, the transform
/// fits its screen, every delta fits the canvas, and the stream ends cleanly.
pub open spec fn gif_transform_ready(bytes: Seq<u8>, t: Transform) -> bool {
    &&& gif_screen(bytes) matches Some(scr)
    &&& transform_fits(t, scr.0, scr.1)
    &&& gif_clean(bytes)
    &&& frames_wf(gif_frames(bytes), scr.0 as int, scr.1 as int)
}

/// The bytes of the finished output container for an animated transform.
pub open spec fn gif_transform_output(bytes: Seq<u8>, t: Transform) -> Seq<u8> {
    gif_encoded(
        transform_dims(t).0 as u16,
        transform_dims(t).1 as u16,
        transform_frames(bytes, t),
    )
}

/// The error an animated transform reports when it cannot run: a container
/// that does not open, a crop that its screen cannot hold, a malformed delta
/// or an unclean stream are decode-side failures; an output size beyond the
/// container's dimension fields or the address space is an encode-side one.
pub open spec fn gif_transform_err(bytes: Seq<u8>, t: Transform) -> ImgError
    recommends
        !gif_transform_ready(bytes, t),
{
    if (gif_screen(bytes) matches Some(scr) && !transform_fits(t, scr.0, scr.1)) && t is Resize {
        ImgError::EncodeError
    } else {
        ImgError::DecodeError
    }
}

/// Law: an animated transform preserves the frame count and the per-frame
/// timing — the output container holds exactly one frame per source delta,
/// each output frame's delay is the corresponding delta's delay unchanged,
/// and every output frame carries the transform's output dimensions.
pub proof fn lemma_transform_preserves_timing(bytes: Seq<u8>, t: Transform)
    requires
        gif_screen(bytes) is Some,
    ensures
        transform_frames(bytes, t).len() == gif_frames(bytes).len(),
        forall|i: int|
            0 <= i < gif_frames(bytes).len() ==> #[trigger] transform_frames(bytes, t)[i].delay
                == gif_frames(bytes)[i].delay,
        forall|i: int|
            0 <= i < gif_frames(bytes).len() ==> #[trigger] transform_frames(bytes, t)[i].width
                == transform_dims(t).0 as u16 && transform_frames(bytes, t)[i].height
                == transform_dims(t).1 as u16,
{
    let scr = gif_screen(bytes)->Some_0;
    lemma_composite_preserves_timing(
        clear_canvas(scr.0 as int, scr.1 as int),
        scr.0 as int,
        gif_frames(bytes),
    );
}

/// The geometry of a crop request against the source dimensions the metadata
/// reports: never clamped, and empty output is refused.
pub open spec fn crop_fits(x: int, y: int, w: int, h: int, sw: int, sh: int) -> bool {
    &&& w >= 1
    &&& h >= 1
    &&& x + w <= sw
    &&& y + h <= sh
}

/// The pixels of a cropped still image.
pub open spec fn still_crop_pixels(s: StillView, x: int, y: int, w: int, h: int) -> Seq<u8> {
    bytes_of(crop_region(rgba_of(s.pixels), s.width as int, x, y, w, h))
}

/// The pixels of a resized still image, at the aspect-fit dimensions.
pub open spec fn still_resize_pixels(s: StillView, mw: int, mh: int) -> Seq<u8> {
    let dims = fit_dims(s.width as int, s.height as int, mw, mh);
    resampled(s.pixels, s.width, s.height, dims.0 as u32, dims.1 as u32)
}

/// Whether a `w`-by-`h` RGBA buffer's byte count fits the machine's address
/// space.
fn rgba_len_fits(w: u32, h: u32) -> (b: bool)
    ensures
        b == (4 * ((w as nat) * (h as nat)) <= usize::MAX),
{
    proof {
        crate::geometry::lemma_u32_mul_fits(w as int, h as int);
    }
    4u128 * ((w as u128) * (h as u128)) <= usize::MAX as u128
}

/// Runs one transform over an animated source: streams the deltas through
/// the compositor, transforms each composited snapshot, and writes it with
/// its original delay into a container sized to the output dimensions with
/// infinite looping.  Succeeds exactly when the source and the request are
/// ready for it, and classifies every failure.
fn transform_gif(bytes: &Vec<u8>, t: Transform) -> (r: Result<Vec<u8>, ImgError>)
    ensures
        r is Ok <==> gif_transform_ready(bytes@, t),
        r matches Ok(out) ==> out@ == gif_transform_output(bytes@, t),
        r matches Err(e) ==> e == gif_transform_err(bytes@, t),
{
    let opened = match gif_open(bytes) {
        Ok(o) => o,
        Err(e) => return Err(e),
    };
    let mut rd = opened.0;
    let sw = opened.1;
    let sh = opened.2;
    match t {
        Transform::Crop { x, y, width, height } => {
            if !(width >= 1 && height >= 1 && x as u64 + width as u64 <= sw as u64 && y as u64
                + height as u64 <= sh as u64) {
                // the container's own screen cannot hold the request
                return Err(ImgError::DecodeError);
            }
        },
        Transform::Resize { width, height } => {
            if !(width as u64 <= u16::MAX as u64 && height as u64 <= u16::MAX as u64
                && rgba_len_fits(width, height)) {
                // the output size does not fit the container's dimension fields
                return Err(ImgError::EncodeError);
            }
        },
    }
    let dims = match t {
        Transform::Crop { x, y, width, height } => (width, height),
        Transform::Resize { width, height } => (width, height),
    };
    let dw: u16 = dims.0 as u16;
    let dh: u16 = dims.1 as u16;
    let mut wr = match gif_writer_new(dw, dh) {
        Ok(w) => w,
        Err(e) => return Err(e),
    };
    let mut comp = Compositor::new(sw, sh);
    let ghost all = gif_frames(bytes@);
    let ghost swi = sw as int;
    let ghost shi = sh as int;
    let ghost c0 = clear_canvas(swi, shi);
    let ghost big = composite_from(c0, swi, all);
    let ghost encf = transform_frames(bytes@, t);
    let ghost mut i: int = 0;
    proof {
        lemma_composite_preserves_timing(c0, swi, all);
        assert(all.skip(0) =~= all);
        assert(big.skip(0) =~= big);
        assert(all.take(0) =~= Seq::<crate::compositor::FrameDeltaView>::empty());
        assert(writer_written(wr) =~= encf.take(0));
    }
    loop
        invariant_except_break
            reader_pending(rd) == all.skip(i),
            reader_clean(rd) == gif_clean(bytes@),
        invariant
            gif_screen(bytes@) == Some((sw, sh)),
            transform_fits(t, sw, sh),
            all == gif_frames(bytes@),
            swi == sw as int,
            shi == sh as int,
            c0 == clear_canvas(swi, shi),
            big == composite_from(c0, swi, all),
            encf == transform_frames(bytes@, t),
            big.len() == all.len(),
            encf.len() == all.len(),
            dims == transform_dims(t),
            dw == dims.0 as u16,
            dh == dims.1 as u16,
            dims.0 as int == dw as int,
            dims.1 as int == dh as int,
            0 <= i <= all.len(),
            comp.wf(),
            comp.spec_width() == sw,
            comp.spec_height() == sh,
            composite_from(comp.canvas_view(), swi, all.skip(i)) == big.skip(i),
            frames_wf(all.take(i), swi, shi),
            writer_dims(wr) == (dw, dh),
            writer_written(wr) == encf.take(i),
        ensures
            i == all.len(),
            gif_clean(bytes@),
            frames_wf(all, swi, shi),
            writer_dims(wr) == (dw, dh),
            writer_written(wr) == encf.take(i),
            encf.len() == all.len(),
        decreases all.len() - i,
    {
        let step = match gif_next(&mut rd) {
            Ok(n) => n,
            Err(e) => {
                return Err(e);
            },
        };
        let delta = match step {
            Some(d) => d,
            None => {
                proof {
                    assert(all.take(i) =~= all);
                }
                break ;
            },
        };
        proof {
            assert(delta@ == all.skip(i)[0]);
            assert(all.skip(i)[0] == all[i]);
        }
        let ghost canvas_before = comp.canvas_view();
        let frame = match comp.next_frame(&delta) {
            Ok(f) => f,
            Err(e) => {
                proof {
                    assert(!frames_wf(all, swi, shi));
                }
                return Err(e);
            },
        };
        proof {
            lemma_composite_step(canvas_before, swi, all.skip(i));
            assert(all.skip(i).drop_first() =~= all.skip(i + 1));
            assert(big.skip(i).drop_first() =~= big.skip(i + 1));
            assert(big.skip(i)[0] == big[i]);
            assert(frame@.pixels == big[i].pixels);
            assert(frame@.delay == big[i].delay);
            assert(composite_from(comp.canvas_view(), swi, all.skip(i + 1)) == big.skip(i + 1));
        }
        let outb: Vec<u8> = match t {
            Transform::Crop { x, y, width, height } => {
                let cropped = crop_buffer(&frame.pixels, sw as u32, sh as u32, x, y, width, height);
                rgba_to_bytes(&cropped)
            },
            Transform::Resize { width, height } => {
                let flat = rgba_to_bytes(&frame.pixels);
                resample(&flat, sw as u32, sh as u32, width, height)
            },
        };
        proof {
            assert(outb@ == transform_pixels(t, big[i].pixels, sw, sh));
            assert(outb@.len() == 4 * ((dw as nat) * (dh as nat))) by {
                match t {
                    Transform::Crop { x, y, width, height } => {
                        assert(outb@.len() == 4 * crop_region(
                            big[i].pixels,
                            swi,
                            x as int,
                            y as int,
                            width as int,
                            height as int,
                        ).len());
                    },
                    Transform::Resize { width, height } => {},
                }
            }
        }
        match gif_write_frame(&mut wr, dw, dh, frame.delay, &outb) {
            Ok(()) => {},
            Err(e) => {
                return Err(e);
            },
        }
        proof {
            assert(encf[i] == EncFrameView {
                width: dw,
                height: dh,
                delay: big[i].delay,
                pixels: transform_pixels(t, big[i].pixels, sw, sh),
            });
            assert(writer_written(wr) =~= encf.take(i + 1));
            assert(all.take(i + 1) =~= all.take(i).push(all[i]));
            assert(frames_wf(all.take(i + 1), swi, shi)) by {
                assert forall|j: int| 0 <= j < i + 1 implies delta_wf(
                    #[trigger] all.take(i + 1)[j],
                    swi,
                    shi,
                ) by {
                    if j < i {
                        assert(all.take(i + 1)[j] == all.take(i)[j]);
                    } else {
                        assert(all.take(i + 1)[j] == all[i]);
                    }
                }
            }
            i = i + 1;
        }
    }
    proof {
        assert(encf.take(i) =~= encf);
    }
    match gif_writer_finish(wr) {
        Ok(out) => Ok(out),
        Err(e) => Err(e),
    }
}

/// Extracts the `width`-by-`height` rectangle at `(x, y)` from an encoded
/// image, returning the re-encoded bytes.  Geometry is validated against the
/// source's metadata before any transform work; a request that exceeds the
/// source dimensions is refused as `OutOfBounds` and produces no output.
/// For an animated source every composited frame is cropped and written with
/// its original delay; the output container loops forever, and a valid
/// request on a well-formed source is guaranteed to succeed.
pub fn crop(bytes: &Vec<u8>, x: u32, y: u32, width: u32, height: u32) -> (r: Result<
    Vec<u8>,
    ImgError,
>)
    ensures
        info_spec(bytes@) matches Err(e) ==> r == Err::<Vec<u8>, ImgError>(e),
        info_spec(bytes@) matches Ok(m) ==> ((r == Err::<Vec<u8>, ImgError>(ImgError::OutOfBounds))
            <==> !crop_fits(
            x as int,
            y as int,
            width as int,
            height as int,
            m.width as int,
            m.height as int,
        )),
        (info_spec(bytes@) matches Ok(m) && m.format == Format::Gif && r is Ok) ==> (
        gif_transform_ready(bytes@, Transform::Crop { x, y, width, height })
            && r->Ok_0@ == gif_transform_output(
            bytes@,
            Transform::Crop { x, y, width, height },
        )),
        info_spec(bytes@) matches Ok(m) ==> ((m.format == Format::Gif && crop_fits(
            x as int,
            y as int,
            width as int,
            height as int,
            m.width as int,
            m.height as int,
        )) ==> ({
            let t = Transform::Crop { x, y, width, height };
            &&& (r is Ok <==> gif_transform_ready(bytes@, t))
            &&& (r matches Err(e) ==> e == gif_transform_err(bytes@, t))
        })),
        info_spec(bytes@) matches Ok(m) ==> ((m.format != Format::Gif && crop_fits(
            x as int,
            y as int,
            width as int,
            height as int,
            m.width as int,
            m.height as int,
        )) ==> ({
            let s = still_parse(bytes@, m.format)->Some_0;
            let enc = still_encoded(
                still_crop_pixels(s, x as int, y as int, width as int, height as int),
                width,
                height,
                m.format,
            );
            &&& (r is Ok <==> enc is Some)
            &&& (r matches Ok(out) ==> Some(out@) == enc)
            &&& (r matches Err(e) ==> e == ImgError::EncodeError)
        })),
{
    let meta = match info(bytes) {
        Ok(m) => m,
        Err(e) => return Err(e),
    };
    let fits = width >= 1 && height >= 1 && x as u64 + width as u64 <= meta.width as u64 && y as u64
        + height as u64 <= meta.height as u64;
    if !fits {
        return Err(ImgError::OutOfBounds);
    }
    if matches!(meta.format, Format::Gif) {
        transform_gif(bytes, Transform::Crop { x, y, width, height })
    } else {
        let s = match decode_still(bytes, meta.format) {
            Ok(s) => s,
            Err(e) => return Err(e),
        };
        let px = bytes_to_rgba(&s.pixels);
        proof {
            vstd::arithmetic::div_mod::lemma_div_multiples_vanish(
                (s.width as int) * (s.height as int),
                4,
            );
        }
        let cropped = crop_buffer(&px, s.width, s.height, x, y, width, height);
        let outb = rgba_to_bytes(&cropped);
        encode_still(&outb, width, height, meta.format)
    }
}

/// Resizes an encoded image to fit inside the `max_width`-by-`max_height`
/// bounding box, preserving the source's aspect ratio with floor-truncated
/// dimensions computed once from the source's metadata.  An empty bounding
/// box is refused as `OutOfBounds` and produces no output.  For an animated
/// source every composited frame is resampled to the same target size and
/// written with its original delay; the output container loops forever, and
/// a request whose target size fits the container on a well-formed source is
/// guaranteed to succeed.
pub fn resize(bytes: &Vec<u8>, max_width: u32, max_height: u32) -> (r: Result<Vec<u8>, ImgError>)
    ensures
        info_spec(bytes@) matches Err(e) ==> r == Err::<Vec<u8>, ImgError>(e),
        info_spec(bytes@) matches Ok(m) ==> ((r == Err::<Vec<u8>, ImgError>(ImgError::OutOfBounds))
            <==> (max_width == 0 || max_height == 0)),
        info_spec(bytes@) matches Ok(m) ==> ((m.format == Format::Gif && r is Ok) ==> ({
            let d = fit_dims(m.width as int, m.height as int, max_width as int, max_height as int);
            let t = Transform::Resize { width: d.0 as u32, height: d.1 as u32 };
            &&& gif_transform_ready(bytes@, t)
            &&& r->Ok_0@ == gif_transform_output(bytes@, t)
        })),
        info_spec(bytes@) matches Ok(m) ==> ((m.format == Format::Gif && max_width >= 1
            && max_height >= 1) ==> ({
            let d = fit_dims(m.width as int, m.height as int, max_width as int, max_height as int);
            let t = Transform::Resize { width: d.0 as u32, height: d.1 as u32 };
            &&& (r is Ok <==> gif_transform_ready(bytes@, t))
            &&& (r matches Err(e) ==> e == gif_transform_err(bytes@, t))
        })),
        info_spec(bytes@) matches Ok(m) ==> ((m.format != Format::Gif && max_width >= 1
            && max_height >= 1) ==> ({
            let s = still_parse(bytes@, m.format)->Some_0;
            let d = fit_dims(m.width as int, m.height as int, max_width as int, max_height as int);
            let enc = still_encoded(
                still_resize_pixels(s, max_width as int, max_height as int),
                d.0 as u32,
                d.1 as u32,
                m.format,
            );
            &&& (r is Ok <==> (4 * ((d.0 as u32 as nat) * (d.1 as u32 as nat)) <= usize::MAX
                && enc is Some))
            &&& (r matches Ok(out) ==> Some(out@) == enc)
            &&& (r matches Err(e) ==> e == ImgError::EncodeError)
        })),
{
    let meta = match info(bytes) {
        Ok(m) => m,
        Err(e) => return Err(e),
    };
    if max_width == 0 || max_height == 0 {
        return Err(ImgError::OutOfBounds);
    }
    let dims = resize_dims(meta.width, meta.height, max_width, max_height);
    let nw = dims.0;
    let nh = dims.1;
    if matches!(meta.format, Format::Gif) {
        transform_gif(bytes, Transform::Resize { width: nw, height: nh })
    } else {
        let s = match decode_still(bytes, meta.format) {
            Ok(s) => s,
            Err(e) => return Err(e),
        };
        if !rgba_len_fits(nw, nh) {
            return Err(ImgError::EncodeError);
        }
        let outb = resample(&s.pixels, s.width, s.height, nw, nh);
        encode_still(&outb, nw, nh, meta.format)
    }
}

} // verus!
