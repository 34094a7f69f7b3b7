//! Trusted bindings to the animated-container codec (the `gif` crate): a
//! pull-based frame reader and a frame writer, both over in-memory byte
//! streams.
//!
//! The reader's state is described by two walks over the source bytes.  The
//! full walk (`gif_frames`, `gif_clean`) decodes pixel payloads and is what
//! the transform pipeline consumes; the header walk (`gif_hdr_count`,
//! `gif_hdr_clean`) skips payloads and is what the cheap frame count of
//! metadata extraction consumes.  One reader is only ever used for one of the
//! two.

use vstd::prelude::*;
use crate::ImgError;
use crate::compositor::{Disposal, FrameDelta, FrameDeltaView};

verus! {

/// The logical screen size the container's header announces, or nothing when
/// the header does not parse.  A function of the bytes alone.
pub uninterp spec fn gif_screen(bytes: Seq<u8>) -> Option<(u16, u16)>;

/// The frame deltas that decode, in order, from the start of the stream —
/// the longest prefix of frames whose headers and pixel payloads both parse,
/// each expanded to RGBA.  A function of the bytes alone.
pub uninterp spec fn gif_frames(bytes: Seq<u8>) -> Seq<FrameDeltaView>;

/// Whether, after the frames of `gif_frames`, the full walk reaches the end
/// of the stream cleanly rather than failing.  A function of the bytes alone.
pub uninterp spec fn gif_clean(bytes: Seq<u8>) -> bool;

/// How many frame headers the payload-skipping walk passes before it ends or
/// fails.  A function of the bytes alone.
pub uninterp spec fn gif_hdr_count(bytes: Seq<u8>) -> nat;

/// Whether the payload-skipping walk ends cleanly after those headers.  A
/// function of the bytes alone.
pub uninterp spec fn gif_hdr_clean(bytes: Seq<u8>) -> bool;

/// A pull-based reader over one in-memory animated container.
#[verifier::external_body]
pub struct GifReader {
    inner: gif::Decoder<std::io::Cursor<Vec<u8>>>,
}

/// The frame deltas the reader's full walk has yet to yield.
pub uninterp spec fn reader_pending(r: GifReader) -> Seq<FrameDeltaView>;

/// Whether the reader's full walk will end cleanly after its pending frames.
pub uninterp spec fn reader_clean(r: GifReader) -> bool;

/// How many headers the reader's payload-skipping walk has yet to pass.
pub uninterp spec fn reader_hdr_rem(r: GifReader) -> nat;

/// Whether the reader's payload-skipping walk will end cleanly.
pub uninterp spec fn reader_hdr_clean(r: GifReader) -> bool;

/// Relies on `gif::DecodeOptions::read_info`, with RGBA colour output:
/// parses the header and the logical screen descriptor and positions the
/// reader before the first frame.
#[verifier::external_body]
pub(crate) fn gif_open(bytes: &Vec<u8>) -> (r: Result<(GifReader, u16, u16), ImgError>)
    ensures
        r is Ok <==> gif_screen(bytes@) is Some,
        r matches Ok(o) ==> ({
            &&& gif_screen(bytes@) == Some((o.1, o.2))
            &&& reader_pending(o.0) == gif_frames(bytes@)
            &&& reader_clean(o.0) == gif_clean(bytes@)
            &&& reader_hdr_rem(o.0) == gif_hdr_count(bytes@)
            &&& reader_hdr_clean(o.0) == gif_hdr_clean(bytes@)
            &&& (reader_clean(o.0) ==> reader_hdr_rem(o.0) == reader_pending(o.0).len()
                && reader_hdr_clean(o.0))
        }),
        r matches Err(e) ==> e == ImgError::DecodeError,
{
    let mut opts = gif::DecodeOptions::new();
    opts.set_color_output(gif::ColorOutput::RGBA);
    match opts.read_info(std::io::Cursor::new(bytes.clone())) {
        Ok(d) => {
            let w = d.width();
            let h = d.height();
            Ok((GifReader { inner: d }, w, h))
        },
        Err(_) => Err(ImgError::DecodeError),
    }
}

/// Relies on `gif::Decoder::read_next_frame`: decodes the next frame delta,
/// deinterlaced and expanded to RGBA (a transparent source pixel gets a zero
/// alpha byte); the `Any` disposal is read as keep-in-place.
#[verifier::external_body]
pub(crate) fn gif_next(r: &mut GifReader) -> (res: Result<Option<FrameDelta>, ImgError>)
    ensures
        reader_pending(*old(r)).len() > 0 ==> ({
            &&& res matches Ok(Some(f)) && f@ == reader_pending(*old(r))[0]
            &&& reader_pending(*final(r)) == reader_pending(*old(r)).drop_first()
            &&& reader_clean(*final(r)) == reader_clean(*old(r))
        }),
        reader_pending(*old(r)).len() == 0 && reader_clean(*old(r)) ==> res matches Ok(None),
        reader_pending(*old(r)).len() == 0 && !reader_clean(*old(r)) ==> res is Err,
        res matches Err(e) ==> e == ImgError::DecodeError,
{
    match r.inner.read_next_frame() {
        Ok(Some(f)) => Ok(Some(FrameDelta {
            left: f.left, top: f.top, width: f.width, height: f.height, delay: f.delay,
            disposal: match f.dispose {
                gif::DisposalMethod::Background => Disposal::Background,
                gif::DisposalMethod::Previous => Disposal::Previous,
                _ => Disposal::Keep,
            },
            pixels: f.buffer.to_vec(),
        })),
        Ok(None) => Ok(None),
        Err(_) => Err(ImgError::DecodeError),
    }
}

/// Relies on `gif::Decoder::next_frame_info`: advances past the next frame
/// without decoding its pixel payload, for cheap frame counting.
#[verifier::external_body]
pub(crate) fn gif_skip(r: &mut GifReader) -> (res: Result<bool, ImgError>)
    ensures
        reader_hdr_rem(*old(r)) > 0 ==> ({
            &&& res == Ok::<bool, ImgError>(true)
            &&& reader_hdr_rem(*final(r)) == reader_hdr_rem(*old(r)) - 1
            &&& reader_hdr_clean(*final(r)) == reader_hdr_clean(*old(r))
        }),
        reader_hdr_rem(*old(r)) == 0 && reader_hdr_clean(*old(r)) ==> (res matches Ok(more) && more
            == false),
        reader_hdr_rem(*old(r)) == 0 && !reader_hdr_clean(*old(r)) ==> (res matches Err(e) && e
            == ImgError::DecodeError),
{
    match r.inner.next_frame_info() {
        Ok(Some(_)) => Ok(true),
        Ok(None) => Ok(false),
        Err(_) => Err(ImgError::DecodeError),
    }
}

/// One frame as handed to the output container: its size, its delay, and its
/// full-precision RGBA bytes from before palette quantization.
pub ghost struct EncFrameView {
    /// Frame width.
    pub width: u16,
    /// Frame height.
    pub height: u16,
    /// Display delay in units of 10 ms.
    pub delay: u16,
    /// Raw RGBA bytes, four per pixel.
    pub pixels: Seq<u8>,
}

/// A writer assembling one in-memory animated container.
#[verifier::external_body]
pub struct GifWriter {
    inner: gif::Encoder<Vec<u8>>,
}

/// The screen size the writer was opened with.
pub uninterp spec fn writer_dims(w: GifWriter) -> (u16, u16);

/// The frames written so far, in order.
pub uninterp spec fn writer_written(w: GifWriter) -> Seq<EncFrameView>;

/// The byte stream of a finished container with the given screen size, an
/// infinite loop directive, and exactly these frames in order, each quantized
/// to the container's palette form.  A function of the arguments alone.
pub uninterp spec fn gif_encoded(width: u16, height: u16, frames: Seq<EncFrameView>) -> Seq<u8>;

/// Relies on `gif::Encoder::new` and `gif::Encoder::set_repeat`: opens an
/// in-memory container sized to the given screen, with no global palette and
/// the loop directive set to infinite.  Both write into an in-memory buffer,
/// which cannot fail, so the container always opens.
#[verifier::external_body]
pub(crate) fn gif_writer_new(width: u16, height: u16) -> (r: Result<GifWriter, ImgError>)
    ensures
        r is Ok,
        r matches Ok(w) ==> writer_dims(w) == (width, height) && writer_written(w).len() == 0,
{
    let mut enc = match gif::Encoder::new(Vec::new(), width, height, &[]) {
        Ok(e) => e,
        Err(_) => return Err(ImgError::EncodeError),
    };
    match enc.set_repeat(gif::Repeat::Infinite) {
        Ok(()) => Ok(GifWriter { inner: enc }),
        Err(_) => Err(ImgError::EncodeError),
    }
}

/// Relies on `gif::Frame::from_rgba` and `gif::Encoder::write_frame`:
/// quantizes the RGBA buffer to palette form and appends it as one frame with
/// the given delay.  The quantized palette never exceeds the container's 256
/// colours and the block lands in an in-memory buffer, so the write always
/// succeeds.
#[verifier::external_body]
pub(crate) fn gif_write_frame(
    w: &mut GifWriter,
    width: u16,
    height: u16,
    delay: u16,
    pixels: &Vec<u8>,
) -> (r: Result<(), ImgError>)
    requires
        pixels@.len() == 4 * ((width as nat) * (height as nat)),
    ensures
        r is Ok,
        writer_dims(*final(w)) == writer_dims(*old(w)),
        writer_written(*final(w)) == writer_written(*old(w)).push(
            EncFrameView { width, height, delay, pixels: pixels@ },
        ),
{
    let mut buf = pixels.clone();
    let mut frame = gif::Frame::from_rgba(width, height, &mut buf);
    frame.delay = delay;
    match w.inner.write_frame(&frame) {
        Ok(()) => Ok(()),
        Err(_) => Err(ImgError::EncodeError),
    }
}

/// Relies on `gif::Encoder::into_inner`: writes the trailer — into the
/// in-memory buffer, which cannot fail — and hands back the finished
/// container bytes.
#[verifier::external_body]
pub(crate) fn gif_writer_finish(w: GifWriter) -> (r: Result<Vec<u8>, ImgError>)
    ensures
        r is Ok,
        r matches Ok(out) ==> out@ == gif_encoded(
            writer_dims(w).0,
            writer_dims(w).1,
            writer_written(w),
        ),
{
    match w.inner.into_inner() {
        Ok(v) => Ok(v),
        Err(_) => Err(ImgError::EncodeError),
    }
}

} // verus!
