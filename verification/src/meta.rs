//! Metadata extraction: what format, colour model, dimensions and frame
//! count a source reports, computed once per input and repeatable.

use vstd::prelude::*;
use crate::ImgError;
use crate::gifio::{
    gif_hdr_clean,
    gif_hdr_count,
    gif_open,
    gif_screen,
    gif_skip,
    reader_hdr_clean,
    reader_hdr_rem,
};
use crate::sniff::{sniff, sniff_spec, Format};
use crate::stillio::{decode_still, still_parse, ColorModel};

verus! {

/// Common image information: an immutable snapshot computed once per source.
/// `frames` is 1 for still images and the number of stored frames for
/// animated ones, never 0.
#[derive(Clone, Copy, Debug, PartialEq, Eq, Structural)]
pub struct Info {
    /// Container format, from the magic-byte prefix.
    pub format: Format,
    /// Colour model the codec reports for the source.
    pub color: ColorModel,
    /// Width in pixels.
    pub width: u32,
    /// Height in pixels.
    pub height: u32,
    /// Number of frames; greater than 1 only for animated sources.
    pub frames: u32,
}

/// What metadata extraction reports for the given bytes: the sniffed format,
/// the codec's dimensions and colour model, and — for the animated format —
/// the frame count of the cheap header walk.  A source whose dimensions or
/// frame count degenerate to zero is malformed.
pub open spec fn info_spec(bytes: Seq<u8>) -> Result<Info, ImgError> {
    match sniff_spec(bytes) {
        None => Err(ImgError::UnrecognizedFormat),
        Some(fmt) => match still_parse(bytes, fmt) {
            None => Err(ImgError::DecodeError),
            Some(s) => if s.width == 0 || s.height == 0 {
                Err(ImgError::DecodeError)
            } else if fmt == Format::Gif {
                if gif_screen(bytes) is None || !gif_hdr_clean(bytes) || gif_hdr_count(bytes) == 0
                    || gif_hdr_count(bytes) > u32::MAX {
                    Err(ImgError::DecodeError)
                } else {
                    Ok(
                        Info {
                            format: fmt,
                            color: s.color,
                            width: s.width,
                            height: s.height,
                            frames: gif_hdr_count(bytes) as u32,
                        },
                    )
                }
            } else {
                Ok(
                    Info {
                        format: fmt,
                        color: s.color,
                        width: s.width,
                        height: s.height,
                        frames: 1,
                    },
                )
            },
        },
    }
}

/// Reports the format, colour model, dimensions and frame count of an
/// encoded image.  The frame count of an animated source comes from a cheap
/// walk over the frame headers, without decoding pixel payloads; a source
/// with zero frames, zero width or zero height is rejected as malformed.
pub fn info(bytes: &Vec<u8>) -> (r: Result<Info, ImgError>)
    ensures
        r == info_spec(bytes@),
{
    let fmt = match sniff(bytes) {
        Ok(f) => f,
        Err(e) => return Err(e),
    };
    let s = match decode_still(bytes, fmt) {
        Ok(s) => s,
        Err(e) => return Err(e),
    };
    if s.width == 0 || s.height == 0 {
        return Err(ImgError::DecodeError);
    }
    let frames: u32 = if matches!(fmt, Format::Gif) {
        let opened = match gif_open(bytes) {
            Ok(o) => o,
            Err(e) => return Err(e),
        };
        let mut rd = opened.0;
        let mut count: u64 = 0;
        loop
            invariant_except_break
                count + reader_hdr_rem(rd) == gif_hdr_count(bytes@),
                reader_hdr_clean(rd) == gif_hdr_clean(bytes@),
            invariant
                fmt == Format::Gif,
                sniff_spec(bytes@) == Some(fmt),
                still_parse(bytes@, fmt) == Some(s@),
                s.width != 0,
                s.height != 0,
                gif_screen(bytes@) is Some,
                count <= u32::MAX as u64,
            ensures
                gif_hdr_clean(bytes@),
                count as nat == gif_hdr_count(bytes@),
                count <= u32::MAX as u64,
            decreases reader_hdr_rem(rd),
        {
            match gif_skip(&mut rd) {
                Ok(true) => {
                    if count >= u32::MAX as u64 {
                        // one more frame than a count can hold: malformed
                        proof {
                            assert(gif_hdr_count(bytes@) > u32::MAX);
                        }
                        return Err(ImgError::DecodeError);
                    }
                    count = count + 1;
                },
                Ok(false) => {
                    break ;
                },
                Err(e) => {
                    return Err(e);
                },
            }
        }
        if count == 0 {
            return Err(ImgError::DecodeError);
        }
        count as u32
    } else {
        1
    };
    Ok(Info { format: fmt, color: s.color, width: s.width, height: s.height, frames })
}

/// Law: metadata extraction is repeatable — extracting metadata twice from
/// the same unmodified bytes yields identical results, field for field.
pub proof fn lemma_info_repeatable(
    bytes: Seq<u8>,
    r1: Result<Info, ImgError>,
    r2: Result<Info, ImgError>,
)
    requires
        r1 == info_spec(bytes),
        r2 == info_spec(bytes),
    ensures
        r1 == r2,
{
}

} // verus!
