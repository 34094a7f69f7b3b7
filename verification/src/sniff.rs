//! Magic-byte format sniffing: a pure function of the first few bytes of the
//! input.

use vstd::prelude::*;
use crate::ImgError;

verus! {

/// The container formats this crate recognizes.
#[derive(Clone, Copy, Debug, PartialEq, Eq, Structural)]
pub enum Format {
    /// Portable Network Graphics.
    Png,
    /// JPEG/JFIF.
    Jpeg,
    /// Graphics Interchange Format; the one animated container.
    Gif,
    /// WebP inside a RIFF envelope.
    WebP,
    /// Tagged Image File Format, either byte order.
    Tiff,
    /// Windows bitmap.
    Bmp,
    /// Windows icon.
    Ico,
    /// Portable anymap, any of its seven subtypes.
    Pnm,
    /// Radiance HDR.
    Hdr,
}

/// The PNG signature.
pub open spec fn is_png(b: Seq<u8>) -> bool {
    b.len() >= 8 && b[0] == 0x89 && b[1] == 0x50 && b[2] == 0x4e && b[3] == 0x47 && b[4] == 0x0d
        && b[5] == 0x0a && b[6] == 0x1a && b[7] == 0x0a
}

/// The JPEG start-of-image marker.
pub open spec fn is_jpeg(b: Seq<u8>) -> bool {
    b.len() >= 3 && b[0] == 0xff && b[1] == 0xd8 && b[2] == 0xff
}

/// `GIF87a` or `GIF89a`.
pub open spec fn is_gif(b: Seq<u8>) -> bool {
    b.len() >= 6 && b[0] == 0x47 && b[1] == 0x49 && b[2] == 0x46 && b[3] == 0x38 && (b[4] == 0x37
        || b[4] == 0x39) && b[5] == 0x61
}

/// A RIFF envelope whose form type is `WEBP`.
pub open spec fn is_webp(b: Seq<u8>) -> bool {
    b.len() >= 12 && b[0] == 0x52 && b[1] == 0x49 && b[2] == 0x46 && b[3] == 0x46 && b[8] == 0x57
        && b[9] == 0x45 && b[10] == 0x42 && b[11] == 0x50
}

/// `MM\0*` (big endian) or `II*\0` (little endian).
pub open spec fn is_tiff(b: Seq<u8>) -> bool {
    b.len() >= 4 && ((b[0] == 0x4d && b[1] == 0x4d && b[2] == 0x00 && b[3] == 0x2a) || (b[0] == 0x49
        && b[1] == 0x49 && b[2] == 0x2a && b[3] == 0x00))
}

/// `BM`.
pub open spec fn is_bmp(b: Seq<u8>) -> bool {
    b.len() >= 2 && b[0] == 0x42 && b[1] == 0x4d
}

/// The icon directory header, reserved zeroes then type 1.
pub open spec fn is_ico(b: Seq<u8>) -> bool {
    b.len() >= 4 && b[0] == 0x00 && b[1] == 0x00 && b[2] == 0x01 && b[3] == 0x00
}

/// `P1` through `P7`.
pub open spec fn is_pnm(b: Seq<u8>) -> bool {
    b.len() >= 2 && b[0] == 0x50 && 0x31 <= b[1] <= 0x37
}

/// `#?RADIANCE`.
pub open spec fn is_hdr(b: Seq<u8>) -> bool {
    b.len() >= 10 && b[0] == 0x23 && b[1] == 0x3f && b[2] == 0x52 && b[3] == 0x41 && b[4] == 0x44
        && b[5] == 0x49 && b[6] == 0x41 && b[7] == 0x4e && b[8] == 0x43 && b[9] == 0x45
}

/// The format a byte prefix announces, if any.
pub open spec fn sniff_spec(b: Seq<u8>) -> Option<Format> {
    if is_png(b) {
        Some(Format::Png)
    } else if is_jpeg(b) {
        Some(Format::Jpeg)
    } else if is_gif(b) {
        Some(Format::Gif)
    } else if is_webp(b) {
        Some(Format::WebP)
    } else if is_tiff(b) {
        Some(Format::Tiff)
    } else if is_bmp(b) {
        Some(Format::Bmp)
    } else if is_ico(b) {
        Some(Format::Ico)
    } else if is_pnm(b) {
        Some(Format::Pnm)
    } else if is_hdr(b) {
        Some(Format::Hdr)
    } else {
        None
    }
}

/// Identifies the format of an encoded image from its magic-byte prefix.
/// Pure: reads nothing but the given bytes, and fails exactly when no known
/// prefix matches.
pub fn sniff(b: &Vec<u8>) -> (r: Result<Format, ImgError>)
    ensures
        r matches Ok(f) ==> sniff_spec(b@) == Some(f),
        r is Err <==> sniff_spec(b@) is None,
        r matches Err(e) ==> e == ImgError::UnrecognizedFormat,
{
    let n = b.len();
    if n >= 8 && b[0] == 0x89 && b[1] == 0x50 && b[2] == 0x4e && b[3] == 0x47 && b[4] == 0x0d
        && b[5] == 0x0a && b[6] == 0x1a && b[7] == 0x0a {
        Ok(Format::Png)
    } else if n >= 3 && b[0] == 0xff && b[1] == 0xd8 && b[2] == 0xff {
        Ok(Format::Jpeg)
    } else if n >= 6 && b[0] == 0x47 && b[1] == 0x49 && b[2] == 0x46 && b[3] == 0x38 && (b[4]
        == 0x37 || b[4] == 0x39) && b[5] == 0x61 {
        Ok(Format::Gif)
    } else if n >= 12 && b[0] == 0x52 && b[1] == 0x49 && b[2] == 0x46 && b[3] == 0x46 && b[8]
        == 0x57 && b[9] == 0x45 && b[10] == 0x42 && b[11] == 0x50 {
        Ok(Format::WebP)
    } else if n >= 4 && ((b[0] == 0x4d && b[1] == 0x4d && b[2] == 0x00 && b[3] == 0x2a) || (b[0]
        == 0x49 && b[1] == 0x49 && b[2] == 0x2a && b[3] == 0x00)) {
        Ok(Format::Tiff)
    } else if n >= 2 && b[0] == 0x42 && b[1] == 0x4d {
        Ok(Format::Bmp)
    } else if n >= 4 && b[0] == 0x00 && b[1] == 0x00 && b[2] == 0x01 && b[3] == 0x00 {
        Ok(Format::Ico)
    } else if n >= 2 && b[0] == 0x50 && 0x31 <= b[1] && b[1] <= 0x37 {
        Ok(Format::Pnm)
    } else if n >= 10 && b[0] == 0x23 && b[1] == 0x3f && b[2] == 0x52 && b[3] == 0x41 && b[4]
        == 0x44 && b[5] == 0x49 && b[6] == 0x41 && b[7] == 0x4e && b[8] == 0x43 && b[9] == 0x45 {
        Ok(Format::Hdr)
    } else {
        Err(ImgError::UnrecognizedFormat)
    }
}

} // verus!
