//! Trusted bindings to the generic still-image codec collaborator (the
//! `image` crate): decoding to RGBA, encoding from RGBA, and high-quality
//! resampling.  Every result is a function of the arguments alone, so each is
//! given a name that the verified pipeline's contracts speak of.

use vstd::prelude::*;
use crate::ImgError;
use crate::sniff::Format;

verus! {

/// The colour model the codec reports for a decoded image, as the number of
/// channels and the number of bytes one pixel occupies in the source.
#[derive(Clone, Copy, Debug, PartialEq, Eq, Structural)]
pub struct ColorModel {
    /// Number of channels (1 for luma, 2 for luma with alpha, 3 for RGB, 4
    /// for RGBA).
    pub channels: u8,
    /// Bytes one source pixel occupies.
    pub bytes_per_pixel: u8,
}

/// A decoded still image: the first (or only) visual frame expanded to RGBA,
/// with the source's dimensions and colour model.
pub struct StillImage {
    /// Width in pixels.
    pub width: u32,
    /// Height in pixels.
    pub height: u32,
    /// The source's colour model.
    pub color: ColorModel,
    /// Raw RGBA bytes, four per pixel, row-major.
    pub pixels: Vec<u8>,
}

/// The mathematical shadow of a [`StillImage`].
pub ghost struct StillView {
    /// Width in pixels.
    pub width: u32,
    /// Height in pixels.
    pub height: u32,
    /// The source's colour model.
    pub color: ColorModel,
    /// Raw RGBA bytes.
    pub pixels: Seq<u8>,
}

impl View for StillImage {
    type V = StillView;

    open spec fn view(&self) -> StillView {
        StillView {
            width: self.width,
            height: self.height,
            color: self.color,
            pixels: self.pixels@,
        }
    }
}

/// What the codec decodes the given bytes to under the given format — the
/// RGBA expansion of the first visual frame, its dimensions and colour model
/// — or nothing, when the codec rejects the stream.  A function of the
/// arguments alone.
pub uninterp spec fn still_parse(bytes: Seq<u8>, fmt: Format) -> Option<StillView>;

/// The byte stream the codec encodes the given RGBA buffer to under the given
/// format, or nothing when the codec cannot write that format.  A function of
/// the arguments alone.
pub uninterp spec fn still_encoded(pixels: Seq<u8>, width: u32, height: u32, fmt: Format) -> Option<
    Seq<u8>,
>;

/// The Lanczos resampling of a `sw`-by-`sh` RGBA buffer to `nw`-by-`nh`.  A
/// function of the arguments alone.
pub uninterp spec fn resampled(pixels: Seq<u8>, sw: u32, sh: u32, nw: u32, nh: u32) -> Seq<u8>;

/// The codec's container format tag.
#[verifier::external_type_specification]
#[verifier::external_body]
pub struct ExImageFormat(image::ImageFormat);

/// Relies on `image::ImageFormat`: the container format tag handed to the
/// codec for each format this crate recognizes.
#[verifier::external_body]
fn to_image_format(fmt: Format) -> image::ImageFormat {
    match fmt {
        Format::Png => image::ImageFormat::Png, Format::Jpeg => image::ImageFormat::Jpeg,
        Format::Gif => image::ImageFormat::Gif, Format::WebP => image::ImageFormat::WebP,
        Format::Tiff => image::ImageFormat::Tiff, Format::Bmp => image::ImageFormat::Bmp,
        Format::Ico => image::ImageFormat::Ico, Format::Pnm => image::ImageFormat::Pnm,
        Format::Hdr => image::ImageFormat::Hdr,
    }
}

/// Relies on `image::load_from_memory_with_format`: decodes the byte stream
/// under the stated format; the decoded frame is expanded to RGBA, four bytes
/// per pixel, and the source's colour model is reported through
/// `ColorType::channel_count` and `ColorType::bytes_per_pixel`.
#[verifier::external_body]
pub(crate) fn decode_still(bytes: &Vec<u8>, fmt: Format) -> (r: Result<StillImage, ImgError>)
    ensures
        r is Ok <==> still_parse(bytes@, fmt) is Some,
        r matches Ok(s) ==> Some(s@) == still_parse(bytes@, fmt) && s.pixels@.len() == 4 * ((
        s.width as nat) * (s.height as nat)),
        r matches Err(e) ==> e == ImgError::DecodeError,
{
    match image::load_from_memory_with_format(bytes.as_slice(), to_image_format(fmt)) {
        Ok(im) => {
            let c = im.color();
            let color = ColorModel { channels: c.channel_count(), bytes_per_pixel: c.bytes_per_pixel() };
            Ok(StillImage { width: im.width(), height: im.height(), color, pixels: im.into_rgba8().into_raw() })
        },
        Err(_) => Err(ImgError::DecodeError),
    }
}

/// Relies on `image::DynamicImage::write_to`: encodes the RGBA buffer in the
/// stated format into an in-memory stream.  JPEG and the anymaps take no
/// alpha channel, so for them the buffer is first flattened to RGB.
#[verifier::external_body]
pub(crate) fn encode_still(pixels: &Vec<u8>, width: u32, height: u32, fmt: Format) -> (r: Result<
    Vec<u8>,
    ImgError,
>)
    requires
        pixels@.len() == 4 * ((width as nat) * (height as nat)),
    ensures
        r is Ok <==> still_encoded(pixels@, width, height, fmt) is Some,
        r matches Ok(out) ==> Some(out@) == still_encoded(pixels@, width, height, fmt),
        r matches Err(e) ==> e == ImgError::EncodeError,
{
    let buf = match image::RgbaImage::from_raw(width, height, pixels.clone()) {
        Some(b) => b, None => return Err(ImgError::EncodeError),
    };
    let im = if matches!(fmt, Format::Jpeg | Format::Pnm) {
        image::DynamicImage::ImageRgb8(image::DynamicImage::ImageRgba8(buf).to_rgb8())
    } else { image::DynamicImage::ImageRgba8(buf) };
    let mut out = std::io::Cursor::new(Vec::new());
    match im.write_to(&mut out, to_image_format(fmt)) {
        Ok(()) => Ok(out.into_inner()),
        Err(_) => Err(ImgError::EncodeError),
    }
}

/// Relies on `image::imageops::resize` with the Lanczos filter: resamples a
/// `sw`-by-`sh` RGBA buffer to exactly `nw`-by-`nh`, independently per
/// channel.
#[verifier::external_body]
pub(crate) fn resample(pixels: &Vec<u8>, sw: u32, sh: u32, nw: u32, nh: u32) -> (r: Vec<u8>)
    requires
        pixels@.len() == 4 * ((sw as nat) * (sh as nat)),
        4 * ((nw as nat) * (nh as nat)) <= usize::MAX,
    ensures
        r@ == resampled(pixels@, sw, sh, nw, nh),
        r@.len() == 4 * ((nw as nat) * (nh as nat)),
{
    let buf: image::RgbaImage = image::ImageBuffer::from_raw(sw, sh, pixels.clone()).unwrap();
    image::imageops::resize(&buf, nw, nh, image::imageops::FilterType::Lanczos3).into_raw()
}

} // verus!
