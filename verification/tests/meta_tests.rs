//! Metadata extraction over real encoded images, generated in memory.

use image_utils::meta::info;
use image_utils::sniff::Format;
use image_utils::ImgError;

fn png_bytes(w: u32, h: u32) -> Vec<u8> {
    let img = image::RgbImage::from_fn(w, h, |x, y| {
        image::Rgb([(x % 256) as u8, (y % 256) as u8, 7])
    });
    let mut out = std::io::Cursor::new(Vec::new());
    image::DynamicImage::ImageRgb8(img)
        .write_to(&mut out, image::ImageFormat::Png)
        .unwrap();
    out.into_inner()
}

fn jpeg_bytes(w: u32, h: u32) -> Vec<u8> {
    let img = image::RgbImage::from_fn(w, h, |x, y| {
        image::Rgb([(x % 256) as u8, (y % 256) as u8, 7])
    });
    let mut out = std::io::Cursor::new(Vec::new());
    image::DynamicImage::ImageRgb8(img)
        .write_to(&mut out, image::ImageFormat::Jpeg)
        .unwrap();
    out.into_inner()
}

fn gif_bytes(w: u16, h: u16, frames: u16) -> Vec<u8> {
    let mut out = Vec::new();
    {
        let mut enc = gif::Encoder::new(&mut out, w, h, &[]).unwrap();
        enc.set_repeat(gif::Repeat::Infinite).unwrap();
        for i in 0..frames {
            let mut buf = vec![0u8; w as usize * h as usize * 4];
            for p in buf.chunks_exact_mut(4) {
                p[0] = (i as u8).wrapping_mul(20);
                p[1] = 100;
                p[2] = 50;
                p[3] = 255;
            }
            let mut f = gif::Frame::from_rgba(w, h, &mut buf);
            f.delay = 2 + i;
            enc.write_frame(&f).unwrap();
        }
    }
    out
}

#[test]
fn info_png() {
    let inf = info(&png_bytes(510, 350)).unwrap();
    assert_eq!(inf.format, Format::Png);
    assert_eq!((inf.width, inf.height, inf.frames), (510, 350, 1));
}

#[test]
fn info_jpeg() {
    let inf = info(&jpeg_bytes(510, 350)).unwrap();
    assert_eq!(inf.format, Format::Jpeg);
    assert_eq!((inf.width, inf.height, inf.frames), (510, 350, 1));
}

#[test]
fn info_gif_counts_frames() {
    let inf = info(&gif_bytes(500, 265, 12)).unwrap();
    assert_eq!(inf.format, Format::Gif);
    assert_eq!((inf.width, inf.height, inf.frames), (500, 265, 12));
}

#[test]
fn info_unrecognized_bytes() {
    assert_eq!(info(&vec![0u8; 32]), Err(ImgError::UnrecognizedFormat));
}

#[test]
fn info_truncated_png_is_decode_error() {
    let mut bytes = png_bytes(16, 16);
    bytes.truncate(12);
    assert_eq!(info(&bytes), Err(ImgError::DecodeError));
}

#[test]
fn info_gif_with_zero_frames_is_decode_error() {
    // header, logical screen descriptor (2 x 2, no colour table), trailer:
    // an animated container whose frame count resolves to zero
    let mut bytes = b"GIF89a".to_vec();
    bytes.extend_from_slice(&[2, 0, 2, 0, 0, 0, 0]);
    bytes.push(0x3b);
    assert_eq!(info(&bytes), Err(ImgError::DecodeError));
}

#[test]
fn info_is_repeatable() {
    let bytes = gif_bytes(40, 30, 3);
    let first = info(&bytes);
    let second = info(&bytes);
    assert_eq!(first, second);
    let png = png_bytes(33, 21);
    assert_eq!(info(&png), info(&png));
}
