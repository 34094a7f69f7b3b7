//! Unit tests for the verified components: sniffing, resize arithmetic,
//! cropping, pixel conversions, and the frame compositor on synthetic delta
//! sequences.

use image_utils::compositor::{Compositor, Disposal, FrameDelta};
use image_utils::geometry::{crop_buffer, resize_dims};
use image_utils::pixels::{bytes_to_rgba, rgba_to_bytes, Rgba};
use image_utils::sniff::{sniff, Format};
use image_utils::ImgError;

#[test]
fn sniff_known_prefixes() {
    let png = vec![0x89u8, 0x50, 0x4e, 0x47, 0x0d, 0x0a, 0x1a, 0x0a, 0, 0];
    assert_eq!(sniff(&png), Ok(Format::Png));
    let jpeg = vec![0xffu8, 0xd8, 0xff, 0xe0];
    assert_eq!(sniff(&jpeg), Ok(Format::Jpeg));
    assert_eq!(sniff(&b"GIF89a".to_vec()), Ok(Format::Gif));
    assert_eq!(sniff(&b"GIF87a".to_vec()), Ok(Format::Gif));
    assert_eq!(sniff(&b"RIFF\x10\0\0\0WEBPVP8 ".to_vec()), Ok(Format::WebP));
    assert_eq!(sniff(&b"MM\0*....".to_vec()), Ok(Format::Tiff));
    assert_eq!(sniff(&b"II*\0....".to_vec()), Ok(Format::Tiff));
    assert_eq!(sniff(&b"BM......".to_vec()), Ok(Format::Bmp));
    assert_eq!(sniff(&vec![0u8, 0, 1, 0, 2, 0]), Ok(Format::Ico));
    assert_eq!(sniff(&b"P6 2 2 255 ".to_vec()), Ok(Format::Pnm));
    assert_eq!(sniff(&b"#?RADIANCE\n".to_vec()), Ok(Format::Hdr));
}

#[test]
fn sniff_unrecognized() {
    assert_eq!(sniff(&vec![1u8, 2, 3, 4, 5, 6, 7, 8]), Err(ImgError::UnrecognizedFormat));
    assert_eq!(sniff(&Vec::new()), Err(ImgError::UnrecognizedFormat));
    // a GIF prefix cut short is not recognized
    assert_eq!(sniff(&b"GIF8".to_vec()), Err(ImgError::UnrecognizedFormat));
}

#[test]
fn resize_dims_examples() {
    // width-bound: 200/200 is not wider than 510/350, so width reaches 200
    assert_eq!(resize_dims(510, 350, 200, 200), (200, 137));
    assert_eq!(resize_dims(500, 265, 200, 200), (200, 106));
    // height-bound: the box is relatively wider than the source
    assert_eq!(resize_dims(100, 50, 1000, 25), (50, 25));
    // equal aspect ratios: both bounds are reached exactly
    assert_eq!(resize_dims(100, 50, 50, 25), (50, 25));
    // upscaling keeps the aspect too
    assert_eq!(resize_dims(100, 50, 300, 300), (300, 150));
}

fn px(r: u8, g: u8, b: u8, a: u8) -> Rgba {
    Rgba { r, g, b, a }
}

#[test]
fn crop_buffer_exact() {
    // 3 x 2 source, pixels numbered row-major by the red channel
    let src = vec![
        px(0, 0, 0, 255),
        px(1, 0, 0, 255),
        px(2, 0, 0, 255),
        px(3, 0, 0, 255),
        px(4, 0, 0, 255),
        px(5, 0, 0, 255),
    ];
    let out = crop_buffer(&src, 3, 2, 1, 1, 2, 1);
    assert_eq!(out, vec![px(4, 0, 0, 255), px(5, 0, 0, 255)]);
}

#[test]
fn rgba_byte_roundtrip() {
    let bytes = vec![1u8, 2, 3, 4, 5, 6, 7, 8];
    let pixels = bytes_to_rgba(&bytes);
    assert_eq!(pixels, vec![px(1, 2, 3, 4), px(5, 6, 7, 8)]);
    assert_eq!(rgba_to_bytes(&pixels), bytes);
}

fn solid_delta(left: u16, top: u16, w: u16, h: u16, color: Rgba, disposal: Disposal, delay: u16) -> FrameDelta {
    let mut pixels = Vec::new();
    for _ in 0..(w as usize * h as usize) {
        pixels.extend_from_slice(&[color.r, color.g, color.b, color.a]);
    }
    FrameDelta { left, top, width: w, height: h, disposal, delay, pixels }
}

#[test]
fn compositor_blit_and_keep() {
    let red = px(255, 0, 0, 255);
    let blue = px(0, 0, 255, 255);
    let mut comp = Compositor::new(2, 2);
    let f1 = comp.next_frame(&solid_delta(0, 0, 2, 2, red, Disposal::Keep, 5)).unwrap();
    assert_eq!(f1.delay, 5);
    assert_eq!(f1.pixels, vec![red, red, red, red]);
    // a later delta touches only one cell; the rest of the canvas persists
    let f2 = comp.next_frame(&solid_delta(1, 1, 1, 1, blue, Disposal::Keep, 7)).unwrap();
    assert_eq!(f2.delay, 7);
    assert_eq!(f2.pixels, vec![red, red, red, blue]);
}

#[test]
fn compositor_transparent_pixels_show_through() {
    let red = px(255, 0, 0, 255);
    let clear = px(9, 9, 9, 0);
    let mut comp = Compositor::new(2, 1);
    comp.next_frame(&solid_delta(0, 0, 2, 1, red, Disposal::Keep, 0)).unwrap();
    // a zero-alpha delta pixel is not written: the red canvas shows through
    let f = comp.next_frame(&solid_delta(0, 0, 2, 1, clear, Disposal::Keep, 0)).unwrap();
    assert_eq!(f.pixels, vec![red, red]);
}

#[test]
fn compositor_restore_background() {
    let red = px(255, 0, 0, 255);
    let none = px(0, 0, 0, 0);
    let mut comp = Compositor::new(2, 2);
    comp.next_frame(&solid_delta(0, 0, 2, 2, red, Disposal::Background, 0)).unwrap();
    // the region was cleared after the snapshot; nothing new is blitted here
    let f = comp.next_frame(&solid_delta(0, 0, 1, 1, px(0, 0, 0, 0), Disposal::Keep, 0)).unwrap();
    assert_eq!(f.pixels, vec![none, none, none, none]);
}

#[test]
fn compositor_restore_previous() {
    let red = px(255, 0, 0, 255);
    let blue = px(0, 0, 255, 255);
    let mut comp = Compositor::new(2, 1);
    comp.next_frame(&solid_delta(0, 0, 2, 1, red, Disposal::Keep, 0)).unwrap();
    // this delta is shown, then its region reverts to the pre-blit pixels
    let f2 = comp.next_frame(&solid_delta(0, 0, 1, 1, blue, Disposal::Previous, 0)).unwrap();
    assert_eq!(f2.pixels, vec![blue, red]);
    let f3 = comp.next_frame(&solid_delta(1, 0, 1, 1, px(1, 1, 1, 0), Disposal::Keep, 0)).unwrap();
    assert_eq!(f3.pixels, vec![red, red]);
}

#[test]
fn compositor_rejects_out_of_bounds_delta() {
    let mut comp = Compositor::new(2, 2);
    let bad = solid_delta(1, 1, 2, 2, px(1, 2, 3, 255), Disposal::Keep, 0);
    assert_eq!(comp.next_frame(&bad).err(), Some(ImgError::DecodeError));
}

#[test]
fn compositor_rejects_short_pixel_buffer() {
    let mut comp = Compositor::new(2, 2);
    let mut bad = solid_delta(0, 0, 2, 2, px(1, 2, 3, 255), Disposal::Keep, 0);
    bad.pixels.pop();
    assert_eq!(comp.next_frame(&bad).err(), Some(ImgError::DecodeError));
}
