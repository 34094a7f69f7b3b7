//! Crop and resize over real encoded images, generated and re-decoded in
//! memory, covering still and animated sources.

use image_utils::meta::info;
use image_utils::ops::{crop, resize};
use image_utils::ImgError;

fn still_bytes(w: u32, h: u32, fmt: image::ImageFormat) -> Vec<u8> {
    let img = image::RgbImage::from_fn(w, h, |x, y| {
        image::Rgb([(x % 256) as u8, (y % 256) as u8, 7])
    });
    let mut out = std::io::Cursor::new(Vec::new());
    image::DynamicImage::ImageRgb8(img).write_to(&mut out, fmt).unwrap();
    out.into_inner()
}

fn gif_bytes(w: u16, h: u16, frames: u16) -> Vec<u8> {
    let mut out = Vec::new();
    {
        let mut enc = gif::Encoder::new(&mut out, w, h, &[]).unwrap();
        enc.set_repeat(gif::Repeat::Infinite).unwrap();
        for i in 0..frames {
            let mut buf = vec![0u8; w as usize * h as usize * 4];
            for p in buf.chunks_exact_mut(4) {
                p[0] = (i as u8).wrapping_mul(20);
                p[1] = 100;
                p[2] = 50;
                p[3] = 255;
            }
            let mut f = gif::Frame::from_rgba(w, h, &mut buf);
            f.delay = 2 + i;
            enc.write_frame(&f).unwrap();
        }
    }
    out
}

fn decode_gif_frames(bytes: &[u8]) -> (u16, u16, gif::Repeat, Vec<(u16, Vec<u8>)>) {
    let mut opts = gif::DecodeOptions::new();
    opts.set_color_output(gif::ColorOutput::RGBA);
    let mut d = opts.read_info(std::io::Cursor::new(bytes.to_vec())).unwrap();
    let w = d.width();
    let h = d.height();
    let mut frames = Vec::new();
    while let Some(f) = d.read_next_frame().unwrap() {
        frames.push((f.delay, f.buffer.to_vec()));
    }
    (w, h, d.repeat(), frames)
}

#[test]
fn crop_png_end_to_end() {
    let src = still_bytes(510, 350, image::ImageFormat::Png);
    let out = crop(&src, 10, 10, 100, 100).unwrap();
    let inf = info(&out).unwrap();
    assert_eq!((inf.width, inf.height, inf.frames), (100, 100, 1));
}

#[test]
fn crop_png_moves_the_right_pixels() {
    let src = still_bytes(300, 200, image::ImageFormat::Png);
    let out = crop(&src, 10, 20, 50, 40).unwrap();
    let img = image::load_from_memory(&out).unwrap().into_rgba8();
    // pixel (0, 0) of the output is pixel (10, 20) of the source
    assert_eq!(img.get_pixel(0, 0), &image::Rgba([10, 20, 7, 255]));
    assert_eq!(img.get_pixel(49, 39), &image::Rgba([59, 59, 7, 255]));
}

#[test]
fn resize_png_end_to_end() {
    let src = still_bytes(510, 350, image::ImageFormat::Png);
    let out = resize(&src, 200, 200).unwrap();
    let inf = info(&out).unwrap();
    assert_eq!((inf.width, inf.height, inf.frames), (200, 137, 1));
}

#[test]
fn crop_jpeg_end_to_end() {
    let src = still_bytes(510, 350, image::ImageFormat::Jpeg);
    let out = crop(&src, 10, 10, 100, 100).unwrap();
    let inf = info(&out).unwrap();
    assert_eq!((inf.width, inf.height, inf.frames), (100, 100, 1));
}

#[test]
fn resize_jpeg_end_to_end() {
    let src = still_bytes(510, 350, image::ImageFormat::Jpeg);
    let out = resize(&src, 200, 200).unwrap();
    let inf = info(&out).unwrap();
    assert_eq!((inf.width, inf.height, inf.frames), (200, 137, 1));
}

#[test]
fn crop_gif_preserves_frames_and_delays() {
    let src = gif_bytes(500, 265, 12);
    let out = crop(&src, 10, 10, 100, 100).unwrap();
    let inf = info(&out).unwrap();
    assert_eq!((inf.width, inf.height, inf.frames), (100, 100, 12));
    let (w, h, repeat, frames) = decode_gif_frames(&out);
    assert_eq!((w, h), (100, 100));
    assert_eq!(repeat, gif::Repeat::Infinite);
    assert_eq!(frames.len(), 12);
    for (i, (delay, _)) in frames.iter().enumerate() {
        assert_eq!(*delay, 2 + i as u16);
    }
}

#[test]
fn resize_gif_preserves_frames_and_delays() {
    let src = gif_bytes(500, 265, 12);
    let out = resize(&src, 200, 200).unwrap();
    let inf = info(&out).unwrap();
    assert_eq!((inf.width, inf.height, inf.frames), (200, 106, 12));
    let (w, h, repeat, frames) = decode_gif_frames(&out);
    assert_eq!((w, h), (200, 106));
    assert_eq!(repeat, gif::Repeat::Infinite);
    assert_eq!(frames.len(), 12);
    for (i, (delay, _)) in frames.iter().enumerate() {
        assert_eq!(*delay, 2 + i as u16);
    }
}

#[test]
fn crop_gif_composites_sparse_deltas() {
    // frame 1 paints the whole 4 x 4 canvas red; frame 2 is a sparse delta:
    // transparent everywhere except one blue pixel at (1, 1)
    let mut src = Vec::new();
    {
        let mut enc = gif::Encoder::new(&mut src, 4, 4, &[]).unwrap();
        let mut red = vec![0u8; 4 * 4 * 4];
        for p in red.chunks_exact_mut(4) {
            p[0] = 255;
            p[3] = 255;
        }
        let mut f1 = gif::Frame::from_rgba(4, 4, &mut red);
        f1.delay = 3;
        enc.write_frame(&f1).unwrap();
        let mut sparse = vec![0u8; 4 * 4 * 4];
        sparse[4 * 5] = 0;
        sparse[4 * 5 + 2] = 255;
        sparse[4 * 5 + 3] = 255;
        let mut f2 = gif::Frame::from_rgba(4, 4, &mut sparse);
        f2.delay = 7;
        enc.write_frame(&f2).unwrap();
    }
    let out = crop(&src, 0, 0, 4, 4).unwrap();
    let (_, _, _, frames) = decode_gif_frames(&out);
    assert_eq!(frames.len(), 2);
    assert_eq!(frames[0].0, 3);
    assert_eq!(frames[1].0, 7);
    // in the composited second frame the canvas shows through the
    // transparent delta pixels: red everywhere, blue only at (1, 1)
    let second = &frames[1].1;
    let at = |x: usize, y: usize| &second[4 * (y * 4 + x)..4 * (y * 4 + x) + 4];
    assert_eq!(at(0, 0), &[255, 0, 0, 255]);
    assert_eq!(at(1, 1), &[0, 0, 255, 255]);
    assert_eq!(at(3, 3), &[255, 0, 0, 255]);
}

#[test]
fn crop_pnm_end_to_end() {
    let src = still_bytes(60, 40, image::ImageFormat::Pnm);
    let inf = info(&src).unwrap();
    assert_eq!((inf.width, inf.height, inf.frames), (60, 40, 1));
    let out = crop(&src, 5, 5, 20, 10).unwrap();
    let inf = info(&out).unwrap();
    assert_eq!((inf.width, inf.height, inf.frames), (20, 10, 1));
}

#[test]
fn crop_ico_end_to_end() {
    // icon entries are stored as RGBA
    let img = image::RgbaImage::from_fn(32, 32, |x, y| {
        image::Rgba([(x % 256) as u8, (y % 256) as u8, 7, 255])
    });
    let mut cur = std::io::Cursor::new(Vec::new());
    image::DynamicImage::ImageRgba8(img).write_to(&mut cur, image::ImageFormat::Ico).unwrap();
    let src = cur.into_inner();
    let inf = info(&src).unwrap();
    assert_eq!((inf.width, inf.height, inf.frames), (32, 32, 1));
    let out = crop(&src, 8, 8, 16, 16).unwrap();
    let inf = info(&out).unwrap();
    assert_eq!((inf.width, inf.height, inf.frames), (16, 16, 1));
}

#[test]
fn crop_out_of_bounds_x_fails_without_output() {
    let src = still_bytes(510, 350, image::ImageFormat::Jpeg);
    assert_eq!(crop(&src, 1000, 10, 100, 100), Err(ImgError::OutOfBounds));
    let gif = gif_bytes(40, 30, 2);
    assert_eq!(crop(&gif, 1000, 10, 100, 100), Err(ImgError::OutOfBounds));
}

#[test]
fn crop_out_of_bounds_y_fails_without_output() {
    let src = still_bytes(510, 350, image::ImageFormat::Jpeg);
    assert_eq!(crop(&src, 10, 1000, 100, 100), Err(ImgError::OutOfBounds));
    let gif = gif_bytes(40, 30, 2);
    assert_eq!(crop(&gif, 10, 1000, 100, 100), Err(ImgError::OutOfBounds));
}

#[test]
fn crop_overflowing_sum_is_out_of_bounds() {
    let src = still_bytes(64, 64, image::ImageFormat::Png);
    assert_eq!(crop(&src, u32::MAX, 0, 2, 2), Err(ImgError::OutOfBounds));
}

#[test]
fn resize_empty_box_is_out_of_bounds() {
    let src = still_bytes(64, 64, image::ImageFormat::Png);
    assert_eq!(resize(&src, 0, 10), Err(ImgError::OutOfBounds));
    assert_eq!(resize(&src, 10, 0), Err(ImgError::OutOfBounds));
}

#[test]
fn resize_gif_beyond_container_limits_is_encode_error() {
    let src = gif_bytes(4, 2, 1);
    assert_eq!(resize(&src, 1_000_000, 1_000_000), Err(ImgError::EncodeError));
}

#[test]
fn crop_gif_with_delta_outside_canvas_is_decode_error() {
    // a frame larger than the logical screen is malformed input, not clipped
    let mut src = Vec::new();
    {
        let mut enc = gif::Encoder::new(&mut src, 2, 2, &[]).unwrap();
        let mut big = vec![255u8; 4 * 4 * 4];
        let f = gif::Frame::from_rgba(4, 4, &mut big);
        enc.write_frame(&f).unwrap();
    }
    assert_eq!(crop(&src, 0, 0, 2, 2), Err(ImgError::DecodeError));
}
