use discord_tray::{
    badge_pixels, decode_rgba, draw_red_dot, whiten_opaque_pixels, DotPixel, DotShape, IconCache,
};

use std::io::Cursor;

fn encode_png(rgba: &[u8], w: u32, h: u32) -> Vec<u8> {
    let img = image::RgbaImage::from_raw(w, h, rgba.to_vec()).unwrap();
    let mut out = Cursor::new(Vec::new());
    image::DynamicImage::ImageRgba8(img)
        .write_to(&mut out, image::ImageFormat::Png)
        .unwrap();
    out.into_inner()
}

/// The dot's pixel classes, computed in `f32` as the shell does.
fn float_shape(w: u32, h: u32) -> DotShape {
    let radius = (h as f32 * 0.22).max(6.0);
    let gap = (h as f32 * 0.06).max(2.0);
    let cx = w as f32 - radius - 1.0;
    let cy = radius + 1.0;
    let bound = radius + gap + 1.0;
    let x_min = (cx - bound).max(0.0) as u32;
    let x_max = ((cx + bound).ceil() as u32).max(x_min);
    let y_min = (cy - bound).max(0.0) as u32;
    let y_max = ((cy + bound).ceil() as u32).max(y_min);
    let mut pixels = Vec::new();
    for y in y_min..y_max {
        for x in x_min..x_max {
            let dx = x as f32 - cx;
            let dy = y as f32 - cy;
            let dist = (dx * dx + dy * dy).sqrt();
            pixels.push(if dist <= radius {
                DotPixel::Fill
            } else if dist <= radius + gap {
                DotPixel::Gap
            } else {
                DotPixel::Keep
            });
        }
    }
    DotShape { x_min, x_max, y_min, y_max, pixels }
}

/// The dot drawn directly in `f32`, pixel by pixel.
fn float_dot(buf: &mut [u8], w: u32, h: u32) {
    let radius = (h as f32 * 0.22).max(6.0);
    let gap = (h as f32 * 0.06).max(2.0);
    let cx = w as f32 - radius - 1.0;
    let cy = radius + 1.0;
    let bound = radius + gap + 1.0;
    let x_min = (cx - bound).max(0.0) as u32;
    let x_max = ((cx + bound).ceil() as u32).min(w);
    let y_min = (cy - bound).max(0.0) as u32;
    let y_max = ((cy + bound).ceil() as u32).min(h);
    for y in y_min..y_max {
        for x in x_min..x_max {
            let dx = x as f32 - cx;
            let dy = y as f32 - cy;
            let dist = (dx * dx + dy * dy).sqrt();
            let idx = ((y * w + x) * 4) as usize;
            if dist <= radius {
                buf[idx] = 235;
                buf[idx + 1] = 64;
                buf[idx + 2] = 60;
                buf[idx + 3] = 255;
            } else if dist <= radius + gap {
                buf[idx + 3] = 0;
            }
        }
    }
}

fn glyph(w: u32, h: u32) -> Vec<u8> {
    let mut v = Vec::new();
    for i in 0..(w * h) {
        let a = if i % 3 == 0 { 0 } else { (i % 251) as u8 + 1 };
        v.extend_from_slice(&[(i % 7) as u8 * 30, (i % 5) as u8 * 40, (i % 11) as u8 * 20, a]);
    }
    v
}

#[test]
fn whiten_keeps_alpha_and_transparent_pixels() {
    let mut px = vec![1, 2, 3, 0, 10, 20, 30, 40, 5, 6, 7, 255, 9, 9];
    whiten_opaque_pixels(&mut px);
    assert_eq!(px, vec![1, 2, 3, 0, 255, 255, 255, 40, 255, 255, 255, 255, 9, 9]);
}

#[test]
fn whiten_empty() {
    let mut px: Vec<u8> = vec![];
    whiten_opaque_pixels(&mut px);
    assert!(px.is_empty());
}

#[test]
fn dot_paints_fill_and_clears_gap() {
    // a 3 x 2 image, the shape covers columns 1..3 of row 0 and 1
    let mut buf: Vec<u8> = (0..24).map(|i| i as u8 + 1).collect();
    let shape = DotShape {
        x_min: 1,
        x_max: 3,
        y_min: 0,
        y_max: 2,
        pixels: vec![DotPixel::Fill, DotPixel::Gap, DotPixel::Keep, DotPixel::Fill],
    };
    draw_red_dot(&mut buf, 3, 2, &shape);
    let mut expected: Vec<u8> = (0..24).map(|i| i as u8 + 1).collect();
    expected[4..8].copy_from_slice(&[235, 64, 60, 255]); // (1, 0)
    expected[11] = 0; // (2, 0)
    expected[20..24].copy_from_slice(&[235, 64, 60, 255]); // (2, 1)
    assert_eq!(buf, expected);
}

#[test]
fn dot_is_clipped_to_the_image_and_short_lists_keep() {
    let mut buf = vec![7u8; 16]; // 2 x 2
    let shape = DotShape {
        x_min: 1,
        x_max: 5,
        y_min: 1,
        y_max: 5,
        pixels: vec![DotPixel::Fill],
    };
    draw_red_dot(&mut buf, 2, 2, &shape);
    let mut expected = vec![7u8; 16];
    expected[12..16].copy_from_slice(&[235, 64, 60, 255]);
    assert_eq!(buf, expected);

    let mut buf = vec![7u8; 16];
    let shape = DotShape { x_min: 0, x_max: 2, y_min: 0, y_max: 2, pixels: vec![DotPixel::Gap] };
    draw_red_dot(&mut buf, 2, 2, &shape);
    let mut expected = vec![7u8; 16];
    expected[3] = 0;
    assert_eq!(buf, expected);
}

#[test]
fn empty_image_is_untouched() {
    let mut buf = vec![1u8, 2, 3];
    draw_red_dot(&mut buf, 0, 5, &float_shape(0, 5));
    assert_eq!(buf, vec![1u8, 2, 3]);
}

#[test]
fn dot_matches_direct_float_drawing() {
    for (w, h) in [(16u32, 16u32), (22, 22), (32, 32), (44, 44), (64, 48), (18, 40), (5, 5)] {
        let base = glyph(w, h);
        let mut direct = base.clone();
        float_dot(&mut direct, w, h);
        let mut drawn = base.clone();
        draw_red_dot(&mut drawn, w, h, &float_shape(w, h));
        assert_eq!(drawn, direct, "size {}x{}", w, h);
    }
}

#[test]
fn decode_png() {
    let px = glyph(4, 3);
    let png = encode_png(&px, 4, 3);
    let (raw, w, h) = decode_rgba(&png).unwrap();
    assert_eq!((w, h), (4, 3));
    assert_eq!(raw, px);
}

#[test]
fn decode_garbage_fails() {
    assert!(decode_rgba(b"not an image").is_none());
    assert!(decode_rgba(&[]).is_none());
}

#[test]
fn badge_pixels_whitens_then_dots() {
    let (w, h) = (24u32, 24u32);
    let px = glyph(w, h);
    let shape = float_shape(w, h);
    let out = badge_pixels(Some((px.clone(), w, h)), &shape).unwrap();
    let mut expected = px.clone();
    for p in expected.chunks_exact_mut(4) {
        if p[3] != 0 {
            p[0] = 255;
            p[1] = 255;
            p[2] = 255;
        }
    }
    float_dot(&mut expected, w, h);
    assert_eq!(out, (expected, w, h));
    assert!(badge_pixels(None, &shape).is_none());
}

#[test]
fn cache_decodes_once_and_keeps_the_first_badge() {
    let (w, h) = (32u32, 32u32);
    let px = glyph(w, h);
    let png = encode_png(&px, w, h);
    let mut cache = IconCache::new(png.clone());

    let plain = cache.cached_plain_rgba().cloned();
    assert_eq!(plain, decode_rgba(&png));
    assert_eq!(plain, Some((px.clone(), w, h)));
    assert_eq!(cache.cached_plain_rgba().cloned(), plain);

    let shape = float_shape(w, h);
    let badged = cache.cached_badged_rgba(&shape).cloned();
    assert_eq!(badged, badge_pixels(Some((px.clone(), w, h)), &shape));
    // a later request with another dot gets the first result back
    let other = DotShape { x_min: 0, x_max: 1, y_min: 0, y_max: 1, pixels: vec![DotPixel::Fill] };
    assert_eq!(cache.cached_badged_rgba(&other).cloned(), badged);
    assert_eq!(cache.cached_plain_rgba().cloned(), plain);
}

#[test]
fn cache_of_undecodable_bytes_is_empty() {
    let mut cache = IconCache::new(vec![1, 2, 3]);
    assert!(cache.cached_plain_rgba().is_none());
    assert!(cache.cached_badged_rgba(&float_shape(8, 8)).is_none());
}

#[test]
fn decoded_buffers_hold_exactly_four_bytes_per_pixel() {
    let png = encode_png(&glyph(5, 7), 5, 7);
    let (raw, w, h) = decode_rgba(&png).unwrap();
    assert_eq!(raw.len(), 4 * (w * h) as usize);

    // a grey image goes through the conversion to RGBA
    let grey = image::GrayImage::from_raw(3, 2, vec![0, 50, 100, 150, 200, 250]).unwrap();
    let mut out = Cursor::new(Vec::new());
    image::DynamicImage::ImageLuma8(grey)
        .write_to(&mut out, image::ImageFormat::Png)
        .unwrap();
    let (raw, w, h) = decode_rgba(&out.into_inner()).unwrap();
    assert_eq!((w, h), (3, 2));
    assert_eq!(raw.len(), 24);
    assert_eq!(&raw[4..8], &[50, 50, 50, 255]);
}

#[test]
fn badged_glyph_has_the_plain_size() {
    let (w, h) = (20u32, 12u32);
    let mut cache = IconCache::new(encode_png(&glyph(w, h), w, h));
    let (plain_len, pw, ph) = {
        let (px, pw, ph) = cache.cached_plain_rgba().unwrap();
        (px.len(), *pw, *ph)
    };
    let (bpx, bw, bh) = cache.cached_badged_rgba(&float_shape(w, h)).unwrap();
    assert_eq!((*bw, *bh), (pw, ph));
    assert_eq!(bpx.len(), plain_len);
    assert_eq!(bpx.len(), 4 * (w * h) as usize);
}
