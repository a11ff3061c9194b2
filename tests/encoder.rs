use imageflow_codecs::bitmap::{BitmapCompositing, BitmapKey, BitmapStore, ColorSpace, PixelLayout};
use imageflow_codecs::error::CodecError;
use imageflow_codecs::info::ResultBytes;
use imageflow_codecs::pixels::Color;
use imageflow_codecs::pngquant::{deflate_level, select_encoding, EnabledCodecs, NamedEncoder, PngquantEncoder, QuantizeError};

fn enabled() -> EnabledCodecs {
    EnabledCodecs { encoders: vec![NamedEncoder::LodePngEncoder, NamedEncoder::PngQuantEncoder] }
}

fn store_with(width: u32, height: u32, bgra: Vec<u8>) -> (BitmapStore, BitmapKey) {
    let mut s = BitmapStore::new();
    let k = s
        .create_bitmap(width, height, PixelLayout::Bgra, true, ColorSpace::StandardRGB, BitmapCompositing::BlendWithSelf)
        .unwrap();
    let mut b = s.borrow_exclusive(k).unwrap();
    b.pixels = bgra;
    s.release(k, b).unwrap();
    (s, k)
}

fn gradient(w: u32, h: u32) -> Vec<u8> {
    let mut v = Vec::new();
    for y in 0..h {
        for x in 0..w {
            v.extend_from_slice(&[(x * 4) as u8, (y * 4) as u8, 128, 255]);
        }
    }
    v
}

fn noise(w: u32, h: u32) -> Vec<u8> {
    let mut v = Vec::new();
    let mut state: u32 = 12345;
    for _ in 0..w * h {
        for _ in 0..3 {
            state = state.wrapping_mul(1103515245).wrapping_add(12345);
            v.push((state >> 16) as u8);
        }
        v.push(255);
    }
    v
}

fn png_color_type(png: &[u8]) -> u8 {
    assert_eq!(&png[..8], &[137, 80, 78, 71, 13, 10, 26, 10]);
    assert_eq!(&png[12..16], b"IHDR");
    png[25]
}

#[test]
fn disabled_encoder_is_refused() {
    let codecs = EnabledCodecs { encoders: vec![NamedEncoder::LodePngEncoder] };
    let r = PngquantEncoder::create(&codecs, 3, None, None, None, None, None);
    assert!(matches!(r, Err(CodecError::CodecDisabled)));
    let none = EnabledCodecs { encoders: vec![] };
    assert!(matches!(PngquantEncoder::create(&none, 3, Some(4), Some(90), Some(10), Some(true), None), Err(CodecError::CodecDisabled)));
}

#[test]
fn settings_are_clamped() {
    let e = PngquantEncoder::create(&enabled(), 3, Some(40), Some(150), Some(200), Some(true), None).unwrap();
    assert_eq!(e.speed, Some(10));
    assert_eq!(e.quality_max, 100);
    assert_eq!(e.quality_min, 100);
    assert_eq!(e.maximum_deflate, Some(true));
    assert!(e.output.is_empty());
    let e = PngquantEncoder::create(&enabled(), 3, Some(0), Some(50), Some(80), None, None).unwrap();
    assert_eq!(e.speed, Some(1));
    assert_eq!(e.quality_max, 50);
    assert_eq!(e.quality_min, 50);
    let e = PngquantEncoder::create(&enabled(), 3, None, None, None, None, None).unwrap();
    assert_eq!(e.speed, None);
    assert_eq!((e.quality_min, e.quality_max), (0, 100));
}

#[test]
fn detailed_opaque_image_gets_a_palette() {
    let (mut s, k) = store_with(64, 64, gradient(64, 64));
    let mut e = PngquantEncoder::create(&enabled(), 9, None, Some(100), Some(0), None, None).unwrap();
    let r = e.write_frame(&mut s, k).unwrap();
    assert_eq!((r.w, r.h, r.io_id), (64, 64, 9));
    assert_eq!(r.bytes, ResultBytes::Elsewhere);
    assert_eq!(r.preferred_extension, "png");
    assert_eq!(r.preferred_mime_type, "image/png");
    assert_eq!(png_color_type(&e.output), 3);
    let decoded = lodepng::decode32(&e.output).unwrap();
    assert_eq!((decoded.width, decoded.height), (64, 64));
    assert!(s.get(k).is_some());
}

#[test]
fn unreachable_quality_falls_back_to_true_color() {
    let px = noise(64, 64);
    let (mut s, k) = store_with(64, 64, px.clone());
    let mut e = PngquantEncoder::create(&enabled(), 2, None, Some(100), Some(100), None, None).unwrap();
    let r = e.write_frame(&mut s, k).unwrap();
    assert_eq!((r.w, r.h), (64, 64));
    assert_eq!(png_color_type(&e.output), 6);
    let decoded = lodepng::decode32(&e.output).unwrap();
    let rgba: Vec<u8> = decoded.buffer.iter().flat_map(|p| [p.r, p.g, p.b, p.a]).collect();
    let expected: Vec<u8> = px.chunks(4).flat_map(|p| [p[2], p[1], p[0], p[3]]).collect();
    assert_eq!(rgba, expected);
}

#[test]
fn matte_removes_transparency_before_quantizing() {
    let mut px = gradient(16, 16);
    for p in px.chunks_mut(4).step_by(3) {
        p[3] = 0;
    }
    let (mut s, k) = store_with(16, 16, px);
    let matte = Color { r: 255, g: 255, b: 255, a: 255 };
    let mut e = PngquantEncoder::create(&enabled(), 1, Some(5), None, None, Some(false), Some(matte)).unwrap();
    e.write_frame(&mut s, k).unwrap();
    let b = s.get(k).unwrap();
    assert!(b.pixels.chunks(4).all(|p| p[3] == 255));
    let decoded = lodepng::decode32(&e.output).unwrap();
    assert!(decoded.buffer.iter().all(|p| p.a == 255));
}

#[test]
fn write_frame_on_borrowed_key_conflicts() {
    let (mut s, k) = store_with(2, 2, gradient(2, 2));
    let held = s.borrow_exclusive(k).unwrap();
    let mut e = PngquantEncoder::create(&enabled(), 1, None, None, None, None, None).unwrap();
    assert!(matches!(e.write_frame(&mut s, k), Err(CodecError::BorrowConflict)));
    assert!(matches!(e.write_frame(&mut s, BitmapKey { index: 4 }), Err(CodecError::InvalidKey)));
    assert!(e.output.is_empty());
    s.release(k, held).unwrap();
}

#[test]
fn select_encoding_keeps_palette_on_success() {
    let pal = vec![10, 20, 30, 255, 40, 50, 60, 128];
    let r = select_encoding(Ok((pal.clone(), vec![1, 1, 0])));
    assert_eq!(r, Ok(Some((pal, vec![1, 1, 0]))));
}

#[test]
fn select_encoding_falls_back_on_quality_too_low() {
    assert_eq!(select_encoding(Err(QuantizeError::QualityTooLow)), Ok(None));
}

#[test]
fn select_encoding_propagates_hard_failure() {
    assert_eq!(select_encoding(Err(QuantizeError::Failed)), Err(CodecError::QuantizationFailure));
}

#[test]
fn get_io_exposes_the_sink() {
    let (mut s, k) = store_with(8, 8, gradient(8, 8));
    let mut e = PngquantEncoder::create(&enabled(), 4, None, None, None, None, None).unwrap();
    assert!(e.get_io().is_empty());
    e.write_frame(&mut s, k).unwrap();
    assert_eq!(e.get_io(), &e.output);
    assert!(!e.get_io().is_empty());
}

#[test]
fn deflate_level_follows_flag() {
    assert_eq!(deflate_level(Some(true)), 9);
    assert_eq!(deflate_level(Some(false)), 6);
    assert_eq!(deflate_level(None), 6);
}

#[test]
fn maximum_deflate_output_round_trips() {
    let px = noise(32, 32);
    let (mut s, k) = store_with(32, 32, px.clone());
    let mut e = PngquantEncoder::create(&enabled(), 2, Some(10), Some(100), Some(100), Some(true), None).unwrap();
    let r = e.write_frame(&mut s, k).unwrap();
    assert_eq!((r.w, r.h), (32, 32));
    let decoded = lodepng::decode32(&e.output).unwrap();
    let rgba: Vec<u8> = decoded.buffer.iter().flat_map(|p| [p.r, p.g, p.b, p.a]).collect();
    let expected: Vec<u8> = px.chunks(4).flat_map(|p| [p[2], p[1], p[0], p[3]]).collect();
    assert_eq!(rgba, expected);
}
