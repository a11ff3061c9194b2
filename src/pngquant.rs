use vstd::prelude::*;
use vstd::string::StringExecFns;
use crate::bitmap::{Bitmap, BitmapStore, BitmapKey, Slot};
use crate::error::CodecError;
use crate::info::{EncodeResult, ResultBytes};
use crate::pixels::{
    Color, all_opaque, alpha_at, apply_matte, normalize_unused_alpha, bgra_to_rgba,
    matte_pixel_ok, normalized_pixel_ok, rgba_pixel_ok,
};

verus! {

/// Why quantization stopped short of a palette.
#[derive(Debug, Clone, Copy, PartialEq, Eq, Structural)]
pub enum QuantizeError {
    /// The minimum quality could not be reached.
    QualityTooLow,
    /// Any other failure of the quantizer.
    Failed,
}

/// Encoders that a processing context may enable.
#[derive(Debug, Clone, Copy, PartialEq, Eq, Structural)]
pub enum NamedEncoder {
    PngQuantEncoder,
    LodePngEncoder,
    MozJpegEncoder,
    LibPngRsEncoder,
}

/// The administrative set of encoders that may be constructed.
pub struct EnabledCodecs {
    pub encoders: Vec<NamedEncoder>,
}

impl EnabledCodecs {
    pub fn contains_encoder(&self, e: NamedEncoder) -> (r: bool)
        ensures
            r == self.encoders@.contains(e),
    {
        let mut i: usize = 0;
        while i < self.encoders.len()
            invariant
                i <= self.encoders@.len(),
                forall|j: int| 0 <= j < i ==> self.encoders@[j] != e,
            decreases self.encoders@.len() - i,
        {
            if self.encoders[i] == e {
                return true;
            }
            i = i + 1;
        }
        false
    }
}

/// What quantizing `rgba` at the given speed and quality bounds yields: a
/// palette of RGBA entries and one palette index per pixel, or the reason
/// there is none.
pub uninterp spec fn quantized_of(
    rgba: Seq<u8>,
    width: usize,
    height: usize,
    speed: u8,
    minimum: u8,
    target: u8,
) -> Result<(Seq<u8>, Seq<u8>), QuantizeError>;

/// The palette PNG of `indices` into `palette` at zlib `level`, or `None`
/// where it cannot be written.
pub uninterp spec fn indexed_png_of(palette: Seq<u8>, indices: Seq<u8>, width: usize, height: usize, level: u8) -> Option<Seq<u8>>;

/// The 8-bit RGBA PNG of `rgba` at zlib `level`, or `None` where it cannot
/// be written.
pub uninterp spec fn rgba_png_of(rgba: Seq<u8>, width: usize, height: usize, level: u8) -> Option<Seq<u8>>;

/// Relies on imagequant: `Attributes::set_speed` and `set_quality` on fresh
/// attributes, `Image::new` over the pixels in sRGB gamma, `quantize`, then
/// `QuantizationResult::remapped`, which gives one index per pixel.
#[verifier::external_body]
fn quantize_rgba(rgba: &Vec<u8>, width: usize, height: usize, speed: u8, minimum: u8, target: u8) -> (r: Result<(Vec<u8>, Vec<u8>), QuantizeError>)
    requires
        rgba@.len() % 4 == 0,
        1 <= speed <= 10,
        minimum <= target <= 100,
    ensures
        match r {
            Ok((p, i)) => quantized_of(rgba@, width, height, speed, minimum, target) == Ok::<(Seq<u8>, Seq<u8>), QuantizeError>((p@, i@))
                && i@.len() == width * height && p@.len() % 4 == 0,
            Err(e) => quantized_of(rgba@, width, height, speed, minimum, target) == Err::<(Seq<u8>, Seq<u8>), QuantizeError>(e),
        },
{
    let fail = |e: imagequant::Error| match e {
        imagequant::Error::QualityTooLow => QuantizeError::QualityTooLow,
        _ => QuantizeError::Failed,
    };
    let mut liq = imagequant::new();
    liq.set_speed(speed as i32).map_err(fail)?;
    liq.set_quality(minimum, target).map_err(fail)?;
    let px = bytemuck::cast_slice::<u8, imagequant::RGBA>(rgba).to_vec();
    let mut img = imagequant::Image::new(&liq, px, width, height, Default::default()).map_err(fail)?;
    let mut res = liq.quantize(&mut img).map_err(fail)?;
    let (pal, idx) = res.remapped(&mut img).map_err(fail)?;
    Ok((bytemuck::cast_slice::<imagequant::RGBA, u8>(&pal).to_vec(), idx))
}

/// Relies on lodepng::Encoder: `set_palette`, `set_auto_convert(false)` and
/// `EncoderSettings::set_level`, then `encode` of the indices.
#[verifier::external_body]
fn encode_indexed_png(palette: &Vec<u8>, indices: &Vec<u8>, width: usize, height: usize, level: u8) -> (r: Option<Vec<u8>>)
    requires
        palette@.len() % 4 == 0,
        indices@.len() == width * height,
        level <= 9,
    ensures
        indexed_png_of(palette@, indices@, width, height, level) == match r {
            Some(v) => Some(v@),
            None => None::<Seq<u8>>,
        },
{
    let mut enc = lodepng::Encoder::new();
    enc.set_auto_convert(false);
    enc.settings_mut().set_level(level);
    enc.set_palette(bytemuck::cast_slice::<u8, rgb::RGBA8>(palette)).ok()?;
    enc.encode(indices.as_slice(), width, height).ok()
}

/// Relies on lodepng::Encoder: `set_auto_convert(false)`, which keeps the
/// default 8-bit RGBA color type, and `EncoderSettings::set_level`, then
/// `encode` of the pixels.
#[verifier::external_body]
fn encode_rgba_png(rgba: &Vec<u8>, width: usize, height: usize, level: u8) -> (r: Option<Vec<u8>>)
    requires
        rgba@.len() == 4 * width * height,
        level <= 9,
    ensures
        rgba_png_of(rgba@, width, height, level) == match r {
            Some(v) => Some(v@),
            None => None::<Seq<u8>>,
        },
{
    let mut enc = lodepng::Encoder::new();
    enc.set_auto_convert(false);
    enc.settings_mut().set_level(level);
    enc.encode(rgba.as_slice(), width, height).ok()
}

/// The zlib level that the deflate-effort flag asks for: the best one when
/// it is set, a moderate one otherwise.
pub fn deflate_level(maximum_deflate: Option<bool>) -> (r: u8)
    ensures
        r == deflate_level_of(maximum_deflate),
        r <= 9,
{
    match maximum_deflate {
        Some(true) => 9,
        _ => 6,
    }
}

pub open spec fn deflate_level_of(maximum_deflate: Option<bool>) -> u8 {
    if maximum_deflate == Some(true) { 9 } else { 6 }
}

/// The quantizer speed: the configured one, or the quantizer's default of 4.
pub open spec fn speed_of(speed: Option<u8>) -> u8 {
    match speed {
        Some(s) => s,
        None => 4,
    }
}

/// What the quantizer's outcome asks to be written: the palette and indices
/// when it found a palette, `None` (the true-color pixels) when the minimum
/// quality was out of reach, `QuantizationFailure` for any other failure.
pub fn select_encoding(quantized: Result<(Vec<u8>, Vec<u8>), QuantizeError>) -> (r: Result<Option<(Vec<u8>, Vec<u8>)>, CodecError>)
    ensures
        match quantized {
            Ok(pi) => r == Ok::<Option<(Vec<u8>, Vec<u8>)>, CodecError>(Some(pi)),
            Err(QuantizeError::QualityTooLow) => r == Ok::<Option<(Vec<u8>, Vec<u8>)>, CodecError>(None),
            Err(QuantizeError::Failed) => r == Err::<Option<(Vec<u8>, Vec<u8>)>, CodecError>(CodecError::QuantizationFailure),
        },
{
    match quantized {
        Ok(pi) => Ok(Some(pi)),
        Err(QuantizeError::QualityTooLow) => Ok(None),
        Err(QuantizeError::Failed) => Err(CodecError::QuantizationFailure),
    }
}

/// The PNG that the encoder writes for RGBA pixels: the palette PNG when the
/// quantizer found a palette, the RGBA PNG when the minimum quality was out of
/// reach.
pub open spec fn png_for(rgba: Seq<u8>, width: usize, height: usize, speed: u8, minimum: u8, target: u8, level: u8) -> Result<Seq<u8>, CodecError> {
    match quantized_of(rgba, width, height, speed, minimum, target) {
        Ok((palette, indices)) => match indexed_png_of(palette, indices, width, height, level) {
            Some(b) => Ok(b),
            None => Err(CodecError::EncodeFailure),
        },
        Err(QuantizeError::QualityTooLow) => match rgba_png_of(rgba, width, height, level) {
            Some(b) => Ok(b),
            None => Err(CodecError::EncodeFailure),
        },
        Err(QuantizeError::Failed) => Err(CodecError::QuantizationFailure),
    }
}

/// `v` limited to `lo..=hi`.
pub open spec fn clamp_spec(v: u8, lo: u8, hi: u8) -> u8 {
    if v < lo { lo } else if v > hi { hi } else { v }
}

fn clamp_u8(v: u8, lo: u8, hi: u8) -> (r: u8)
    requires
        lo <= hi,
    ensures
        r == clamp_spec(v, lo, hi),
{
    if v < lo { lo } else if v > hi { hi } else { v }
}

/// Maximum quality of the configuration: given or 100, at most 100.
pub open spec fn quality_max_of(quality: Option<u8>) -> u8 {
    match quality {
        Some(q) => clamp_spec(q, 0, 100),
        None => 100,
    }
}

/// Minimum quality of the configuration: given or 0, at most 100 and never
/// above the maximum.
pub open spec fn quality_min_of(quality: Option<u8>, minimum_quality: Option<u8>) -> u8 {
    let m = match minimum_quality {
        Some(q) => clamp_spec(q, 0, 100),
        None => 0,
    };
    if m > quality_max_of(quality) { quality_max_of(quality) } else { m }
}

/// A PNG encoder that quantizes to a palette within quality bounds and falls
/// back to true color when the minimum quality cannot be met.
pub struct PngquantEncoder {
    pub io_id: i32,
    pub output: Vec<u8>,
    pub speed: Option<u8>,
    pub quality_min: u8,
    pub quality_max: u8,
    pub maximum_deflate: Option<bool>,
    pub matte: Option<Color>,
}

/// The settings of an encoder satisfy the quantizer's demands.
pub open spec fn settings_ok(e: PngquantEncoder) -> bool {
    &&& e.quality_min <= e.quality_max <= 100
    &&& e.speed matches Some(s) ==> 1 <= s <= 10
}

/// `r` and the sink after the call are those of writing `png`: its bytes are
/// appended and the result describes a `width` by `height` PNG on sink
/// `io_id`; an error leaves the sink unchanged.
pub open spec fn written_ok(
    r: Result<EncodeResult, CodecError>,
    png: Result<Seq<u8>, CodecError>,
    before: Seq<u8>,
    after: Seq<u8>,
    width: u32,
    height: u32,
    io_id: i32,
) -> bool {
    match png {
        Ok(bytes) => {
            &&& r is Ok
            &&& after == before + bytes
            &&& r->Ok_0.w == width as i32
            &&& r->Ok_0.h == height as i32
            &&& r->Ok_0.io_id == io_id
            &&& r->Ok_0.bytes == ResultBytes::Elsewhere
            &&& r->Ok_0.preferred_extension@ == "png"@
            &&& r->Ok_0.preferred_mime_type@ == "image/png"@
        },
        Err(e) => r == Err::<EncodeResult, CodecError>(e) && after == before,
    }
}

/// `rgba` is the RGBA form of the prepared bitmap `nb`, opaque when an opaque
/// matte is set, and `r` with the sink `after` are what writing the PNG that
/// `png_for` gives for it does to encoder `e`; `b` is the bitmap before.
pub open spec fn frame_written(
    rgba: Seq<u8>,
    nb: Bitmap,
    b: Bitmap,
    r: Result<EncodeResult, CodecError>,
    e: PngquantEncoder,
    after: Seq<u8>,
) -> bool {
    &&& rgba.len() == nb.pixels@.len()
    &&& (forall|p: int| 0 <= p < rgba.len() / 4 ==> #[trigger] rgba_pixel_ok(rgba, nb.pixels@, p))
    &&& (e.matte matches Some(m) && m.a == 255 ==> all_opaque(rgba))
    &&& written_ok(
        r,
        png_for(rgba, b.width as usize, b.height as usize, speed_of(e.speed), e.quality_min, e.quality_max, deflate_level_of(e.maximum_deflate)),
        e.output@,
        after,
        b.width,
        b.height,
        e.io_id,
    )
}

impl PngquantEncoder {
    /// An encoder writing to sink `io_id`. Fails with `CodecDisabled`, before
    /// anything is written, when the enabled codecs exclude it. The speed is
    /// clamped to 1..=10, the qualities to 0..=100, and the minimum to the maximum.
    pub fn create(
        enabled: &EnabledCodecs,
        io_id: i32,
        speed: Option<u8>,
        quality: Option<u8>,
        minimum_quality: Option<u8>,
        maximum_deflate: Option<bool>,
        matte: Option<Color>,
    ) -> (r: Result<PngquantEncoder, CodecError>)
        ensures
            !enabled.encoders@.contains(NamedEncoder::PngQuantEncoder) ==> r == Err::<
                PngquantEncoder,
                CodecError,
            >(CodecError::CodecDisabled),
            enabled.encoders@.contains(NamedEncoder::PngQuantEncoder) ==> r is Ok,
            r is Ok ==> {
                let e = r->Ok_0;
                &&& settings_ok(e)
                &&& e.io_id == io_id
                &&& e.output@.len() == 0
                &&& e.quality_max == quality_max_of(quality)
                &&& e.quality_min == quality_min_of(quality, minimum_quality)
                &&& e.speed == match speed {
                    Some(s) => Some(clamp_spec(s, 1, 10)),
                    None => None::<u8>,
                }
                &&& e.maximum_deflate == maximum_deflate
                &&& e.matte == matte
            },
    {
        if !enabled.contains_encoder(NamedEncoder::PngQuantEncoder) {
            return Err(CodecError::CodecDisabled);
        }
        let speed = match speed {
            Some(s) => Some(clamp_u8(s, 1, 10)),
            None => None,
        };
        let max = match quality {
            Some(q) => clamp_u8(q, 0, 100),
            None => 100,
        };
        let min = match minimum_quality {
            Some(q) => clamp_u8(q, 0, 100),
            None => 0,
        };
        let min = if min > max { max } else { min };
        Ok(PngquantEncoder {
            io_id,
            output: Vec::new(),
            speed,
            quality_min: min,
            quality_max: max,
            maximum_deflate,
            matte,
        })
    }

    /// The sink's bytes, for the caller to flush.
    pub fn get_io(&self) -> (r: &Vec<u8>)
        ensures
            r@ == self.output@,
    {
        &self.output
    }

    /// Writes the bitmap under `key` as PNG to the sink. The bitmap is lent
    /// out for the call: an unknown key fails with `InvalidKey`, a key that is
    /// already borrowed with `BorrowConflict`, and nothing changes. Otherwise
    /// the pixels are composited over the matte, if one is set, and color
    /// hidden behind fully transparent pixels is cleared, in the bitmap itself.
    /// Their RGBA form goes to the quantizer; a palette found is written as a
    /// palette PNG, a minimum quality out of reach gives an RGBA PNG of the
    /// pixels, and any other quantizer failure is `QuantizationFailure`.
    pub fn write_frame(&mut self, bitmaps: &mut BitmapStore, key: BitmapKey) -> (r: Result<EncodeResult, CodecError>)
        requires
            old(bitmaps).wf(),
            settings_ok(*old(self)),
        ensures
            final(bitmaps).wf(),
            final(self).io_id == old(self).io_id,
            final(self).speed == old(self).speed,
            final(self).quality_min == old(self).quality_min,
            final(self).quality_max == old(self).quality_max,
            final(self).maximum_deflate == old(self).maximum_deflate,
            final(self).matte == old(self).matte,
            r is Err ==> final(self).output@ == old(self).output@,
            !old(bitmaps).contains(key) ==> r == Err::<EncodeResult, CodecError>(CodecError::InvalidKey)
                && final(bitmaps).slots@ == old(bitmaps).slots@,
            old(bitmaps).is_borrowed(key) ==> r == Err::<EncodeResult, CodecError>(
                CodecError::BorrowConflict,
            ) && final(bitmaps).slots@ == old(bitmaps).slots@,
            old(bitmaps).contains(key) && !old(bitmaps).is_borrowed(key) ==> {
                let b = old(bitmaps).bitmap(key);
                let nb = final(bitmaps).bitmap(key);
                let w = b.width as usize;
                let h = b.height as usize;
                &&& final(bitmaps).slots@ == old(bitmaps).slots@.update(key.index as int, Slot::Available(nb))
                &&& nb.width == b.width && nb.height == b.height
                &&& nb.pixels@.len() == b.pixels@.len()
                &&& prepared_ok(nb.pixels@, b.pixels@, old(self).matte)
                &&& (old(self).matte matches Some(m) && m.a == 255 ==> all_opaque(nb.pixels@))
                &&& exists|rgba: Seq<u8>| #[trigger] frame_written(rgba, nb, b, r, *old(self), final(self).output@)
            },
    {
        let mut bitmap = bitmaps.borrow_exclusive(key)?;
        let ghost orig = bitmap.pixels@;
        match self.matte {
            Some(m) => {
                apply_matte(&mut bitmap.pixels, m);
            },
            None => {},
        }
        let ghost mid = bitmap.pixels@;
        normalize_unused_alpha(&mut bitmap.pixels);
        proof {
            if let Some(m) = self.matte {
                assert(mid.len() == orig.len());
                assert(prepared_ok(bitmap.pixels@, orig, self.matte));
                if m.a == 255 {
                    lemma_matte_then_normalize_opaque(orig, mid, bitmap.pixels@, m);
                }
            }
        }
        let (w, h) = bitmap.size_usize();
        let rgba = bgra_to_rgba(&bitmap.pixels);
        proof {
            if let Some(m) = self.matte {
                if m.a == 255 {
                    lemma_rgba_keeps_opaque(bitmap.pixels@, rgba@);
                }
            }
            assert(rgba@.len() == 4 * w * h) by (nonlinear_arith)
                requires rgba@.len() == bitmap.pixels@.len(), bitmap.wf(), w == bitmap.width, h == bitmap.height;
        }
        let ghost nb = bitmap;
        let encoded = self.encode_frame(&rgba, w, h);
        assert(bitmap.wf());
        assert(bitmaps.is_borrowed(key));
        match bitmaps.release(key, bitmap) {
            Ok(()) => {},
            Err(e) => {
                return Err(e);
            },
        }
        let result: Result<EncodeResult, CodecError> = match encoded {
            Ok(mut png) => {
                self.output.append(&mut png);
                Ok(EncodeResult {
                    w: w as i32,
                    h: h as i32,
                    io_id: self.io_id,
                    bytes: ResultBytes::Elsewhere,
                    preferred_extension: String::from_str("png"),
                    preferred_mime_type: String::from_str("image/png"),
                })
            },
            Err(e) => Err(e),
        };
        proof {
            let png = png_for(rgba@, w, h, speed_of(self.speed), self.quality_min, self.quality_max, deflate_level_of(self.maximum_deflate));
            assert(written_ok(result, png, old(self).output@, self.output@, nb.width, nb.height, self.io_id));
            assert(bitmaps.bitmap(key) == nb);
            assert(bitmaps.slots@ =~= old(bitmaps).slots@.update(key.index as int, Slot::Available(nb)));
            assert(old(bitmaps).bitmap(key).pixels@ == orig);
            assert(prepared_ok(nb.pixels@, orig, self.matte));
            assert(rgba@.len() == nb.pixels@.len());
            assert(forall|p: int| 0 <= p < rgba@.len() / 4 ==> #[trigger] rgba_pixel_ok(rgba@, nb.pixels@, p));
            assert(frame_written(rgba@, nb, old(bitmaps).bitmap(key), result, *old(self), self.output@));
        }
        result
    }

    /// The PNG of the RGBA pixels as `png_for` gives it.
    fn encode_frame(&self, rgba: &Vec<u8>, w: usize, h: usize) -> (r: Result<Vec<u8>, CodecError>)
        requires
            rgba@.len() == 4 * w * h,
            settings_ok(*self),
        ensures
            match png_for(rgba@, w, h, speed_of(self.speed), self.quality_min, self.quality_max, deflate_level_of(self.maximum_deflate)) {
                Ok(bytes) => r is Ok && r->Ok_0@ == bytes,
                Err(e) => r == Err::<Vec<u8>, CodecError>(e),
            },
    {
        let speed = match self.speed {
            Some(s) => s,
            None => 4,
        };
        let level = deflate_level(self.maximum_deflate);
        proof {
            assert(4 * w * h == 4 * (w * h)) by (nonlinear_arith);
        }
        let quantized = quantize_rgba(rgba, w, h, speed, self.quality_min, self.quality_max);
        let png = match select_encoding(quantized) {
            Ok(Some((palette, indices))) => encode_indexed_png(&palette, &indices, w, h, level),
            Ok(None) => encode_rgba_png(rgba, w, h, level),
            Err(e) => {
                return Err(e);
            },
        };
        match png {
            Some(bytes) => Ok(bytes),
            None => Err(CodecError::EncodeFailure),
        }
    }
}

/// `new` is `old` composited over the matte, if any, and then cleared where
/// fully transparent.
pub open spec fn prepared_ok(new: Seq<u8>, old: Seq<u8>, matte: Option<Color>) -> bool {
    match matte {
        None => forall|p: int| 0 <= p < old.len() / 4 ==> #[trigger] normalized_pixel_ok(new, old, p),
        Some(m) => exists|mid: Seq<u8>|
            mid.len() == old.len() && (forall|p: int| 0 <= p < old.len() / 4
                ==> #[trigger] matte_pixel_ok(mid, old, m, p)) && (forall|p: int|
                0 <= p < old.len() / 4 ==> #[trigger] normalized_pixel_ok(new, mid, p)),
    }
}

/// Compositing over an opaque matte and then clearing fully transparent
/// pixels leaves every pixel opaque: no transparency reaches the quantizer.
pub proof fn lemma_matte_then_normalize_opaque(orig: Seq<u8>, mid: Seq<u8>, new: Seq<u8>, m: Color)
    requires
        m.a == 255,
        mid.len() == orig.len(),
        new.len() == mid.len(),
        forall|p: int| 0 <= p < orig.len() / 4 ==> #[trigger] matte_pixel_ok(mid, orig, m, p),
        forall|p: int| 0 <= p < mid.len() / 4 ==> #[trigger] normalized_pixel_ok(new, mid, p),
    ensures
        all_opaque(mid),
        all_opaque(new),
{
    assert forall|p: int| 0 <= p < mid.len() / 4 implies #[trigger] alpha_at(mid, p) == 255 by {
        assert(matte_pixel_ok(mid, orig, m, p));
        crate::pixels::lemma_blend_alpha_opaque(orig[4 * p + 3]);
    }
    assert forall|p: int| 0 <= p < new.len() / 4 implies #[trigger] alpha_at(new, p) == 255 by {
        assert(normalized_pixel_ok(new, mid, p));
        assert(alpha_at(mid, p) == 255);
    }
}

/// The RGBA order keeps each pixel's alpha, so an opaque BGRA buffer stays
/// opaque when flattened for the quantizer.
pub proof fn lemma_rgba_keeps_opaque(bgra: Seq<u8>, rgba: Seq<u8>)
    requires
        all_opaque(bgra),
        rgba.len() == bgra.len(),
        forall|p: int| 0 <= p < bgra.len() / 4 ==> #[trigger] rgba_pixel_ok(rgba, bgra, p),
    ensures
        all_opaque(rgba),
{
    assert forall|p: int| 0 <= p < rgba.len() / 4 implies #[trigger] alpha_at(rgba, p) == 255 by {
        assert(rgba_pixel_ok(rgba, bgra, p));
        assert(alpha_at(bgra, p) == 255);
    }
}

} // verus!
