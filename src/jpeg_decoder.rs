use vstd::prelude::*;
use vstd::string::StringExecFns;
use crate::bitmap::{BitmapStore, BitmapKey, PixelLayout, ColorSpace, BitmapCompositing, raster_len};
use crate::error::CodecError;
use crate::info::{ImageInfo, PixelFormat, DecoderCommand};
use crate::pixels::{all_opaque, alpha_at, rgb24_to_bgra, gray_to_bgra, rgb24_pixel_ok, gray_pixel_ok};

verus! {

/// Layout of the samples that the JPEG library hands back.
#[derive(Debug, Clone, Copy, PartialEq, Eq, Structural)]
pub enum NativeFormat {
    L8,
    L16,
    Rgb24,
    Cmyk32,
}

/// Width, height and sample layout in the header of a JPEG stream, or `None`
/// where the header is malformed or truncated.
pub uninterp spec fn jpeg_header_of(data: Seq<u8>) -> Option<(u16, u16, NativeFormat)>;

/// The decoded samples of a JPEG stream, row after row, or `None` where the
/// stream cannot be decoded.
pub uninterp spec fn jpeg_samples_of(data: Seq<u8>) -> Option<Seq<u8>>;

/// Relies on jpeg_decoder::Decoder::read_info, then Decoder::info: the header
/// of the stream; an error of `read_info` becomes `None`.
#[verifier::external_body]
fn parse_header(data: &Vec<u8>) -> (r: Option<(u16, u16, NativeFormat)>)
    ensures
        r == jpeg_header_of(data@),
{
    let mut d = jpeg_decoder::Decoder::new(data.as_slice());
    d.read_info().ok()?;
    d.info().map(|i| (i.width, i.height, match i.pixel_format {
        jpeg_decoder::PixelFormat::L8 => NativeFormat::L8,
        jpeg_decoder::PixelFormat::L16 => NativeFormat::L16,
        jpeg_decoder::PixelFormat::RGB24 => NativeFormat::Rgb24,
        jpeg_decoder::PixelFormat::CMYK32 => NativeFormat::Cmyk32,
    }))
}

/// Relies on jpeg_decoder::Decoder::decode: the decoded samples of the
/// stream; an error becomes `None`.
#[verifier::external_body]
fn decode_samples(data: &Vec<u8>) -> (r: Option<Vec<u8>>)
    ensures
        jpeg_samples_of(data@) == match r {
            Some(v) => Some(v@),
            None => None::<Seq<u8>>,
        },
{
    jpeg_decoder::Decoder::new(data.as_slice()).decode().ok()
}

/// Bytes per sample of the layouts that convert to BGRA.
pub open spec fn sample_bytes(f: NativeFormat) -> nat {
    if f == NativeFormat::Rgb24 { 3 } else { 1 }
}

/// A single-frame JPEG decoder: Fresh, then HeaderRead once the header is
/// parsed, then decoded into a canonical BGRA bitmap.
pub struct JpegDecoder {
    pub data: Vec<u8>,
    pub io_id: i32,
    pub width: Option<i32>,
    pub height: Option<i32>,
    pub pixel_format: Option<NativeFormat>,
}

/// The image information of a JPEG whose header gave `width` by `height`.
pub open spec fn jpeg_info_ok(info: ImageInfo, width: i32, height: i32) -> bool {
    &&& info.frame_decodes_into == PixelFormat::Bgra32
    &&& info.image_width == width
    &&& info.image_height == height
    &&& info.preferred_mime_type@ == "image/jpeg"@
    &&& info.preferred_extension@ == "jpg"@
    &&& !info.lossless
    &&& !info.multiple_frames
}

/// Two reports of the same header agree field by field: repeated calls of
/// `get_unscaled_image_info`, which leave a parsed decoder unchanged, return
/// identical information.
pub proof fn lemma_image_info_determined(a: ImageInfo, b: ImageInfo, width: i32, height: i32)
    requires
        jpeg_info_ok(a, width, height),
        jpeg_info_ok(b, width, height),
    ensures
        a.frame_decodes_into == b.frame_decodes_into,
        a.image_width == b.image_width,
        a.image_height == b.image_height,
        a.preferred_mime_type@ == b.preferred_mime_type@,
        a.preferred_extension@ == b.preferred_extension@,
        a.lossless == b.lossless,
        a.multiple_frames == b.multiple_frames,
{
}

impl JpegDecoder {
    /// The header has been parsed: dimensions and layout are known.
    pub open spec fn header_read(&self) -> bool {
        self.width is Some
    }

    /// The header fields are all unknown, or all equal to the stream's header.
    pub open spec fn wf(&self) -> bool {
        &&& self.width is Some <==> self.height is Some
        &&& self.width is Some <==> self.pixel_format is Some
        &&& self.width is Some ==> self.matches_header(jpeg_header_of(self.data@)->Some_0)
            && jpeg_header_of(self.data@) is Some
    }

    /// The recorded header fields are those of `hdr`.
    pub open spec fn matches_header(&self, hdr: (u16, u16, NativeFormat)) -> bool {
        &&& self.width == Some(hdr.0 as i32)
        &&& self.height == Some(hdr.1 as i32)
        &&& self.pixel_format == Some(hdr.2)
    }

    pub open spec fn width_of(&self) -> i32 {
        self.width->Some_0
    }

    pub open spec fn height_of(&self) -> i32 {
        self.height->Some_0
    }

    /// A decoder over the bytes of a JPEG stream; nothing is read yet.
    pub fn create(data: Vec<u8>, io_id: i32) -> (r: Result<JpegDecoder, CodecError>)
        ensures
            r is Ok,
            r->Ok_0.wf(),
            !r->Ok_0.header_read(),
            r->Ok_0.io_id == io_id,
            r->Ok_0.data@ == data@,
    {
        Ok(JpegDecoder { data, io_id, width: None, height: None, pixel_format: None })
    }

    /// Nothing to prepare: always succeeds.
    pub fn initialize(&mut self) -> (r: Result<(), CodecError>)
        ensures
            r is Ok,
            *final(self) == *old(self),
    {
        Ok(())
    }

    fn image_info(&self) -> (r: ImageInfo)
        requires
            self.wf(),
            self.header_read(),
        ensures
            jpeg_info_ok(r, self.width_of(), self.height_of()),
    {
        ImageInfo {
            frame_decodes_into: PixelFormat::Bgra32,
            image_width: *self.width.as_ref().unwrap(),
            image_height: *self.height.as_ref().unwrap(),
            preferred_mime_type: String::from_str("image/jpeg"),
            preferred_extension: String::from_str("jpg"),
            lossless: false,
            multiple_frames: false,
        }
    }

    /// Parses the header on first use and reports the image: `Ok` exactly
    /// when the stream's header parses, with its width and height. Later calls
    /// return the same information without parsing again. On failure the
    /// decoder is unchanged.
    pub fn get_unscaled_image_info(&mut self) -> (r: Result<ImageInfo, CodecError>)
        requires
            old(self).wf(),
        ensures
            final(self).wf(),
            old(self).header_read() ==> *final(self) == *old(self) && r is Ok,
            r is Ok <==> jpeg_header_of(old(self).data@) is Some,
            r is Err ==> r == Err::<ImageInfo, CodecError>(CodecError::InputFormat)
                && *final(self) == *old(self),
            r is Ok ==> {
                let hdr = jpeg_header_of(old(self).data@)->Some_0;
                &&& final(self).data == old(self).data
                &&& final(self).io_id == old(self).io_id
                &&& final(self).matches_header(hdr)
                &&& jpeg_info_ok(r->Ok_0, hdr.0 as i32, hdr.1 as i32)
            },
    {
        if self.width.is_none() {
            match parse_header(&self.data) {
                Some((w, h, f)) => {
                    self.width = Some(w as i32);
                    self.height = Some(h as i32);
                    self.pixel_format = Some(f);
                },
                None => {
                    return Err(CodecError::InputFormat);
                },
            }
        }
        Ok(self.image_info())
    }

    /// This decoder does not scale: the same as `get_unscaled_image_info`.
    pub fn get_scaled_image_info(&mut self) -> (r: Result<ImageInfo, CodecError>)
        requires
            old(self).wf(),
        ensures
            final(self).wf(),
            old(self).header_read() ==> *final(self) == *old(self) && r is Ok,
            r is Ok <==> jpeg_header_of(old(self).data@) is Some,
            r is Err ==> r == Err::<ImageInfo, CodecError>(CodecError::InputFormat)
                && *final(self) == *old(self),
            r is Ok ==> {
                let hdr = jpeg_header_of(old(self).data@)->Some_0;
                &&& final(self).data == old(self).data
                &&& final(self).io_id == old(self).io_id
                &&& final(self).matches_header(hdr)
                &&& jpeg_info_ok(r->Ok_0, hdr.0 as i32, hdr.1 as i32)
            },
    {
        self.get_unscaled_image_info()
    }

    /// Orientation is not read from the stream: always "none present".
    pub fn get_exif_rotation_flag(&mut self) -> (r: Result<Option<i32>, CodecError>)
        ensures
            r == Ok::<Option<i32>, CodecError>(None),
            *final(self) == *old(self),
    {
        Ok(None)
    }

    /// Accepts a decoding directive and ignores it.
    pub fn tell_decoder(&mut self, tell: DecoderCommand) -> (r: Result<(), CodecError>)
        ensures
            r is Ok,
            *final(self) == *old(self),
    {
        Ok(())
    }

    /// JPEG holds a single frame.
    pub fn has_more_frames(&mut self) -> (r: Result<bool, CodecError>)
        ensures
            r == Ok::<bool, CodecError>(false),
            *final(self) == *old(self),
    {
        Ok(false)
    }

    /// Parses the header if needed, decodes the samples and stores them as a
    /// new opaque BGRA bitmap of the header's dimensions, in standard RGB,
    /// compositing mode "replace". A stream whose header or samples cannot be
    /// decoded gives `InputFormat`; layouts other than 8-bit RGB and 8-bit gray
    /// give `UnsupportedLayout`; samples whose length disagrees with the
    /// dimensions are an `InternalConsistency` fault. No bitmap is added on
    /// failure.
    pub fn read_frame(&mut self, bitmaps: &mut BitmapStore) -> (r: Result<BitmapKey, CodecError>)
        requires
            old(self).wf(),
            old(bitmaps).wf(),
        ensures
            final(self).wf(),
            final(bitmaps).wf(),
            final(self).data == old(self).data,
            final(self).io_id == old(self).io_id,
            old(self).header_read() ==> final(self).width == old(self).width
                && final(self).height == old(self).height
                && final(self).pixel_format == old(self).pixel_format,
            r is Err ==> final(bitmaps).slots@ == old(bitmaps).slots@,
            jpeg_header_of(old(self).data@) is None ==> r == Err::<BitmapKey, CodecError>(
                CodecError::InputFormat,
            ),
            jpeg_header_of(old(self).data@) matches Some(hdr) ==> {
                let (w, h, f) = hdr;
                let samples = jpeg_samples_of(old(self).data@);
                &&& final(self).matches_header(hdr)
                &&& f != NativeFormat::Rgb24 && f != NativeFormat::L8 ==> r == Err::<
                    BitmapKey,
                    CodecError,
                >(CodecError::UnsupportedLayout)
                &&& (f == NativeFormat::Rgb24 || f == NativeFormat::L8) && samples is None ==> r
                    == Err::<BitmapKey, CodecError>(CodecError::InputFormat)
                &&& (f == NativeFormat::Rgb24 || f == NativeFormat::L8) && samples is Some && samples->Some_0.len() != sample_bytes(f) * (w as nat) * (h as nat) ==> r == Err::<
                    BitmapKey,
                    CodecError,
                >(CodecError::InternalConsistency)
                &&& (f == NativeFormat::Rgb24 || f == NativeFormat::L8) && samples is Some && samples->Some_0.len() == sample_bytes(f) * (w as nat) * (h as nat) && raster_len(
                    w as u32,
                    h as u32,
                ) <= usize::MAX ==> r is Ok
                &&& r is Ok ==> {
                    let k = r->Ok_0;
                    let b = final(bitmaps).bitmap(k);
                    let s = samples->Some_0;
                    &&& samples is Some
                    &&& k.index == old(bitmaps).slots@.len()
                    &&& final(bitmaps).slots@.len() == old(bitmaps).slots@.len() + 1
                    &&& forall|i: int| 0 <= i < old(bitmaps).slots@.len()
                        ==> final(bitmaps).slots@[i] == old(bitmaps).slots@[i]
                    &&& final(bitmaps).contains(k)
                    &&& !final(bitmaps).is_borrowed(k)
                    &&& b.width == w as u32
                    &&& b.height == h as u32
                    &&& b.layout == PixelLayout::Bgra
                    &&& !b.has_alpha
                    &&& b.color_space == ColorSpace::StandardRGB
                    &&& b.compositing == BitmapCompositing::ReplaceSelf
                    &&& b.wf()
                    &&& all_opaque(b.pixels@)
                    &&& f == NativeFormat::Rgb24 ==> forall|p: int|
                        0 <= p < (w as int) * (h as int) ==> #[trigger] rgb24_pixel_ok(b.pixels@, s, p)
                    &&& f == NativeFormat::L8 ==> forall|p: int|
                        0 <= p < (w as int) * (h as int) ==> #[trigger] gray_pixel_ok(b.pixels@, s, p)
                }
            },
    {
        if self.width.is_none() {
            let _ = self.get_scaled_image_info()?;
        }
        let format = *self.pixel_format.as_ref().unwrap();
        match format {
            NativeFormat::Rgb24 => {},
            NativeFormat::L8 => {},
            _ => {
                return Err(CodecError::UnsupportedLayout);
            },
        }
        let samples = match decode_samples(&self.data) {
            Some(v) => v,
            None => {
                return Err(CodecError::InputFormat);
            },
        };
        let w = *self.width.as_ref().unwrap();
        let h = *self.height.as_ref().unwrap();
        let per: u64 = if format == NativeFormat::Rgb24 { 3 } else { 1 };
        proof {
            assert((w as nat) * (h as nat) <= 65535 * 65535) by (nonlinear_arith)
                requires 0 <= w <= 65535, 0 <= h <= 65535;
        }
        let expected: u64 = per * ((w as u64) * (h as u64));
        if samples.len() as u64 != expected {
            proof {
                assert(per * ((w as nat) * (h as nat)) == sample_bytes(format) * (w as nat) * (h as nat))
                    by (nonlinear_arith) requires per == sample_bytes(format);
            }
            return Err(CodecError::InternalConsistency);
        }
        proof {
            assert(per * ((w as nat) * (h as nat)) == sample_bytes(format) * (w as nat) * (h as nat))
                by (nonlinear_arith) requires per == sample_bytes(format);
        }
        let key = bitmaps.create_bitmap(
            w as u32,
            h as u32,
            PixelLayout::Bgra,
            false,
            ColorSpace::StandardRGB,
            BitmapCompositing::ReplaceSelf,
        )?;
        let ghost mid = bitmaps.slots@;
        let mut bitmap = match bitmaps.borrow_exclusive(key) {
            Ok(b) => b,
            Err(e) => {
                return Err(e);
            },
        };
        let count = bitmap.pixels.len() / 4;
        assert(4 * count == bitmap.pixels@.len());
        assert(count == (w as nat) * (h as nat));
        let converted = if format == NativeFormat::Rgb24 {
            rgb24_to_bgra(&samples, count)
        } else {
            gray_to_bgra(&samples, count)
        };
        proof {
            assert forall|p: int| 0 <= p < converted@.len() / 4 implies #[trigger] alpha_at(
                converted@,
                p,
            ) == 255 by {
                if format == NativeFormat::Rgb24 {
                    assert(rgb24_pixel_ok(converted@, samples@, p));
                } else {
                    assert(gray_pixel_ok(converted@, samples@, p));
                }
            }
        }
        bitmap.pixels = converted;
        assert(bitmap.wf());
        assert(bitmaps.is_borrowed(key));
        match bitmaps.release(key, bitmap) {
            Ok(()) => {},
            Err(e) => {
                return Err(e);
            },
        }
        proof {
            assert forall|i: int| 0 <= i < old(bitmaps).slots@.len() implies bitmaps.slots@[i]
                == old(bitmaps).slots@[i] by {
                assert(mid[i] == old(bitmaps).slots@[i]);
            }
        }
        Ok(key)
    }
}

} // verus!
