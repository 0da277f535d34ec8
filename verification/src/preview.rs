//! The preview renderer: one JPEG per frame of the pixel data, as base64
//! text, or nothing at all where any stage fails.

use vstd::prelude::*;
use crate::element::text_model;
use crate::report::{DebugModel, DicomDebugInfo};
use crate::text::{decimal_text, push_decimal, text_is};
use dicom_pixeldata::{ConvertOptions, DecodedPixelData, VoiLutOption};
use image::codecs::jpeg::JpegEncoder;
use image::{ColorType, DynamicImage, ExtendedColorType};

verus! {

/// The JPEG quality of the previews.
pub const PREVIEW_QUALITY: u8 = 60;

/// How the samples of an image are laid out.
#[derive(Clone, Copy, Debug, PartialEq, Eq, Structural)]
pub enum ColorLayout {
    /// One sample of luminance for each pixel.
    Gray,
    /// Three samples for each pixel: red, green and blue.
    Rgb,
}

impl ColorLayout {
    /// The number of samples for each pixel.
    pub open spec fn channels(self) -> int {
        match self {
            ColorLayout::Gray => 1,
            ColorLayout::Rgb => 3,
        }
    }
}

/// What became of one frame.
#[derive(Debug)]
pub enum FrameOutcome {
    /// The frame as a JPEG in base64.
    Rendered(String),
    /// The frame could not be converted to an image; the text says why.
    ConvertFailed(String),
    /// The image could not be encoded; the text says why.
    EncodeFailed(String),
}

/// The mathematical model of a [`FrameOutcome`].
pub ghost enum OutcomeModel {
    Rendered(Seq<char>),
    ConvertFailed(Seq<char>),
    EncodeFailed(Seq<char>),
}

impl View for FrameOutcome {
    type V = OutcomeModel;

    open spec fn view(&self) -> OutcomeModel {
        match self {
            FrameOutcome::Rendered(t) => OutcomeModel::Rendered(t@),
            FrameOutcome::ConvertFailed(t) => OutcomeModel::ConvertFailed(t@),
            FrameOutcome::EncodeFailed(t) => OutcomeModel::EncodeFailed(t@),
        }
    }
}

/// The models of a list of outcomes, in order.
pub open spec fn outcomes_model(outcomes: Seq<FrameOutcome>) -> Seq<OutcomeModel> {
    Seq::new(outcomes.len(), |i: int| outcomes[i]@)
}

/// The views of a list of strings, in order.
pub open spec fn texts_model(texts: Seq<String>) -> Seq<Seq<char>> {
    Seq::new(texts.len(), |i: int| texts[i]@)
}

/// The model of a set of previews.
pub open spec fn preview_model(preview: Option<Vec<String>>) -> Option<Seq<Seq<char>>> {
    match preview {
        Some(images) => Some(texts_model(images@)),
        None => None,
    }
}

/// The model of what decoding and rendering gave: the outcomes of the
/// frames, or why the pixel data could not be decoded.
pub open spec fn attempt_model(attempt: Result<Vec<FrameOutcome>, String>) -> Result<
    Seq<OutcomeModel>,
    Seq<char>,
> {
    match attempt {
        Ok(outcomes) => Ok(outcomes_model(outcomes@)),
        Err(detail) => Err(detail@),
    }
}

/// The number of frames to render: what the report says, or 1 where it
/// says nothing.
pub open spec fn frames_to_render(number_of_frames: Option<i32>) -> int {
    match number_of_frames {
        Some(n) => n as int,
        None => 1,
    }
}

/// The layout in which frames are encoded: gray exactly where the
/// photometric interpretation is `MONOCHROME2` and there is one sample for
/// each pixel, else RGB.
pub open spec fn layout_for(photometric: Option<Seq<char>>, samples: Option<i32>) -> ColorLayout {
    if photometric == Some("MONOCHROME2"@) && samples == Some(1i32) {
        ColorLayout::Gray
    } else {
        ColorLayout::Rgb
    }
}

/// The message recorded where the pixel data cannot be decoded.
pub open spec fn decode_failure(detail: Seq<char>) -> Seq<char> {
    "Pixel data decode error: "@ + detail
}

/// The message recorded where frame `index` cannot be converted.
pub open spec fn convert_failure(index: nat, detail: Seq<char>) -> Seq<char> {
    "Image conversion error for frame "@ + decimal_text(index) + ": "@ + detail
}

/// The message recorded where frame `index` cannot be encoded.
pub open spec fn encode_failure(index: nat, detail: Seq<char>) -> Seq<char> {
    "JPEG encoding error for frame "@ + decimal_text(index) + ": "@ + detail
}

/// The position of the first frame that failed, if any did.
pub open spec fn first_failure(outcomes: Seq<OutcomeModel>) -> Option<int>
    decreases outcomes.len(),
{
    if outcomes.len() == 0 {
        None
    } else {
        match first_failure(outcomes.drop_last()) {
            Some(i) => Some(i),
            None => if outcomes.last() is Rendered {
                None
            } else {
                Some(outcomes.len() - 1)
            },
        }
    }
}

/// The images of a list of outcomes that all are rendered frames.
pub open spec fn rendered_images(outcomes: Seq<OutcomeModel>) -> Seq<Seq<char>> {
    Seq::new(outcomes.len(), |i: int| outcomes[i]->Rendered_0)
}

/// The previews that an attempt yields: all the images where the pixel
/// data was decoded and every frame, of at least one, was rendered; else
/// none, whatever was rendered before a failure.
pub open spec fn previews_of(attempt: Result<Seq<OutcomeModel>, Seq<char>>) -> Option<
    Seq<Seq<char>>,
> {
    match attempt {
        Ok(outcomes) => if first_failure(outcomes) is None && outcomes.len() > 0 {
            Some(rendered_images(outcomes))
        } else {
            None
        },
        Err(_) => None,
    }
}

/// The report after an attempt: the first failure, if there is one, is
/// recorded in the field of its stage, and nothing else changes.
pub open spec fn report_after(
    before: DebugModel,
    attempt: Result<Seq<OutcomeModel>, Seq<char>>,
) -> DebugModel {
    match attempt {
        Err(detail) => DebugModel { pixel_decode_error: Some(decode_failure(detail)), ..before },
        Ok(outcomes) => match first_failure(outcomes) {
            None => before,
            Some(i) => match outcomes[i] {
                OutcomeModel::ConvertFailed(detail) => DebugModel {
                    pixel_convert_error: Some(convert_failure(i as nat, detail)),
                    ..before
                },
                OutcomeModel::EncodeFailed(detail) => DebugModel {
                    pixel_encode_error: Some(encode_failure(i as nat, detail)),
                    ..before
                },
                OutcomeModel::Rendered(_) => before,
            },
        },
    }
}

/// The number of frames to render.
pub fn frame_count(debug_info: &DicomDebugInfo) -> (frames: i32)
    ensures
        frames == frames_to_render(debug_info@.number_of_frames),
{
    match debug_info.number_of_frames {
        Some(n) => n,
        None => 1,
    }
}

/// The layout in which the frames are encoded.
pub fn select_layout(debug_info: &DicomDebugInfo) -> (layout: ColorLayout)
    ensures
        layout == layout_for(
            debug_info@.photometric_interpretation,
            debug_info@.samples_per_pixel,
        ),
{
    let monochrome = match &debug_info.photometric_interpretation {
        Some(code) => text_is(code, "MONOCHROME2"),
        None => false,
    };
    let single = match debug_info.samples_per_pixel {
        Some(samples) => samples == 1,
        None => false,
    };
    if monochrome && single {
        ColorLayout::Gray
    } else {
        ColorLayout::Rgb
    }
}

/// Builds the message `prefix`, the frame's number, a colon and `detail`.
fn frame_message(prefix: &str, index: usize, detail: &String) -> (message: String)
    ensures
        message@ == prefix@ + decimal_text(index as nat) + ": "@ + detail@,
{
    let mut message = String::from_str(prefix);
    push_decimal(&mut message, index as u128);
    message.append(": ");
    message.append(detail.as_str());
    assert(message@ =~= prefix@ + decimal_text(index as nat) + ": "@ + detail@);
    message
}

/// Concludes an attempt at rendering: hands back the previews, if every
/// frame of at least one was rendered, and records in the report the first
/// failure, if there was one. A failure discards every frame rendered
/// before it.
pub fn record_preview(attempt: Result<Vec<FrameOutcome>, String>, debug_info: &mut DicomDebugInfo) -> (preview:
    Option<Vec<String>>)
    ensures
        preview_model(preview) == previews_of(attempt_model(attempt)),
        final(debug_info)@ == report_after(old(debug_info)@, attempt_model(attempt)),
        old(debug_info)@.well_formed() && old(debug_info)@.pixel_failures() == 0 ==> final(debug_info)@.well_formed(),
{
    match attempt {
        Err(detail) => {
            let mut message = String::from_str("Pixel data decode error: ");
            message.append(detail.as_str());
            debug_info.pixel_decode_error = Some(message);
            None
        },
        Ok(outcomes) => {
            let ghost items = outcomes@;
            let ghost all = outcomes_model(items);
            let mut images: Vec<String> = Vec::new();
            let mut i: usize = 0;
            assert(all.take(0) =~= Seq::empty());
            assert(texts_model(images@) =~= rendered_images(all.take(0)));
            while i < outcomes.len()
                invariant
                    i <= outcomes.len(),
                    items == outcomes@,
                    all == outcomes_model(items),
                    attempt_model(attempt) == Ok::<Seq<OutcomeModel>, Seq<char>>(all),
                    first_failure(all.take(i as int)) is None,
                    texts_model(images@) == rendered_images(all.take(i as int)),
                    debug_info == old(debug_info),
                decreases outcomes.len() - i,
            {
                proof {
                    assert(all.take(i + 1).drop_last() =~= all.take(i as int));
                    assert(all.take(i + 1).last() == all[i as int]);
                    assert(all[i as int] == outcomes@[i as int]@);
                    lemma_first_failure_prefix(all, i + 1);
                    if !(all[i as int] is Rendered) {
                        assert(first_failure(all.take(i + 1)) == Some(i as int));
                    }
                }
                match &outcomes[i] {
                    FrameOutcome::Rendered(image) => {
                        let ghost before = texts_model(images@);
                        images.push(image.clone());
                        assert(texts_model(images@) =~= before.push(image@));
                        assert(texts_model(images@) =~= rendered_images(all.take(i + 1)));
                    },
                    FrameOutcome::ConvertFailed(detail) => {
                        debug_info.pixel_convert_error = Some(
                            frame_message("Image conversion error for frame ", i, detail),
                        );
                        return None;
                    },
                    FrameOutcome::EncodeFailed(detail) => {
                        debug_info.pixel_encode_error = Some(
                            frame_message("JPEG encoding error for frame ", i, detail),
                        );
                        return None;
                    },
                }
                i = i + 1;
            }
            assert(all.take(i as int) =~= all);
            if images.len() == 0 {
                None
            } else {
                Some(images)
            }
        },
    }
}

/// A frame's samples, row by row, with the size of the frame.
#[derive(Debug)]
pub struct Raster {
    pub data: Vec<u8>,
    pub width: u32,
    pub height: u32,
    pub layout: ColorLayout,
}

impl Raster {
    /// The number of samples that a frame of this size and layout has.
    pub open spec fn expected_len(&self) -> int {
        self.width as int * self.height as int * self.layout.channels()
    }

    /// Whether the raster holds exactly the samples of its frame.
    pub open spec fn consistent(&self) -> bool {
        self.data@.len() == self.expected_len()
    }

    /// The number of samples that a frame of this size and layout has.
    pub fn sample_count(&self) -> (count: u128)
        ensures
            count == self.expected_len(),
    {
        let channels: u128 = match self.layout {
            ColorLayout::Gray => 1,
            ColorLayout::Rgb => 3,
        };
        let width: u128 = self.width as u128;
        let height: u128 = self.height as u128;
        assert(width * height <= 0xFFFF_FFFF * 0xFFFF_FFFF) by (nonlinear_arith)
            requires
                0 <= width <= 0xFFFF_FFFF,
                0 <= height <= 0xFFFF_FFFF,
        ;
        assert(width * height * channels <= 0xFFFF_FFFF * 0xFFFF_FFFF * 3) by (nonlinear_arith)
            requires
                0 <= width * height <= 0xFFFF_FFFF * 0xFFFF_FFFF,
                0 <= channels <= 3,
        ;
        width * height * channels
    }
}

/// Pixel data in decoded form, with what is needed to turn its frames into
/// images.
#[verifier::external_type_specification]
#[verifier::external_body]
pub struct ExDecodedPixelData<'a>(DecodedPixelData<'a>);

/// An image whose pixel type is known only at run time.
#[verifier::external_type_specification]
#[verifier::external_body]
pub struct ExDynamicImage(DynamicImage);

/// The number of frames that decoded pixel data holds.
pub uninterp spec fn pixel_frames(pixels: DecodedPixelData) -> u32;

/// Reads the number of frames with `DecodedPixelData::number_of_frames`.
#[verifier::external_body]
fn number_of_frames(pixels: &DecodedPixelData) -> (frames: u32)
    ensures
        frames == pixel_frames(*pixels),
{
    pixels.number_of_frames()
}

/// The number of rows of decoded pixel data.
pub uninterp spec fn pixel_rows(pixels: DecodedPixelData) -> u32;

/// Reads the number of rows with `DecodedPixelData::rows`.
#[verifier::external_body]
fn rows_of(pixels: &DecodedPixelData) -> (rows: u32)
    ensures
        rows == pixel_rows(*pixels),
{
    pixels.rows()
}

/// The number of columns of decoded pixel data.
pub uninterp spec fn pixel_columns(pixels: DecodedPixelData) -> u32;

/// Reads the number of columns with `DecodedPixelData::columns`.
#[verifier::external_body]
fn columns_of(pixels: &DecodedPixelData) -> (columns: u32)
    ensures
        columns == pixel_columns(*pixels),
{
    pixels.columns()
}

/// The number of samples for each pixel of decoded pixel data.
pub uninterp spec fn pixel_samples(pixels: DecodedPixelData) -> u16;

/// Reads the samples per pixel with `DecodedPixelData::samples_per_pixel`.
#[verifier::external_body]
fn samples_per_pixel(pixels: &DecodedPixelData) -> (samples: u16)
    ensures
        samples == pixel_samples(*pixels),
{
    pixels.samples_per_pixel()
}

/// The number of bits allocated for each sample of decoded pixel data.
pub uninterp spec fn pixel_bits_allocated(pixels: DecodedPixelData) -> u16;

/// Reads the bits allocated with `DecodedPixelData::bits_allocated`.
#[verifier::external_body]
fn bits_allocated(pixels: &DecodedPixelData) -> (bits: u16)
    ensures
        bits == pixel_bits_allocated(*pixels),
{
    pixels.bits_allocated()
}

/// The number of bits used of each sample of decoded pixel data.
pub uninterp spec fn pixel_bits_stored(pixels: DecodedPixelData) -> u16;

/// Reads the bits stored with `DecodedPixelData::bits_stored`.
#[verifier::external_body]
fn bits_stored(pixels: &DecodedPixelData) -> (bits: u16)
    ensures
        bits == pixel_bits_stored(*pixels),
{
    pixels.bits_stored()
}

/// Whether a frame is converted through a lookup table as large as the
/// bits stored tell: so for 16-bit samples, one for each pixel.
pub open spec fn uses_lookup_table(pixels: DecodedPixelData) -> bool {
    pixel_samples(pixels) == 1 && pixel_bits_allocated(pixels) == 16
}

/// The number of bytes of one frame.
pub open spec fn frame_len(pixels: DecodedPixelData) -> int {
    pixel_rows(pixels) * pixel_columns(pixels) * pixel_samples(pixels) * ((pixel_bits_allocated(
        pixels,
    ) + 7) / 8)
}

/// Whether the bytes of frame `frame` can be addressed: the place where
/// the frame ends, and what is computed on the way to it, fits the
/// machine's word.
pub open spec fn addressable(pixels: DecodedPixelData, frame: u32) -> bool {
    &&& pixel_rows(pixels) * pixel_columns(pixels) <= usize::MAX
    &&& pixel_rows(pixels) * pixel_columns(pixels) * pixel_samples(pixels) <= usize::MAX
    &&& frame_len(pixels) <= usize::MAX
    &&& frame_len(pixels) * (frame + 1) <= usize::MAX
}

/// The complaint about a frame that the pixel data does not hold.
pub open spec fn out_of_range(frame: u32, frames: u32) -> Seq<char> {
    "Frame "@ + decimal_text(frame as nat) + " is out of range: the pixel data has "@
        + decimal_text(frames as nat) + " frames"@
}

/// The complaint about 16-bit samples of which no bits, or more than 16,
/// are said to be used.
pub open spec fn bad_bits_stored(bits: u16) -> Seq<char> {
    "Bits stored of "@ + decimal_text(bits as nat) + " cannot be rendered for 16-bit samples"@
}

/// The complaint about a frame whose bytes cannot be addressed.
pub open spec fn not_addressable(frame: u32) -> Seq<char> {
    "Frame "@ + decimal_text(frame as nat) + " is too large to address"@
}

/// Why a frame is not handed to the converter, if it is not: the pixel
/// data does not hold it; its samples would need a lookup table of no
/// entries or of more than 16 bits; or its bytes cannot be addressed.
pub open spec fn frame_refusal(pixels: DecodedPixelData, frame: u32) -> Option<Seq<char>> {
    if frame >= pixel_frames(pixels) {
        Some(out_of_range(frame, pixel_frames(pixels)))
    } else if uses_lookup_table(pixels) && !(1 <= pixel_bits_stored(pixels) <= 16) {
        Some(bad_bits_stored(pixel_bits_stored(pixels)))
    } else if !addressable(pixels, frame) {
        Some(not_addressable(frame))
    } else {
        None
    }
}

/// Whether the bytes of frame `frame` can be addressed.
fn is_addressable(pixels: &DecodedPixelData, frame: u32) -> (yes: bool)
    ensures
        yes == addressable(*pixels, frame),
{
    let rows: u128 = rows_of(pixels) as u128;
    let columns: u128 = columns_of(pixels) as u128;
    let samples: u128 = samples_per_pixel(pixels) as u128;
    let bytes: u128 = (bits_allocated(pixels) as u128 + 7) / 8;
    let count: u128 = frame as u128 + 1;
    let limit: u128 = usize::MAX as u128;
    assert(rows * columns <= 0xFFFF_FFFF * 0xFFFF_FFFF) by (nonlinear_arith)
        requires
            0 <= rows <= 0xFFFF_FFFF,
            0 <= columns <= 0xFFFF_FFFF,
    ;
    let area: u128 = rows * columns;
    assert(area * samples <= 0xFFFF_FFFF * 0xFFFF_FFFF * 0xFFFF) by (nonlinear_arith)
        requires
            0 <= area <= 0xFFFF_FFFF * 0xFFFF_FFFF,
            0 <= samples <= 0xFFFF,
    ;
    let sampled: u128 = area * samples;
    assert(sampled * bytes <= 0xFFFF_FFFF * 0xFFFF_FFFF * 0xFFFF * 0x2000) by (nonlinear_arith)
        requires
            0 <= sampled <= 0xFFFF_FFFF * 0xFFFF_FFFF * 0xFFFF,
            0 <= bytes <= 0x2000,
    ;
    let len: u128 = sampled * bytes;
    assert(len * count <= 0xFFFF_FFFF * 0xFFFF_FFFF * 0xFFFF * 0x2000 * 0x1_0000_0000)
        by (nonlinear_arith)
        requires
            0 <= len <= 0xFFFF_FFFF * 0xFFFF_FFFF * 0xFFFF * 0x2000,
            0 <= count <= 0x1_0000_0000,
    ;
    let end: u128 = len * count;
    area <= limit && sampled <= limit && len <= limit && end <= limit
}

/// Tells why a frame is not handed to the converter, if it is not.
pub fn refuse_frame(pixels: &DecodedPixelData, frame: u32) -> (reason: Option<String>)
    ensures
        text_model(reason) == frame_refusal(*pixels, frame),
{
    let frames = number_of_frames(pixels);
    if frame >= frames {
        let mut reason = String::from_str("Frame ");
        push_decimal(&mut reason, frame as u128);
        reason.append(" is out of range: the pixel data has ");
        push_decimal(&mut reason, frames as u128);
        reason.append(" frames");
        assert(reason@ =~= out_of_range(frame, frames));
        return Some(reason);
    }
    let stored = bits_stored(pixels);
    if samples_per_pixel(pixels) == 1 && bits_allocated(pixels) == 16 && !(1 <= stored && stored
        <= 16) {
        let mut reason = String::from_str("Bits stored of ");
        push_decimal(&mut reason, stored as u128);
        reason.append(" cannot be rendered for 16-bit samples");
        assert(reason@ =~= bad_bits_stored(stored));
        return Some(reason);
    }
    if !is_addressable(pixels, frame) {
        let mut reason = String::from_str("Frame ");
        push_decimal(&mut reason, frame as u128);
        reason.append(" is too large to address");
        assert(reason@ =~= not_addressable(frame));
        return Some(reason);
    }
    None
}

/// The image that `DecodedPixelData::to_dynamic_image_with_options` makes
/// of frame `frame`, the VOI LUT normalised and the output forced to
/// 8 bits; nothing where that conversion fails.
pub uninterp spec fn frame_conversion(pixels: DecodedPixelData, frame: u32) -> Option<DynamicImage>;

/// Converts one frame to an image with
/// `DecodedPixelData::to_dynamic_image_with_options`, the VOI LUT
/// normalised and the output forced to 8 bits. Whether an image comes, and
/// which, is a function of the pixel data and the frame's number; it is
/// named, not spelled out. A failure is handed back as the debug rendering
/// of the error, which holds a backtrace of the call, so that nothing is
/// claimed of its text. The converter indexes what the pixel data holds
/// for each frame by the frame's number, builds a lookup table of as many
/// bits as are stored, and multiplies the frame's number by the length of
/// a frame; a frame for which one of these would panic is left out.
#[verifier::external_body]
fn frame_image(pixels: &DecodedPixelData, frame: u32) -> (image: Result<DynamicImage, String>)
    requires
        frame_refusal(*pixels, frame) is None,
    ensures
        match image {
            Ok(converted) => frame_conversion(*pixels, frame) == Some(converted),
            Err(_) => frame_conversion(*pixels, frame) is None,
        },
{
    let options = ConvertOptions::new().with_voi_lut(VoiLutOption::Normalize).force_8bit();
    pixels.to_dynamic_image_with_options(frame, &options).map_err(|e| format!("{:?}", e))
}

/// The samples, the width and the height of the copy that
/// `DynamicImage::to_luma8` makes of an image.
pub uninterp spec fn luma_samples(image: DynamicImage) -> (Seq<u8>, u32, u32);

/// Copies an image as 8-bit luminance with `DynamicImage::to_luma8` and
/// hands back its samples and its size. The copy is a function of the
/// image alone; it is named, not spelled out.
#[verifier::external_body]
fn luma_raster(image: &DynamicImage) -> (raster: Raster)
    ensures
        raster.layout == ColorLayout::Gray,
        (raster.data@, raster.width, raster.height) == luma_samples(*image),
{
    let luma = image.to_luma8();
    Raster {
        width: luma.width(),
        height: luma.height(),
        data: luma.into_raw(),
        layout: ColorLayout::Gray,
    }
}

/// The samples, the width and the height of the copy that
/// `DynamicImage::to_rgb8` makes of an image.
pub uninterp spec fn rgb_samples(image: DynamicImage) -> (Seq<u8>, u32, u32);

/// Copies an image as 8-bit RGB with `DynamicImage::to_rgb8` and hands
/// back its samples and its size. The copy is a function of the image
/// alone; it is named, not spelled out.
#[verifier::external_body]
fn rgb_raster(image: &DynamicImage) -> (raster: Raster)
    ensures
        raster.layout == ColorLayout::Rgb,
        (raster.data@, raster.width, raster.height) == rgb_samples(*image),
{
    let rgb = image.to_rgb8();
    Raster { width: rgb.width(), height: rgb.height(), data: rgb.into_raw(), layout: ColorLayout::Rgb }
}

/// What `JpegEncoder::encode` writes for the samples of a frame of the
/// given size, gray or RGB, at the given quality: the bytes of the JPEG, or
/// the debug rendering of the error.
pub uninterp spec fn jpeg_encoding(
    data: Seq<u8>,
    width: u32,
    height: u32,
    gray: bool,
    quality: u8,
) -> Result<Seq<u8>, Seq<char>>;

/// The model of the outcome of an encoding.
pub open spec fn encoded_model(encoded: Result<Vec<u8>, String>) -> Result<Seq<u8>, Seq<char>> {
    match encoded {
        Ok(bytes) => Ok(bytes@),
        Err(detail) => Err(detail@),
    }
}

/// Encodes a frame with `JpegEncoder::new_with_quality` and
/// `JpegEncoder::encode`, as `L8` or `Rgb8`. The encoder panics on a
/// buffer that has not exactly the samples of the frame, so such a raster
/// is left out. The outcome is a function of the arguments alone; it is
/// named, not spelled out.
#[verifier::external_body]
fn encode_jpeg(raster: &Raster, quality: u8) -> (encoded: Result<Vec<u8>, String>)
    requires
        raster.consistent(),
    ensures
        encoded_model(encoded) == jpeg_encoding(
            raster.data@,
            raster.width,
            raster.height,
            raster.layout == ColorLayout::Gray,
            quality,
        ),
{
    let mut jpeg = Vec::new();
    let color: ExtendedColorType = match raster.layout {
        ColorLayout::Gray => ColorType::L8.into(),
        ColorLayout::Rgb => ColorType::Rgb8.into(),
    };
    let mut encoder = JpegEncoder::new_with_quality(&mut jpeg, quality);
    match encoder.encode(&raster.data, raster.width, raster.height, color) {
        Ok(()) => Ok(jpeg),
        Err(e) => Err(format!("{:?}", e)),
    }
}

/// The text that the standard base64 alphabet, with padding, gives for
/// `bytes`.
pub uninterp spec fn base64_text(bytes: Seq<u8>) -> Seq<char>;

/// Encodes bytes with `Engine::encode` of base64's `STANDARD` engine. The
/// text is a function of the bytes alone; it is named, not spelled out.
#[verifier::external_body]
fn base64_encode(bytes: &Vec<u8>) -> (text: String)
    ensures
        text@ == base64_text(bytes@),
{
    base64::Engine::encode(&base64::engine::general_purpose::STANDARD, bytes)
}

/// The complaint about a raster that has not exactly the samples of its
/// frame.
pub open spec fn length_complaint(expected: nat, len: nat, width: nat, height: nat) -> Seq<char> {
    "Invalid buffer length: expected "@ + decimal_text(expected) + " got "@ + decimal_text(len)
        + " for "@ + decimal_text(width) + "x"@ + decimal_text(height) + " image"@
}

/// What becomes of a frame once its samples are at hand: the JPEG in
/// base64 where the encoder gives one, else the failure of the encoder; a
/// raster that has not exactly the samples of its frame is not handed to
/// the encoder and fails with a complaint about its length.
pub open spec fn encoded_outcome(
    data: Seq<u8>,
    width: u32,
    height: u32,
    layout: ColorLayout,
) -> OutcomeModel {
    if data.len() == width as int * height as int * layout.channels() {
        match jpeg_encoding(data, width, height, layout == ColorLayout::Gray, PREVIEW_QUALITY) {
            Ok(bytes) => OutcomeModel::Rendered(base64_text(bytes)),
            Err(detail) => OutcomeModel::EncodeFailed(detail),
        }
    } else {
        OutcomeModel::EncodeFailed(
            length_complaint(
                (width as int * height as int * layout.channels()) as nat,
                data.len(),
                width as nat,
                height as nat,
            ),
        )
    }
}

/// Encodes the samples of a frame as a JPEG and the JPEG as base64.
pub fn encode_frame(raster: &Raster) -> (outcome: FrameOutcome)
    ensures
        outcome@ == encoded_outcome(raster.data@, raster.width, raster.height, raster.layout),
{
    let expected = raster.sample_count();
    if raster.data.len() as u128 == expected {
        match encode_jpeg(raster, PREVIEW_QUALITY) {
            Ok(bytes) => FrameOutcome::Rendered(base64_encode(&bytes)),
            Err(detail) => FrameOutcome::EncodeFailed(detail),
        }
    } else {
        let mut complaint = String::from_str("Invalid buffer length: expected ");
        push_decimal(&mut complaint, expected);
        complaint.append(" got ");
        push_decimal(&mut complaint, raster.data.len() as u128);
        complaint.append(" for ");
        push_decimal(&mut complaint, raster.width as u128);
        complaint.append("x");
        push_decimal(&mut complaint, raster.height as u128);
        complaint.append(" image");
        assert(complaint@ =~= length_complaint(
            expected as nat,
            raster.data@.len(),
            raster.width as nat,
            raster.height as nat,
        ));
        FrameOutcome::EncodeFailed(complaint)
    }
}

/// The samples of an image in the given layout, with its width and height.
pub open spec fn image_samples(image: DynamicImage, layout: ColorLayout) -> (Seq<u8>, u32, u32) {
    match layout {
        ColorLayout::Gray => luma_samples(image),
        ColorLayout::Rgb => rgb_samples(image),
    }
}

/// What becomes of an image in the given layout: the outcome of encoding
/// its samples.
pub open spec fn image_outcome(image: DynamicImage, layout: ColorLayout) -> OutcomeModel {
    let samples = image_samples(image, layout);
    encoded_outcome(samples.0, samples.1, samples.2, layout)
}

/// Whether `outcome` is what becomes of frame `frame` of the pixel data:
/// where the frame is not handed to the converter, a conversion failure
/// with the reason; where the converter gives an image, the outcome of
/// encoding that image in the given layout; where it gives none, a
/// conversion failure.
pub open spec fn renders(
    outcome: OutcomeModel,
    pixels: DecodedPixelData,
    frame: u32,
    layout: ColorLayout,
) -> bool {
    match frame_refusal(pixels, frame) {
        Some(reason) => outcome == OutcomeModel::ConvertFailed(reason),
        None => match frame_conversion(pixels, frame) {
            Some(image) => outcome == image_outcome(image, layout),
            None => outcome is ConvertFailed,
        },
    }
}

/// Finishes a frame once its conversion is over: a failed conversion is a
/// conversion failure with the reason given; an image is copied as
/// luminance for the gray layout and as RGB otherwise, and its samples are
/// encoded.
pub fn finish_frame(converted: Result<DynamicImage, String>, layout: ColorLayout) -> (outcome:
    FrameOutcome)
    ensures
        match converted {
            Ok(image) => outcome@ == image_outcome(image, layout),
            Err(detail) => outcome@ == OutcomeModel::ConvertFailed(detail@),
        },
{
    match converted {
        Err(detail) => FrameOutcome::ConvertFailed(detail),
        Ok(image) => {
            let raster = match layout {
                ColorLayout::Gray => luma_raster(&image),
                ColorLayout::Rgb => rgb_raster(&image),
            };
            encode_frame(&raster)
        },
    }
}

/// Renders one frame of decoded pixel data: converts it to an image, with
/// the VOI LUT normalised and the output forced to 8 bits, takes the
/// samples in the given layout and encodes them. A frame that the pixel
/// data does not hold, or that the converter cannot take, is a conversion
/// failure with the reason. Else, where the conversion gives an image, the
/// outcome is that of encoding that image; where it gives none, the
/// outcome is a conversion failure with the converter's reason.
pub fn render_frame(pixels: &DecodedPixelData, index: u32, layout: ColorLayout) -> (outcome:
    FrameOutcome)
    ensures
        renders(outcome@, *pixels, index, layout),
{
    match refuse_frame(pixels, index) {
        Some(reason) => FrameOutcome::ConvertFailed(reason),
        None => finish_frame(frame_image(pixels, index), layout),
    }
}

/// Whether `outcomes` can be what rendering `frames` frames one after the
/// other gives when it stops at the first failure: no more outcomes than
/// frames, no failure but at the end, and all frames there unless the last
/// outcome is a failure.
pub open spec fn stops_at_failure(outcomes: Seq<OutcomeModel>, frames: int) -> bool {
    let wanted = if frames > 0 {
        frames
    } else {
        0
    };
    &&& outcomes.len() <= wanted
    &&& forall|i: int| 0 <= i < outcomes.len() - 1 ==> #[trigger] outcomes[i] is Rendered
    &&& outcomes.len() < wanted ==> outcomes.len() > 0 && !(outcomes.last() is Rendered)
}

/// Renders the frames of decoded pixel data in order, from frame 0 on, and
/// stops after the first that fails. Each outcome is what
/// [`render_frame`] gives for the frame of its position.
pub fn render_frames(pixels: &DecodedPixelData, frames: i32, layout: ColorLayout) -> (outcomes:
    Vec<FrameOutcome>)
    ensures
        stops_at_failure(outcomes_model(outcomes@), frames as int),
        forall|i: int|
            0 <= i < outcomes@.len() ==> renders(
                (#[trigger] outcomes@[i])@,
                *pixels,
                i as u32,
                layout,
            ),
{
    let mut outcomes: Vec<FrameOutcome> = Vec::new();
    let mut index: i32 = 0;
    let mut failed = false;
    while index < frames && !failed
        invariant
            0 <= index,
            index <= frames || index == 0,
            outcomes@.len() == index,
            failed ==> outcomes@.len() > 0 && !(outcomes@.last()@ is Rendered),
            !failed ==> forall|i: int| 0 <= i < outcomes@.len() ==> (#[trigger] outcomes@[i])@ is Rendered,
            forall|i: int| 0 <= i < outcomes@.len() - 1 ==> (#[trigger] outcomes@[i])@ is Rendered,
            forall|i: int|
                0 <= i < outcomes@.len() ==> renders(
                    (#[trigger] outcomes@[i])@,
                    *pixels,
                    i as u32,
                    layout,
                ),
        decreases frames - index + (if failed { 0int } else { 1int }),
    {
        let outcome = render_frame(pixels, index as u32, layout);
        failed = match &outcome {
            FrameOutcome::Rendered(_) => false,
            _ => true,
        };
        outcomes.push(outcome);
        index = index + 1;
    }
    proof {
        let all = outcomes_model(outcomes@);
        assert forall|i: int| 0 <= i < all.len() - 1 implies #[trigger] all[i] is Rendered by {
            assert(outcomes@[i]@ is Rendered);
        }
        assert(all.len() == outcomes@.len());
        if all.len() > 0 {
            assert(all.last() == outcomes@.last()@);
        }
    }
    outcomes
}

/// Whether `outcomes` are those of rendering `frames` frames of the pixel
/// data in order, from frame 0 on, up to the first failure: each is what
/// becomes of the frame of its position.
pub open spec fn frames_rendered(
    outcomes: Seq<OutcomeModel>,
    pixels: DecodedPixelData,
    frames: int,
    layout: ColorLayout,
) -> bool {
    &&& stops_at_failure(outcomes, frames)
    &&& forall|i: int|
        0 <= i < outcomes.len() ==> renders(#[trigger] outcomes[i], pixels, i as u32, layout)
}

/// The model of what decoding the pixel data gave: the pixel data, or why
/// there is none.
pub open spec fn decoded_model<'a>(decoded: Result<&'a DecodedPixelData<'a>, String>) -> Result<
    DecodedPixelData<'a>,
    Seq<char>,
> {
    match decoded {
        Ok(pixels) => Ok(*pixels),
        Err(detail) => Err(detail@),
    }
}

/// Whether `preview` and `after` are the previews of pixel data and the
/// report after rendering, given what decoding gave and the report
/// `before`. Where decoding failed, there are no previews and the report
/// records the decoding failure with its reason. Where it gave pixel data,
/// as many frames are rendered as `before` counts, one where it counts
/// none, in the layout that `before` tells, up to the first failure;
/// previews and report are those of these outcomes.
pub open spec fn rendering_of(
    decoded: Result<DecodedPixelData, Seq<char>>,
    before: DebugModel,
    preview: Option<Seq<Seq<char>>>,
    after: DebugModel,
) -> bool {
    match decoded {
        Err(detail) => preview is None && after == report_after(before, Err(detail)),
        Ok(pixels) => exists|outcomes: Seq<OutcomeModel>|
            {
                &&& #[trigger] frames_rendered(
                    outcomes,
                    pixels,
                    frames_to_render(before.number_of_frames),
                    layout_for(before.photometric_interpretation, before.samples_per_pixel),
                )
                &&& preview == previews_of(Ok(outcomes))
                &&& after == report_after(before, Ok(outcomes))
            },
    }
}

/// Renders the previews of pixel data, given what decoding it gave. A
/// failed decoding gives no previews and is recorded with its reason. Of
/// decoded pixel data as many frames are rendered as the report counts
/// (one where it counts none), gray or RGB as the report tells, and the
/// outcomes are concluded as [`record_preview`] does.
pub fn generate_preview_image(
    decoded: Result<&DecodedPixelData, String>,
    debug_info: &mut DicomDebugInfo,
) -> (preview: Option<Vec<String>>)
    ensures
        rendering_of(
            decoded_model(decoded),
            old(debug_info)@,
            preview_model(preview),
            final(debug_info)@,
        ),
        old(debug_info)@.well_formed() && old(debug_info)@.pixel_failures() == 0 ==> final(debug_info)@.well_formed(),
{
    let ghost before = debug_info@;
    match decoded {
        Err(detail) => {
            let ghost why = detail@;
            let preview = record_preview(Err(detail), debug_info);
            assert(debug_info@ == report_after(before, Err::<Seq<OutcomeModel>, Seq<char>>(why)));
            preview
        },
        Ok(pixels) => {
            let outcomes = render_frames(
                pixels,
                frame_count(debug_info),
                select_layout(debug_info),
            );
            let ghost all = outcomes_model(outcomes@);
            let preview = record_preview(Ok(outcomes), debug_info);
            assert(frames_rendered(
                all,
                decoded_model(decoded)->Ok_0,
                frames_to_render(before.number_of_frames),
                layout_for(before.photometric_interpretation, before.samples_per_pixel),
            ));
            preview
        },
    }
}

/// A failure among the first `n` outcomes is the first failure of the
/// whole list.
pub proof fn lemma_first_failure_prefix(outcomes: Seq<OutcomeModel>, n: int)
    requires
        0 <= n <= outcomes.len(),
    ensures
        first_failure(outcomes.take(n)) is Some ==> first_failure(outcomes) == first_failure(
            outcomes.take(n),
        ),
    decreases outcomes.len() - n,
{
    if n < outcomes.len() {
        lemma_first_failure_prefix(outcomes, n + 1);
        assert(outcomes.take(n + 1).drop_last() =~= outcomes.take(n));
    } else {
        assert(outcomes.take(n) =~= outcomes);
    }
}

/// The first failure is at `i` exactly where the outcome at `i` is a
/// failure and every outcome before it is a rendered frame.
pub proof fn lemma_first_failure_at(outcomes: Seq<OutcomeModel>, i: int)
    requires
        0 <= i < outcomes.len(),
        !(outcomes[i] is Rendered),
        forall|k: int| 0 <= k < i ==> #[trigger] outcomes[k] is Rendered,
    ensures
        first_failure(outcomes) == Some(i),
{
    lemma_no_failure(outcomes.take(i));
    assert(outcomes.take(i + 1).drop_last() =~= outcomes.take(i));
    assert(outcomes.take(i + 1).last() == outcomes[i]);
    lemma_first_failure_prefix(outcomes, i + 1);
}

/// There is no first failure exactly where every outcome is a rendered
/// frame.
pub proof fn lemma_no_failure(outcomes: Seq<OutcomeModel>)
    ensures
        first_failure(outcomes) is None <==> forall|k: int|
            0 <= k < outcomes.len() ==> #[trigger] outcomes[k] is Rendered,
    decreases outcomes.len(),
{
    if outcomes.len() > 0 {
        let front = outcomes.drop_last();
        lemma_no_failure(front);
        if first_failure(outcomes) is None {
            assert forall|k: int| 0 <= k < outcomes.len() implies #[trigger] outcomes[k] is Rendered by {
                if k < front.len() {
                    assert(front[k] is Rendered);
                }
            }
        } else if first_failure(front) is None {
            assert(!(outcomes[outcomes.len() - 1] is Rendered));
        } else {
            let k = choose|k: int| 0 <= k < front.len() && !(#[trigger] front[k] is Rendered);
            assert(!(outcomes[k] is Rendered));
        }
    }
}

/// Where the pixel data cannot be decoded there are no previews, the
/// failure is recorded as a decoding failure, and what the report holds of
/// conversion and encoding failures stays as it was.
pub proof fn lemma_decode_failure(before: DebugModel, detail: Seq<char>)
    ensures
        previews_of(Err(detail)) is None,
        report_after(before, Err(detail)).pixel_decode_error == Some(decode_failure(detail)),
        report_after(before, Err(detail)).pixel_convert_error == before.pixel_convert_error,
        report_after(before, Err(detail)).pixel_encode_error == before.pixel_encode_error,
{
}

/// Where frame `i` is the first to fail, and fails in conversion, there are
/// no previews at all, however many frames were rendered before it; the
/// failure is recorded as a conversion failure of frame `i`, and what the
/// report holds of decoding and encoding failures stays as it was.
pub proof fn lemma_convert_failure_discards_all(
    before: DebugModel,
    outcomes: Seq<OutcomeModel>,
    i: int,
)
    requires
        0 <= i < outcomes.len(),
        outcomes[i] is ConvertFailed,
        forall|k: int| 0 <= k < i ==> #[trigger] outcomes[k] is Rendered,
    ensures
        previews_of(Ok(outcomes)) is None,
        report_after(before, Ok(outcomes)).pixel_convert_error == Some(
            convert_failure(i as nat, outcomes[i]->ConvertFailed_0),
        ),
        report_after(before, Ok(outcomes)).pixel_decode_error == before.pixel_decode_error,
        report_after(before, Ok(outcomes)).pixel_encode_error == before.pixel_encode_error,
{
    lemma_first_failure_at(outcomes, i);
}

/// Where frame `i` is the first to fail, and fails in encoding, there are
/// no previews at all; the failure is recorded as an encoding failure of
/// frame `i`, and what the report holds of the other stages stays as it
/// was.
pub proof fn lemma_encode_failure_discards_all(
    before: DebugModel,
    outcomes: Seq<OutcomeModel>,
    i: int,
)
    requires
        0 <= i < outcomes.len(),
        outcomes[i] is EncodeFailed,
        forall|k: int| 0 <= k < i ==> #[trigger] outcomes[k] is Rendered,
    ensures
        previews_of(Ok(outcomes)) is None,
        report_after(before, Ok(outcomes)).pixel_encode_error == Some(
            encode_failure(i as nat, outcomes[i]->EncodeFailed_0),
        ),
        report_after(before, Ok(outcomes)).pixel_decode_error == before.pixel_decode_error,
        report_after(before, Ok(outcomes)).pixel_convert_error == before.pixel_convert_error,
{
    lemma_first_failure_at(outcomes, i);
}

/// There are previews exactly where the pixel data was decoded and every
/// frame, of at least one, was rendered; then there is one preview for each
/// frame, in order, and the report is as it was.
pub proof fn lemma_previews_are_complete(
    before: DebugModel,
    attempt: Result<Seq<OutcomeModel>, Seq<char>>,
)
    ensures
        previews_of(attempt) is Some <==> {
            &&& attempt matches Ok(outcomes)
            &&& outcomes.len() > 0
            &&& forall|k: int| 0 <= k < outcomes.len() ==> #[trigger] outcomes[k] is Rendered
        },
        previews_of(attempt) matches Some(images) ==> {
            &&& images.len() == attempt->Ok_0.len()
            &&& forall|k: int|
                0 <= k < images.len() ==> OutcomeModel::Rendered(#[trigger] images[k])
                    == attempt->Ok_0[k]
            &&& report_after(before, attempt) == before
        },
{
    if let Ok(outcomes) = attempt {
        lemma_no_failure(outcomes);
    }
}

/// An attempt touches nothing in the report but the field of the stage
/// that failed first, and a report that held no failure of a pixel stage
/// holds at most one afterwards.
pub proof fn lemma_attempt_keeps_rest(
    before: DebugModel,
    attempt: Result<Seq<OutcomeModel>, Seq<char>>,
)
    ensures
        report_after(before, attempt) == (DebugModel {
            pixel_decode_error: report_after(before, attempt).pixel_decode_error,
            pixel_convert_error: report_after(before, attempt).pixel_convert_error,
            pixel_encode_error: report_after(before, attempt).pixel_encode_error,
            ..before
        }),
        before.pixel_failures() == 0 ==> report_after(before, attempt).pixel_failures() <= 1,
        before.pixel_failures() == 0 && before.well_formed() ==> report_after(
            before,
            attempt,
        ).well_formed(),
{
}

} // verus!
