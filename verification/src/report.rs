//! The diagnostic report that accompanies every inspection.

use vstd::prelude::*;
use crate::element::text_model;

verus! {

/// The size of the image in pixels.
#[derive(Clone, Copy, Debug, PartialEq, Eq, Structural)]
pub struct Dimensions {
    pub rows: i32,
    pub columns: i32,
}

/// What is known of a file and of the data set read from it, together with
/// the failures met on the way.
#[derive(Debug)]
pub struct DicomDebugInfo {
    /// The size of the file in bytes.
    pub file_size: u64,
    /// The first 128 bytes of the file, in hexadecimal.
    pub file_preamble: String,
    /// The four bytes at offset 128, as text.
    pub dicom_magic: String,
    /// The transfer syntax identifier found near the start of the file.
    pub transfer_syntax: Option<String>,
    /// The number of elements at the root of the data set.
    pub attribute_count: usize,
    /// The number of those elements that are groups.
    pub sequence_count: usize,
    /// Whether an element of the file meta group is among them.
    pub meta_info_present: bool,
    /// Whether the data set holds pixel data.
    pub has_pixel_data: bool,
    /// The representation of the pixel data.
    pub pixel_data_vr: Option<String>,
    /// Rows and columns of the image.
    pub image_dimensions: Option<Dimensions>,
    /// The number of frames of the image.
    pub number_of_frames: Option<i32>,
    /// Bits allocated for each sample.
    pub bits_allocated: Option<i32>,
    /// Samples per pixel.
    pub samples_per_pixel: Option<i32>,
    /// The photometric interpretation of the samples.
    pub photometric_interpretation: Option<String>,
    /// Whether the samples are signed.
    pub pixel_representation: Option<i32>,
    /// Why the file could not be decoded.
    pub parse_error: Option<String>,
    /// Why the pixel data could not be decoded.
    pub pixel_decode_error: Option<String>,
    /// Why a frame could not be converted to an image.
    pub pixel_convert_error: Option<String>,
    /// Why a frame could not be encoded as JPEG.
    pub pixel_encode_error: Option<String>,
}

/// The mathematical model of a [`DicomDebugInfo`].
pub ghost struct DebugModel {
    pub file_size: nat,
    pub file_preamble: Seq<char>,
    pub dicom_magic: Seq<char>,
    pub transfer_syntax: Option<Seq<char>>,
    pub attribute_count: nat,
    pub sequence_count: nat,
    pub meta_info_present: bool,
    pub has_pixel_data: bool,
    pub pixel_data_vr: Option<Seq<char>>,
    pub image_dimensions: Option<Dimensions>,
    pub number_of_frames: Option<i32>,
    pub bits_allocated: Option<i32>,
    pub samples_per_pixel: Option<i32>,
    pub photometric_interpretation: Option<Seq<char>>,
    pub pixel_representation: Option<i32>,
    pub parse_error: Option<Seq<char>>,
    pub pixel_decode_error: Option<Seq<char>>,
    pub pixel_convert_error: Option<Seq<char>>,
    pub pixel_encode_error: Option<Seq<char>>,
}

impl View for DicomDebugInfo {
    type V = DebugModel;

    open spec fn view(&self) -> DebugModel {
        DebugModel {
            file_size: self.file_size as nat,
            file_preamble: self.file_preamble@,
            dicom_magic: self.dicom_magic@,
            transfer_syntax: text_model(self.transfer_syntax),
            attribute_count: self.attribute_count as nat,
            sequence_count: self.sequence_count as nat,
            meta_info_present: self.meta_info_present,
            has_pixel_data: self.has_pixel_data,
            pixel_data_vr: text_model(self.pixel_data_vr),
            image_dimensions: self.image_dimensions,
            number_of_frames: self.number_of_frames,
            bits_allocated: self.bits_allocated,
            samples_per_pixel: self.samples_per_pixel,
            photometric_interpretation: text_model(self.photometric_interpretation),
            pixel_representation: self.pixel_representation,
            parse_error: text_model(self.parse_error),
            pixel_decode_error: text_model(self.pixel_decode_error),
            pixel_convert_error: text_model(self.pixel_convert_error),
            pixel_encode_error: text_model(self.pixel_encode_error),
        }
    }
}

impl DebugModel {
    /// A report that knows nothing yet: no file, no data set, no failure.
    pub open spec fn blank() -> DebugModel {
        DebugModel {
            file_size: 0,
            file_preamble: Seq::empty(),
            dicom_magic: Seq::empty(),
            transfer_syntax: None,
            attribute_count: 0,
            sequence_count: 0,
            meta_info_present: false,
            has_pixel_data: false,
            pixel_data_vr: None,
            image_dimensions: None,
            number_of_frames: None,
            bits_allocated: None,
            samples_per_pixel: None,
            photometric_interpretation: None,
            pixel_representation: None,
            parse_error: None,
            pixel_decode_error: None,
            pixel_convert_error: None,
            pixel_encode_error: None,
        }
    }

    /// Whether nothing is recorded of the data set: every field that only a
    /// decoded data set can fill is as in a blank report.
    pub open spec fn structure_unset(self) -> bool {
        &&& self.attribute_count == 0
        &&& self.sequence_count == 0
        &&& !self.meta_info_present
        &&& !self.has_pixel_data
        &&& self.pixel_data_vr is None
        &&& self.image_dimensions is None
        &&& self.number_of_frames is None
        &&& self.bits_allocated is None
        &&& self.samples_per_pixel is None
        &&& self.photometric_interpretation is None
        &&& self.pixel_representation is None
    }

    /// How many of the three failures of the pixel stages are recorded.
    pub open spec fn pixel_failures(self) -> nat {
        let decode: nat = if self.pixel_decode_error is Some { 1 } else { 0 };
        let convert: nat = if self.pixel_convert_error is Some { 1 } else { 0 };
        let encode: nat = if self.pixel_encode_error is Some { 1 } else { 0 };
        decode + convert + encode
    }

    /// The invariant of a report: a file that could not be decoded has
    /// nothing recorded of its data set, and at most one stage of the pixel
    /// pipeline has recorded a failure.
    pub open spec fn well_formed(self) -> bool {
        &&& self.parse_error is Some ==> self.structure_unset()
        &&& self.pixel_failures() <= 1
    }

    /// Whether the two reports say the same of the file itself.
    pub open spec fn same_file_fields(self, other: DebugModel) -> bool {
        &&& self.file_size == other.file_size
        &&& self.file_preamble == other.file_preamble
        &&& self.dicom_magic == other.dicom_magic
        &&& self.transfer_syntax == other.transfer_syntax
    }
}

impl DicomDebugInfo {
    /// A blank report.
    pub fn new() -> (report: DicomDebugInfo)
        ensures
            report@ == DebugModel::blank(),
            report@.well_formed(),
    {
        DicomDebugInfo {
            file_size: 0,
            file_preamble: String::new(),
            dicom_magic: String::new(),
            transfer_syntax: None,
            attribute_count: 0,
            sequence_count: 0,
            meta_info_present: false,
            has_pixel_data: false,
            pixel_data_vr: None,
            image_dimensions: None,
            number_of_frames: None,
            bits_allocated: None,
            samples_per_pixel: None,
            photometric_interpretation: None,
            pixel_representation: None,
            parse_error: None,
            pixel_decode_error: None,
            pixel_convert_error: None,
            pixel_encode_error: None,
        }
    }
}

} // verus!
