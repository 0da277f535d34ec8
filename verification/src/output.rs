//! The result of an inspection, and the messages for the ways in which an
//! inspection can fail.

use vstd::prelude::*;
use crate::attribute::{attributes_model, AttributeModel, DicomAttribute};
use crate::dataset::{file_snapshot, read_file};
use crate::element::{item_model, text_model, Element, ElementModel};
use crate::preview::{
    attempt_model, decode_failure, decoded_model, generate_preview_image, preview_model,
    previews_of,
    record_preview, rendering_of, report_after, FrameOutcome, OutcomeModel,
};
use crate::report::{DebugModel, DicomDebugInfo};
use crate::summary::{has_tag, lemma_lookup_finds_first, summarize, update_debug_info_from_dicom};
use crate::tag::{pixel_data_tag, tag_text, META_GROUP};
use crate::text::{c_safe, without_nul};
use crate::tree::{attribute_tree, parse_dicom_element, GROUP_LEVELS};
use dicom::object::{FileDicomObject, InMemDicomObject};
use dicom_pixeldata::DecodedPixelData;

verus! {

/// What an inspection yields: the attribute listing, the previews if there
/// are any, and the diagnostic report.
#[derive(Debug)]
pub struct DicomParseOutput {
    pub attributes: Vec<DicomAttribute>,
    pub preview_images: Option<Vec<String>>,
    pub debug_info: DicomDebugInfo,
}

/// The mathematical model of a [`DicomParseOutput`].
pub ghost struct OutputModel {
    pub attributes: Seq<AttributeModel>,
    pub preview_images: Option<Seq<Seq<char>>>,
    pub debug_info: DebugModel,
}

impl View for DicomParseOutput {
    type V = OutputModel;

    open spec fn view(&self) -> OutputModel {
        OutputModel {
            attributes: attributes_model(self.attributes@),
            preview_images: preview_model(self.preview_images),
            debug_info: self.debug_info@,
        }
    }
}

/// The result for a decoded file with the elements `elements`, given the
/// report `before` on the file itself and what the attempt at rendering
/// gave: the listing of the elements, the previews of the attempt, and the
/// report with the summary of the elements and the failure of the attempt,
/// if there was one.
pub open spec fn output_of(
    before: DebugModel,
    elements: Seq<ElementModel>,
    attempt: Result<Seq<OutcomeModel>, Seq<char>>,
) -> OutputModel {
    OutputModel {
        attributes: attribute_tree(elements),
        preview_images: previews_of(attempt),
        debug_info: report_after(summarize(before, elements), attempt),
    }
}

/// For a file that holds nothing but elements of the file meta group, and
/// whose pixel data could therefore not be decoded: the listing has one
/// attribute at depth 0 for each of these elements, in their order; there
/// are no previews; the report says that there is no pixel data and gives
/// no representation for it, and records the decoding failure alone.
pub proof fn lemma_meta_only_file(before: DebugModel, elements: Seq<ElementModel>, detail: Seq<char>)
    requires
        !before.has_pixel_data,
        before.pixel_data_vr is None,
        before.pixel_failures() == 0,
        forall|i: int| 0 <= i < elements.len() ==> (#[trigger] elements[i]).tag.group == META_GROUP,
    ensures
        output_of(before, elements, Err(detail)).attributes.len() == elements.len(),
        forall|i: int|
            0 <= i < elements.len() ==> {
                &&& (#[trigger] output_of(before, elements, Err(detail)).attributes[i]).depth == 0
                &&& output_of(before, elements, Err(detail)).attributes[i].tag == tag_text(
                    elements[i].tag,
                )
                &&& output_of(before, elements, Err(detail)).attributes[i].vr == elements[i].vr
            },
        output_of(before, elements, Err(detail)).preview_images is None,
        !output_of(before, elements, Err(detail)).debug_info.has_pixel_data,
        output_of(before, elements, Err(detail)).debug_info.pixel_data_vr is None,
        output_of(before, elements, Err(detail)).debug_info.attribute_count == elements.len(),
        output_of(before, elements, Err(detail)).debug_info.meta_info_present == (elements.len()
            > 0),
        output_of(before, elements, Err(detail)).debug_info.pixel_decode_error == Some(
            decode_failure(detail),
        ),
        output_of(before, elements, Err(detail)).debug_info.pixel_convert_error is None,
        output_of(before, elements, Err(detail)).debug_info.pixel_encode_error is None,
{
    lemma_lookup_finds_first(elements, pixel_data_tag());
    if has_tag(elements, pixel_data_tag()) {
        let i = choose|i: int| 0 <= i < elements.len() && #[trigger] elements[i].tag == pixel_data_tag();
        assert(elements[i].tag.group == META_GROUP);
    }
    if elements.len() > 0 {
        assert(elements[0].tag.group == META_GROUP);
    }
}

/// Assembles the result for a decoded file from its elements, the report
/// on the file itself and what the attempt at rendering gave.
pub fn assemble_output(
    elements: &Vec<Element>,
    debug_info: DicomDebugInfo,
    attempt: Result<Vec<FrameOutcome>, String>,
) -> (output: DicomParseOutput)
    ensures
        output@ == output_of(debug_info@, item_model(*elements), attempt_model(attempt)),
        debug_info@.well_formed() && debug_info@.parse_error is None && debug_info@.pixel_failures()
            == 0 ==> output.debug_info@.well_formed(),
{
    let mut debug_info = debug_info;
    let mut attributes: Vec<DicomAttribute> = Vec::new();
    update_debug_info_from_dicom(elements, &mut debug_info);
    assert(attributes_model(attributes@) =~= Seq::empty());
    parse_dicom_element(elements, &mut attributes);
    assert(attributes_model(attributes@) =~= attribute_tree(item_model(*elements)));
    let preview_images = record_preview(attempt, &mut debug_info);
    DicomParseOutput { attributes, preview_images, debug_info }
}

/// Inspects a decoded file, given what decoding its pixel data gave: reads
/// its elements, the file meta group first, summarises them into the
/// report, lists them, and renders the previews. The listing and the
/// summary are those of the elements read; previews and report are those
/// of rendering the pixel data, given the summary.
pub fn inspect(
    file: &FileDicomObject<InMemDicomObject>,
    decoded: Result<&DecodedPixelData, String>,
    debug_info: DicomDebugInfo,
) -> (output: DicomParseOutput)
    ensures
        output@.attributes == attribute_tree(file_snapshot(*file, GROUP_LEVELS as nat)),
        rendering_of(
            decoded_model(decoded),
            summarize(debug_info@, file_snapshot(*file, GROUP_LEVELS as nat)),
            output@.preview_images,
            output@.debug_info,
        ),
        decoded matches Err(detail) ==> output@ == output_of(
            debug_info@,
            file_snapshot(*file, GROUP_LEVELS as nat),
            Err(detail@),
        ),
        debug_info@.well_formed() && debug_info@.parse_error is None && debug_info@.pixel_failures()
            == 0 ==> output.debug_info@.well_formed(),
{
    let mut debug_info = debug_info;
    let mut attributes: Vec<DicomAttribute> = Vec::new();
    let elements = read_file(file, GROUP_LEVELS);
    update_debug_info_from_dicom(&elements, &mut debug_info);
    assert(attributes_model(attributes@) =~= Seq::empty());
    parse_dicom_element(&elements, &mut attributes);
    assert(attributes_model(attributes@) =~= attribute_tree(item_model(elements)));
    let preview_images = generate_preview_image(decoded, &mut debug_info);
    DicomParseOutput { attributes, preview_images, debug_info }
}

/// The ways in which an inspection ends without a result.
#[derive(Debug)]
pub enum ParseFailure {
    /// No path was given.
    NullPath,
    /// The path is not valid UTF-8; the text says where.
    InvalidPath(String),
    /// There is no file at the path.
    MissingFile(String),
    /// The file at the path cannot be opened.
    UnreadableFile { path: String, detail: String },
    /// The file cannot be decoded; `analysis` is what its first bytes show.
    Undecodable { path: String, detail: String, analysis: String },
    /// The result cannot be serialised.
    Unserializable(String),
}

/// The mathematical model of a [`ParseFailure`].
pub ghost enum FailureModel {
    NullPath,
    InvalidPath(Seq<char>),
    MissingFile(Seq<char>),
    UnreadableFile { path: Seq<char>, detail: Seq<char> },
    Undecodable { path: Seq<char>, detail: Seq<char>, analysis: Seq<char> },
    Unserializable(Seq<char>),
}

impl View for ParseFailure {
    type V = FailureModel;

    open spec fn view(&self) -> FailureModel {
        match self {
            ParseFailure::NullPath => FailureModel::NullPath,
            ParseFailure::InvalidPath(d) => FailureModel::InvalidPath(d@),
            ParseFailure::MissingFile(p) => FailureModel::MissingFile(p@),
            ParseFailure::UnreadableFile { path, detail } => FailureModel::UnreadableFile {
                path: path@,
                detail: detail@,
            },
            ParseFailure::Undecodable { path, detail, analysis } => FailureModel::Undecodable {
                path: path@,
                detail: detail@,
                analysis: analysis@,
            },
            ParseFailure::Unserializable(d) => FailureModel::Unserializable(d@),
        }
    }
}

/// The note on a file that cannot be decoded, as the report holds it.
pub open spec fn parse_failure_note(detail: Seq<char>) -> Seq<char> {
    "Failed to parse DICOM file: "@ + detail
}

/// The likely causes listed for a file that cannot be decoded.
pub open spec fn likely_causes() -> Seq<char> {
    "This could be because:\n"@ + "1. The file is not a valid DICOM file\n"@
        + "2. The file is corrupted\n"@ + "3. The file uses an unsupported transfer syntax\n"@
        + "4. There are insufficient read permissions"@
}

/// The message for a failure.
pub open spec fn failure_text(failure: FailureModel) -> Seq<char> {
    match failure {
        FailureModel::NullPath => "Path is null"@,
        FailureModel::InvalidPath(detail) => "Invalid UTF-8 in path: "@ + detail,
        FailureModel::MissingFile(path) => "File does not exist: "@ + path,
        FailureModel::UnreadableFile { path, detail } => "Cannot open file: "@ + path
            + ". Error: "@ + detail,
        FailureModel::Undecodable { path, detail, analysis } => "Failed to parse DICOM file: "@
            + path + ".\nError details: "@ + detail + "\n\nFile Analysis:\n"@ + analysis + "\n"@
            + likely_causes(),
        FailureModel::Unserializable(detail) => "Failed to serialize to JSON: "@ + detail,
    }
}

impl ParseFailure {
    /// The message that tells the caller of the failure. For a file that
    /// cannot be decoded it quotes the underlying failure and the analysis
    /// of the file's first bytes, and lists the likely causes.
    pub fn message(&self) -> (text: String)
        ensures
            text@ == failure_text(self@),
    {
        match self {
            ParseFailure::NullPath => String::from_str("Path is null"),
            ParseFailure::InvalidPath(detail) => {
                let mut text = String::from_str("Invalid UTF-8 in path: ");
                text.append(detail.as_str());
                text
            },
            ParseFailure::MissingFile(path) => {
                let mut text = String::from_str("File does not exist: ");
                text.append(path.as_str());
                text
            },
            ParseFailure::UnreadableFile { path, detail } => {
                let mut text = String::from_str("Cannot open file: ");
                text.append(path.as_str());
                text.append(". Error: ");
                text.append(detail.as_str());
                text
            },
            ParseFailure::Undecodable { path, detail, analysis } => {
                let mut text = String::from_str("Failed to parse DICOM file: ");
                text.append(path.as_str());
                text.append(".\nError details: ");
                text.append(detail.as_str());
                text.append("\n\nFile Analysis:\n");
                text.append(analysis.as_str());
                text.append("\n");
                let ghost head = text@;
                text.append("This could be because:\n");
                text.append("1. The file is not a valid DICOM file\n");
                text.append("2. The file is corrupted\n");
                text.append("3. The file uses an unsupported transfer syntax\n");
                text.append("4. There are insufficient read permissions");
                assert(text@ =~= head + likely_causes());
                text
            },
            ParseFailure::Unserializable(detail) => {
                let mut text = String::from_str("Failed to serialize to JSON: ");
                text.append(detail.as_str());
                text
            },
        }
    }
}

/// Records in the report on a file that the file could not be decoded.
/// Nothing else changes; a report that holds nothing of a data set stays
/// well formed.
pub fn record_parse_failure(debug_info: &mut DicomDebugInfo, detail: &str)
    ensures
        final(debug_info)@ == (DebugModel {
            parse_error: Some(parse_failure_note(detail@)),
            ..old(debug_info)@
        }),
        old(debug_info)@.well_formed() && old(debug_info)@.structure_unset() ==> final(debug_info)@.well_formed(),
{
    let mut note = String::from_str("Failed to parse DICOM file: ");
    note.append(detail);
    debug_info.parse_error = Some(note);
}

/// What is handed to the caller: the serialised result or a message, never
/// both and never neither.
#[derive(Debug)]
pub struct ParseReply {
    pub json_data: Option<String>,
    pub error_message: Option<String>,
}

/// Turns the end of an inspection into the reply: the serialised result
/// where there is one, else the message of the failure. Either text is
/// made fit to be handed over as a C string: U+FFFD stands in place of
/// each NUL.
pub fn reply_for(outcome: Result<String, ParseFailure>) -> (reply: ParseReply)
    ensures
        match outcome {
            Ok(json) => text_model(reply.json_data) == Some(without_nul(json@))
                && reply.error_message is None,
            Err(failure) => reply.json_data is None && text_model(reply.error_message) == Some(
                without_nul(failure_text(failure@)),
            ),
        },
        reply.json_data is Some <==> reply.error_message is None,
{
    match outcome {
        Ok(json) => ParseReply { json_data: Some(c_safe(json)), error_message: None },
        Err(failure) => ParseReply {
            json_data: None,
            error_message: Some(c_safe(failure.message())),
        },
    }
}

} // verus!
