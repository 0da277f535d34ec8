use dicom::object::meta::FileMetaTableBuilder;
use dicom::object::{FileDicomObject, InMemDicomObject};
use dicom_inspect::output::{inspect, DicomParseOutput};
use dicom_inspect::preview::{
    generate_preview_image, refuse_frame, render_frame, render_frames, ColorLayout, FrameOutcome,
};
use dicom_inspect::report::DicomDebugInfo;
use dicom_pixeldata::PixelDecoder;

fn inspect_file(file: &FileDicomObject<InMemDicomObject>, report: DicomDebugInfo) -> DicomParseOutput {
    let decoded = dicom_pixeldata::PixelDecoder::decode_pixel_data(file);
    let decoded = match &decoded {
        Ok(pixels) => Ok(pixels),
        Err(e) => Err(format!("{:?}", e)),
    };
    inspect(file, decoded, report)
}

fn short(group: u16, element: u16, value: u16) -> dicom::core::DataElement<InMemDicomObject> {
    dicom::core::DataElement::new(
        dicom::core::Tag(group, element),
        dicom::core::VR::US,
        dicom::core::PrimitiveValue::from(value),
    )
}

fn text(group: u16, element: u16, vr: dicom::core::VR, value: &str) -> dicom::core::DataElement<InMemDicomObject> {
    dicom::core::DataElement::new(
        dicom::core::Tag(group, element),
        vr,
        dicom::core::PrimitiveValue::from(value),
    )
}

fn image_file(bits_allocated: u16, bits_stored: u16, frames: u16, side: u16) -> FileDicomObject<InMemDicomObject> {
    let bytes = (bits_allocated as usize / 8) * frames as usize * side as usize * side as usize;
    let count = format!("{}", frames);
    let obj = InMemDicomObject::from_element_iter([
        short(0x0028, 0x0002, 1),
        text(0x0028, 0x0004, dicom::core::VR::CS, "MONOCHROME2"),
        text(0x0028, 0x0008, dicom::core::VR::IS, count.as_str()),
        short(0x0028, 0x0010, side),
        short(0x0028, 0x0011, side),
        short(0x0028, 0x0100, bits_allocated),
        short(0x0028, 0x0101, bits_stored),
        short(0x0028, 0x0102, bits_stored.saturating_sub(1)),
        short(0x0028, 0x0103, 0),
        dicom::core::DataElement::new(
            dicom::core::Tag(0x7FE0, 0x0010),
            dicom::core::VR::OW,
            dicom::core::PrimitiveValue::from(vec![90u8; bytes]),
        ),
    ]);
    let meta = FileMetaTableBuilder::new()
        .transfer_syntax("1.2.840.10008.1.2.1")
        .media_storage_sop_class_uid("1.2.840.10008.5.1.4.1.1.7")
        .media_storage_sop_instance_uid("2.25.1")
        .implementation_class_uid("2.25.2")
        .build()
        .expect("a complete meta table");
    obj.with_exact_meta(meta)
}

fn failure_text(outcome: &FrameOutcome) -> &str {
    match outcome {
        FrameOutcome::ConvertFailed(detail) => detail.as_str(),
        other => panic!("expected a conversion failure, got {:?}", other),
    }
}

#[test]
fn frame_that_the_pixel_data_holds_is_not_refused() {
    let file = image_file(8, 8, 2, 4);
    let pixels = file.decode_pixel_data().expect("decodable");
    assert_eq!(refuse_frame(&pixels, 0), None);
    assert_eq!(refuse_frame(&pixels, 1), None);
}

#[test]
fn frame_past_the_last_is_refused() {
    let file = image_file(8, 8, 2, 4);
    let pixels = file.decode_pixel_data().expect("decodable");
    assert_eq!(
        refuse_frame(&pixels, 2),
        Some(String::from("Frame 2 is out of range: the pixel data has 2 frames"))
    );
    assert_eq!(
        refuse_frame(&pixels, u32::MAX),
        Some(String::from("Frame 4294967295 is out of range: the pixel data has 2 frames"))
    );
    let outcome = render_frame(&pixels, 2, ColorLayout::Gray);
    assert_eq!(failure_text(&outcome), "Frame 2 is out of range: the pixel data has 2 frames");
}

#[test]
fn rendering_more_frames_than_there_are_stops_at_the_first_missing() {
    let file = image_file(8, 8, 2, 4);
    let pixels = file.decode_pixel_data().expect("decodable");
    let outcomes = render_frames(&pixels, 5, ColorLayout::Gray);
    assert_eq!(outcomes.len(), 3);
    assert!(matches!(outcomes[0], FrameOutcome::Rendered(_)));
    assert!(matches!(outcomes[1], FrameOutcome::Rendered(_)));
    assert_eq!(failure_text(&outcomes[2]), "Frame 2 is out of range: the pixel data has 2 frames");
}

#[test]
fn rendering_no_frames_gives_no_outcomes() {
    let file = image_file(8, 8, 1, 4);
    let pixels = file.decode_pixel_data().expect("decodable");
    assert!(render_frames(&pixels, 0, ColorLayout::Gray).is_empty());
    assert!(render_frames(&pixels, -4, ColorLayout::Rgb).is_empty());
}

#[test]
fn sixteen_bit_samples_are_rendered() {
    let file = image_file(16, 12, 1, 4);
    let pixels = file.decode_pixel_data().expect("decodable");
    assert_eq!(refuse_frame(&pixels, 0), None);
    assert!(matches!(render_frame(&pixels, 0, ColorLayout::Gray), FrameOutcome::Rendered(_)));
}

#[test]
fn sixteen_bit_samples_with_no_bits_stored_are_refused() {
    let file = image_file(16, 0, 1, 4);
    let pixels = file.decode_pixel_data().expect("decodable");
    assert_eq!(
        refuse_frame(&pixels, 0),
        Some(String::from("Bits stored of 0 cannot be rendered for 16-bit samples"))
    );
    let outcome = render_frame(&pixels, 0, ColorLayout::Gray);
    assert_eq!(failure_text(&outcome), "Bits stored of 0 cannot be rendered for 16-bit samples");
}

#[test]
fn inspection_survives_sixteen_bit_samples_with_no_bits_stored() {
    let output = inspect_file(&image_file(16, 0, 1, 4), DicomDebugInfo::new());
    assert_eq!(output.preview_images, None);
    assert_eq!(output.debug_info.pixel_decode_error, None);
    assert_eq!(
        output.debug_info.pixel_convert_error,
        Some(String::from(
            "Image conversion error for frame 0: Bits stored of 0 cannot be rendered for 16-bit samples"
        ))
    );
    assert_eq!(output.debug_info.pixel_encode_error, None);
}

#[test]
fn eight_bit_samples_do_not_depend_on_bits_stored() {
    let file = image_file(8, 0, 1, 4);
    let pixels = file.decode_pixel_data().expect("decodable");
    assert_eq!(refuse_frame(&pixels, 0), None);
    assert!(matches!(render_frame(&pixels, 0, ColorLayout::Gray), FrameOutcome::Rendered(_)));
}

#[test]
fn failed_decoding_is_recorded_with_its_reason() {
    let mut report = DicomDebugInfo::new();
    report.number_of_frames = Some(3);
    let preview = generate_preview_image(Err(String::from("MissingPixelData")), &mut report);
    assert_eq!(preview, None);
    assert_eq!(
        report.pixel_decode_error,
        Some(String::from("Pixel data decode error: MissingPixelData"))
    );
    assert_eq!(report.pixel_convert_error, None);
    assert_eq!(report.pixel_encode_error, None);
    assert_eq!(report.number_of_frames, Some(3));
}

#[test]
fn decoded_pixel_data_is_rendered_frame_by_frame() {
    let file = image_file(8, 8, 2, 4);
    let pixels = file.decode_pixel_data().expect("decodable");
    let mut report = DicomDebugInfo::new();
    report.number_of_frames = Some(2);
    report.samples_per_pixel = Some(1);
    report.photometric_interpretation = Some(String::from("MONOCHROME2"));
    let preview = generate_preview_image(Ok(&pixels), &mut report).expect("two previews");
    assert_eq!(preview.len(), 2);
    assert!(preview.iter().all(|image| image.starts_with("/9j/")));
    assert_eq!(report.pixel_decode_error, None);
    assert_eq!(report.pixel_convert_error, None);
    assert_eq!(report.pixel_encode_error, None);
}

#[test]
fn report_without_frame_count_renders_one_frame() {
    let file = image_file(8, 8, 2, 4);
    let pixels = file.decode_pixel_data().expect("decodable");
    let mut report = DicomDebugInfo::new();
    let preview = generate_preview_image(Ok(&pixels), &mut report).expect("one preview");
    assert_eq!(preview.len(), 1);
}

#[test]
fn report_counting_more_frames_than_decoded_gives_no_previews() {
    let file = image_file(8, 8, 2, 4);
    let pixels = file.decode_pixel_data().expect("decodable");
    let mut report = DicomDebugInfo::new();
    report.number_of_frames = Some(3);
    let preview = generate_preview_image(Ok(&pixels), &mut report);
    assert_eq!(preview, None);
    assert_eq!(
        report.pixel_convert_error,
        Some(String::from(
            "Image conversion error for frame 2: Frame 2 is out of range: the pixel data has 2 frames"
        ))
    );
    assert_eq!(report.pixel_decode_error, None);
}

#[test]
fn inspection_records_the_given_decoding_failure() {
    let file = image_file(8, 8, 1, 4);
    let output = inspect(&file, Err(String::from("no codec")), DicomDebugInfo::new());
    assert_eq!(output.preview_images, None);
    assert_eq!(
        output.debug_info.pixel_decode_error,
        Some(String::from("Pixel data decode error: no codec"))
    );
    assert!(output.debug_info.has_pixel_data);
    assert_eq!(output.attributes.len(), output.debug_info.attribute_count);
}
