use base64::Engine;
use dicom_inspect::preview::{
    encode_frame, finish_frame, frame_count, record_preview, select_layout, ColorLayout,
    FrameOutcome, Raster,
};
use dicom_inspect::report::DicomDebugInfo;

fn rendered(text: &str) -> FrameOutcome {
    FrameOutcome::Rendered(String::from(text))
}

fn jpeg_of(outcome: &FrameOutcome) -> Vec<u8> {
    match outcome {
        FrameOutcome::Rendered(text) => {
            base64::engine::general_purpose::STANDARD.decode(text).expect("valid base64")
        }
        other => panic!("expected a rendered frame, got {:?}", other),
    }
}

#[test]
fn frame_count_defaults_to_one() {
    let mut report = DicomDebugInfo::new();
    assert_eq!(frame_count(&report), 1);
    report.number_of_frames = Some(7);
    assert_eq!(frame_count(&report), 7);
    report.number_of_frames = Some(0);
    assert_eq!(frame_count(&report), 0);
    report.number_of_frames = Some(-3);
    assert_eq!(frame_count(&report), -3);
}

#[test]
fn gray_layout_needs_monochrome2_and_one_sample() {
    let mut report = DicomDebugInfo::new();
    assert_eq!(select_layout(&report), ColorLayout::Rgb);
    report.photometric_interpretation = Some(String::from("MONOCHROME2"));
    assert_eq!(select_layout(&report), ColorLayout::Rgb);
    report.samples_per_pixel = Some(1);
    assert_eq!(select_layout(&report), ColorLayout::Gray);
    report.samples_per_pixel = Some(3);
    assert_eq!(select_layout(&report), ColorLayout::Rgb);
    report.samples_per_pixel = Some(1);
    report.photometric_interpretation = Some(String::from("MONOCHROME1"));
    assert_eq!(select_layout(&report), ColorLayout::Rgb);
    report.photometric_interpretation = Some(String::from("MONOCHROME2 "));
    assert_eq!(select_layout(&report), ColorLayout::Rgb);
    report.photometric_interpretation = Some(String::from("RGB"));
    assert_eq!(select_layout(&report), ColorLayout::Rgb);
}

#[test]
fn decode_failure_gives_no_previews() {
    let mut report = DicomDebugInfo::new();
    let preview = record_preview(Err(String::from("MissingPixelData")), &mut report);
    assert_eq!(preview, None);
    assert_eq!(
        report.pixel_decode_error,
        Some(String::from("Pixel data decode error: MissingPixelData"))
    );
    assert_eq!(report.pixel_convert_error, None);
    assert_eq!(report.pixel_encode_error, None);
}

#[test]
fn second_of_three_frames_failing_discards_all() {
    let mut report = DicomDebugInfo::new();
    let outcomes = vec![
        rendered("first"),
        FrameOutcome::ConvertFailed(String::from("FrameOutOfRange")),
        rendered("third"),
    ];
    let preview = record_preview(Ok(outcomes), &mut report);
    assert_eq!(preview, None);
    assert_eq!(
        report.pixel_convert_error,
        Some(String::from("Image conversion error for frame 1: FrameOutOfRange"))
    );
    assert_eq!(report.pixel_decode_error, None);
    assert_eq!(report.pixel_encode_error, None);
}

#[test]
fn encode_failure_is_recorded_with_its_frame() {
    let mut report = DicomDebugInfo::new();
    let mut outcomes = Vec::new();
    for i in 0..12 {
        outcomes.push(rendered(format!("frame-{}", i).as_str()));
    }
    outcomes.push(FrameOutcome::EncodeFailed(String::from("InvalidSize")));
    let preview = record_preview(Ok(outcomes), &mut report);
    assert_eq!(preview, None);
    assert_eq!(
        report.pixel_encode_error,
        Some(String::from("JPEG encoding error for frame 12: InvalidSize"))
    );
    assert_eq!(report.pixel_decode_error, None);
    assert_eq!(report.pixel_convert_error, None);
}

#[test]
fn only_the_first_failure_is_recorded() {
    let mut report = DicomDebugInfo::new();
    let outcomes = vec![
        FrameOutcome::EncodeFailed(String::from("a")),
        FrameOutcome::ConvertFailed(String::from("b")),
    ];
    assert_eq!(record_preview(Ok(outcomes), &mut report), None);
    assert_eq!(report.pixel_encode_error, Some(String::from("JPEG encoding error for frame 0: a")));
    assert_eq!(report.pixel_convert_error, None);
}

#[test]
fn all_frames_rendered_gives_all_previews() {
    let mut report = DicomDebugInfo::new();
    let preview = record_preview(Ok(vec![rendered("a"), rendered("b"), rendered("c")]), &mut report);
    assert_eq!(preview, Some(vec![String::from("a"), String::from("b"), String::from("c")]));
    assert_eq!(report.pixel_decode_error, None);
    assert_eq!(report.pixel_convert_error, None);
    assert_eq!(report.pixel_encode_error, None);
}

#[test]
fn no_frames_gives_no_previews_and_no_failure() {
    let mut report = DicomDebugInfo::new();
    assert_eq!(record_preview(Ok(Vec::new()), &mut report), None);
    assert_eq!(report.pixel_decode_error, None);
    assert_eq!(report.pixel_convert_error, None);
    assert_eq!(report.pixel_encode_error, None);
}

#[test]
fn attempt_leaves_the_rest_of_the_report() {
    let mut report = DicomDebugInfo::new();
    report.file_size = 99;
    report.attribute_count = 4;
    report.number_of_frames = Some(2);
    record_preview(Ok(vec![FrameOutcome::ConvertFailed(String::from("x"))]), &mut report);
    assert_eq!(report.file_size, 99);
    assert_eq!(report.attribute_count, 4);
    assert_eq!(report.number_of_frames, Some(2));
    assert_eq!(report.parse_error, None);
}

#[test]
fn gray_frame_is_encoded_as_jpeg_in_base64() {
    let raster = Raster {
        data: (0u16..64).map(|v| (v * 4) as u8).collect(),
        width: 8,
        height: 8,
        layout: ColorLayout::Gray,
    };
    let outcome = encode_frame(&raster);
    let jpeg = jpeg_of(&outcome);
    assert_eq!(&jpeg[0..2], &[0xFF, 0xD8]);
    assert_eq!(&jpeg[jpeg.len() - 2..], &[0xFF, 0xD9]);
    let decoded = image::load_from_memory(&jpeg).expect("a JPEG");
    assert_eq!(decoded.width(), 8);
    assert_eq!(decoded.height(), 8);
    assert_eq!(decoded.color(), image::ColorType::L8);
}

#[test]
fn rgb_frame_is_encoded_as_jpeg_in_base64() {
    let raster = Raster { data: vec![200u8; 4 * 2 * 3], width: 4, height: 2, layout: ColorLayout::Rgb };
    let outcome = encode_frame(&raster);
    let jpeg = jpeg_of(&outcome);
    let decoded = image::load_from_memory(&jpeg).expect("a JPEG");
    assert_eq!(decoded.width(), 4);
    assert_eq!(decoded.height(), 2);
    assert_eq!(decoded.color(), image::ColorType::Rgb8);
}

#[test]
fn encoding_is_repeatable() {
    let raster = Raster { data: vec![17u8; 16], width: 4, height: 4, layout: ColorLayout::Gray };
    assert_eq!(jpeg_of(&encode_frame(&raster)), jpeg_of(&encode_frame(&raster)));
}

#[test]
fn raster_of_wrong_length_fails_to_encode() {
    let raster = Raster { data: vec![0u8; 10], width: 4, height: 4, layout: ColorLayout::Gray };
    match encode_frame(&raster) {
        FrameOutcome::EncodeFailed(detail) => {
            assert_eq!(detail, "Invalid buffer length: expected 16 got 10 for 4x4 image")
        }
        other => panic!("expected an encoding failure, got {:?}", other),
    }
    let raster = Raster { data: vec![0u8; 16], width: 4, height: 4, layout: ColorLayout::Rgb };
    match encode_frame(&raster) {
        FrameOutcome::EncodeFailed(detail) => {
            assert_eq!(detail, "Invalid buffer length: expected 48 got 16 for 4x4 image")
        }
        other => panic!("expected an encoding failure, got {:?}", other),
    }
}

#[test]
fn empty_frame_fails_to_encode() {
    let raster = Raster { data: Vec::new(), width: 0, height: 0, layout: ColorLayout::Gray };
    assert!(matches!(encode_frame(&raster), FrameOutcome::EncodeFailed(_)));
}

#[test]
fn huge_frame_size_does_not_overflow() {
    let raster = Raster {
        data: Vec::new(),
        width: u32::MAX,
        height: u32::MAX,
        layout: ColorLayout::Rgb,
    };
    match encode_frame(&raster) {
        FrameOutcome::EncodeFailed(detail) => assert_eq!(
            detail,
            "Invalid buffer length: expected 55340232195358851075 got 0 for 4294967295x4294967295 image"
        ),
        other => panic!("expected an encoding failure, got {:?}", other),
    }
}

#[test]
fn failed_conversion_is_a_conversion_failure() {
    match finish_frame(Err(String::from("FrameOutOfRange")), ColorLayout::Gray) {
        FrameOutcome::ConvertFailed(detail) => assert_eq!(detail, "FrameOutOfRange"),
        other => panic!("expected a conversion failure, got {:?}", other),
    }
    match finish_frame(Err(String::new()), ColorLayout::Rgb) {
        FrameOutcome::ConvertFailed(detail) => assert_eq!(detail, ""),
        other => panic!("expected a conversion failure, got {:?}", other),
    }
}

#[test]
fn gray_image_is_finished_in_the_layout_asked_for() {
    let samples: Vec<u8> = (0u16..64).map(|v| (v * 4) as u8).collect();
    let gray = image::GrayImage::from_raw(8, 8, samples).expect("64 samples");

    let as_gray = finish_frame(Ok(image::DynamicImage::ImageLuma8(gray.clone())), ColorLayout::Gray);
    let decoded = image::load_from_memory(&jpeg_of(&as_gray)).expect("a JPEG");
    assert_eq!((decoded.width(), decoded.height()), (8, 8));
    assert_eq!(decoded.color(), image::ColorType::L8);

    let as_rgb = finish_frame(Ok(image::DynamicImage::ImageLuma8(gray)), ColorLayout::Rgb);
    let decoded = image::load_from_memory(&jpeg_of(&as_rgb)).expect("a JPEG");
    assert_eq!((decoded.width(), decoded.height()), (8, 8));
    assert_eq!(decoded.color(), image::ColorType::Rgb8);
}

#[test]
fn colour_image_is_finished_in_the_layout_asked_for() {
    let rgb = image::RgbImage::from_raw(4, 2, vec![90u8; 4 * 2 * 3]).expect("24 samples");

    let as_rgb = finish_frame(Ok(image::DynamicImage::ImageRgb8(rgb.clone())), ColorLayout::Rgb);
    let decoded = image::load_from_memory(&jpeg_of(&as_rgb)).expect("a JPEG");
    assert_eq!((decoded.width(), decoded.height()), (4, 2));
    assert_eq!(decoded.color(), image::ColorType::Rgb8);

    let as_gray = finish_frame(Ok(image::DynamicImage::ImageRgb8(rgb)), ColorLayout::Gray);
    let decoded = image::load_from_memory(&jpeg_of(&as_gray)).expect("a JPEG");
    assert_eq!((decoded.width(), decoded.height()), (4, 2));
    assert_eq!(decoded.color(), image::ColorType::L8);
}

#[test]
fn finished_frame_is_the_encoding_of_the_image_samples() {
    let samples: Vec<u8> = (0u16..16).map(|v| (v * 16) as u8).collect();
    let gray = image::GrayImage::from_raw(4, 4, samples.clone()).expect("16 samples");
    let finished = finish_frame(Ok(image::DynamicImage::ImageLuma8(gray)), ColorLayout::Gray);
    let encoded = encode_frame(&Raster { data: samples, width: 4, height: 4, layout: ColorLayout::Gray });
    assert_eq!(jpeg_of(&finished), jpeg_of(&encoded));
}

#[test]
fn image_without_pixels_fails_to_encode() {
    let empty = image::DynamicImage::new_luma8(0, 0);
    assert!(matches!(finish_frame(Ok(empty), ColorLayout::Gray), FrameOutcome::EncodeFailed(_)));
}
