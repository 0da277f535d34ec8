use dicom_inspect::output::{record_parse_failure, reply_for, ParseFailure};
use dicom_inspect::report::DicomDebugInfo;

#[test]
fn message_for_null_path() {
    assert_eq!(ParseFailure::NullPath.message(), "Path is null");
}

#[test]
fn message_for_invalid_path() {
    let failure = ParseFailure::InvalidPath(String::from("invalid utf-8 sequence of 1 bytes from index 3"));
    assert_eq!(
        failure.message(),
        "Invalid UTF-8 in path: invalid utf-8 sequence of 1 bytes from index 3"
    );
}

#[test]
fn message_for_missing_file() {
    let failure = ParseFailure::MissingFile(String::from("/tmp/none.dcm"));
    assert_eq!(failure.message(), "File does not exist: /tmp/none.dcm");
}

#[test]
fn message_for_unreadable_file() {
    let failure = ParseFailure::UnreadableFile {
        path: String::from("/root/x.dcm"),
        detail: String::from("Permission denied (os error 13)"),
    };
    assert_eq!(
        failure.message(),
        "Cannot open file: /root/x.dcm. Error: Permission denied (os error 13)"
    );
}

#[test]
fn message_for_undecodable_file_quotes_the_analysis() {
    let failure = ParseFailure::Undecodable {
        path: String::from("a.dcm"),
        detail: String::from("ReadFile"),
        analysis: String::from("File size: 0 bytes\n"),
    };
    let expected = "Failed to parse DICOM file: a.dcm.\nError details: ReadFile\n\nFile Analysis:\nFile size: 0 bytes\n\nThis could be because:\n1. The file is not a valid DICOM file\n2. The file is corrupted\n3. The file uses an unsupported transfer syntax\n4. There are insufficient read permissions";
    assert_eq!(failure.message(), expected);
}

#[test]
fn message_for_unserializable_result() {
    let failure = ParseFailure::Unserializable(String::from("key must be a string"));
    assert_eq!(failure.message(), "Failed to serialize to JSON: key must be a string");
}

#[test]
fn reply_holds_result_or_message() {
    let reply = reply_for(Ok(String::from("{}")));
    assert_eq!(reply.json_data, Some(String::from("{}")));
    assert_eq!(reply.error_message, None);
    let reply = reply_for(Err(ParseFailure::NullPath));
    assert_eq!(reply.json_data, None);
    assert_eq!(reply.error_message, Some(String::from("Path is null")));
}

#[test]
fn parse_failure_is_recorded_in_the_report() {
    let mut report = DicomDebugInfo::new();
    report.file_size = 12;
    record_parse_failure(&mut report, "InvalidFormat");
    assert_eq!(report.parse_error, Some(String::from("Failed to parse DICOM file: InvalidFormat")));
    assert_eq!(report.file_size, 12);
    assert_eq!(report.attribute_count, 0);
    assert!(!report.has_pixel_data);
    assert_eq!(report.pixel_decode_error, None);
}

#[test]
fn reply_holds_no_nul() {
    let reply = reply_for(Ok(String::from("{\"a\":\"\0\"}")));
    assert_eq!(reply.json_data, Some(String::from("{\"a\":\"\u{FFFD}\"}")));
    let failure = ParseFailure::Undecodable {
        path: String::from("a.dcm"),
        detail: String::from("bad"),
        analysis: String::from("DICM marker at 128: \0\0\0\0\n"),
    };
    let message = reply_for(Err(failure)).error_message.expect("a message");
    assert!(!message.contains('\0'));
    assert!(message.contains("DICM marker at 128: \u{FFFD}\u{FFFD}\u{FFFD}\u{FFFD}\n"));
    assert!(message.starts_with("Failed to parse DICOM file: a.dcm.\nError details: bad\n"));
}
