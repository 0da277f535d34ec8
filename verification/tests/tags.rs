use dicom_inspect::dictionary::{display_name, get_tag_name};
use dicom_inspect::tag::{format_tag_id, hex_digit_char, Tag};
use dicom_inspect::text::{c_safe, push_decimal, text_is};

#[test]
fn formats_tag_as_upper_hex() {
    assert_eq!(format_tag_id(Tag { group: 0x7FE0, element: 0x0010 }), "(7FE0,0010)");
    assert_eq!(format_tag_id(Tag { group: 0x0008, element: 0x103E }), "(0008,103E)");
    assert_eq!(format_tag_id(Tag { group: 0xABCD, element: 0xEF01 }), "(ABCD,EF01)");
}

#[test]
fn pads_small_components_with_zeros() {
    assert_eq!(format_tag_id(Tag { group: 0, element: 0 }), "(0000,0000)");
    assert_eq!(format_tag_id(Tag { group: 1, element: 0x000A }), "(0001,000A)");
    assert_eq!(format_tag_id(Tag { group: 0x0002, element: 0x0010 }), "(0002,0010)");
}

#[test]
fn formats_largest_components() {
    assert_eq!(format_tag_id(Tag { group: 0xFFFF, element: 0xFFFF }), "(FFFF,FFFF)");
}

#[test]
fn tag_text_agrees_with_std_formatting() {
    let samples: [u16; 9] = [0, 1, 9, 10, 15, 16, 0x00FF, 0x1234, 0xFFFE];
    for g in samples {
        for e in samples {
            let expected = format!("({:04X},{:04X})", g, e);
            assert_eq!(format_tag_id(Tag { group: g, element: e }), expected);
        }
    }
}

#[test]
fn tag_text_has_fixed_shape() {
    let text = format_tag_id(Tag { group: 0x00AB, element: 0xC0DE });
    let chars: Vec<char> = text.chars().collect();
    assert_eq!(chars.len(), 11);
    assert_eq!(chars[0], '(');
    assert_eq!(chars[5], ',');
    assert_eq!(chars[10], ')');
    for i in [1usize, 2, 3, 4, 6, 7, 8, 9] {
        assert!(chars[i].is_ascii_digit() || ('A'..='F').contains(&chars[i]));
    }
}

#[test]
fn hex_digits_are_upper_case() {
    let expected = ['0', '1', '2', '3', '4', '5', '6', '7', '8', '9', 'A', 'B', 'C', 'D', 'E', 'F'];
    for d in 0u16..16 {
        assert_eq!(hex_digit_char(d), expected[d as usize]);
    }
}

#[test]
fn names_registered_tags() {
    assert_eq!(get_tag_name(Tag { group: 0x0010, element: 0x0010 }), "PatientName");
    assert_eq!(get_tag_name(Tag { group: 0x7FE0, element: 0x0010 }), "PixelData");
    assert_eq!(get_tag_name(Tag { group: 0x0028, element: 0x0010 }), "Rows");
    assert_eq!(get_tag_name(Tag { group: 0x0002, element: 0x0010 }), "TransferSyntaxUID");
}

#[test]
fn names_unregistered_tags_unknown() {
    assert_eq!(get_tag_name(Tag { group: 0x0009, element: 0x1001 }), "Unknown");
    assert_eq!(get_tag_name(Tag { group: 0x0011, element: 0x2345 }), "Unknown");
    assert_eq!(get_tag_name(Tag { group: 0x0008, element: 0xFFFF }), "Unknown");
}

#[test]
fn display_name_falls_back_to_unknown() {
    assert_eq!(display_name(None), "Unknown");
    assert_eq!(display_name(Some(String::from("Modality"))), "Modality");
    assert_eq!(display_name(Some(String::new())), "");
}

#[test]
fn renders_decimal_numbers() {
    let mut out = String::from("n=");
    push_decimal(&mut out, 0);
    assert_eq!(out, "n=0");
    let mut out = String::new();
    push_decimal(&mut out, 7);
    push_decimal(&mut out, 10);
    push_decimal(&mut out, 1234567890);
    assert_eq!(out, "7101234567890");
    let mut out = String::new();
    push_decimal(&mut out, u128::MAX);
    assert_eq!(out, format!("{}", u128::MAX));
}

#[test]
fn compares_text_with_literal() {
    assert!(text_is(&String::from("SQ"), "SQ"));
    assert!(!text_is(&String::from("SQ"), "OB"));
    assert!(!text_is(&String::from("SQ "), "SQ"));
    assert!(text_is(&String::new(), ""));
}

#[test]
fn text_without_nul_is_unchanged() {
    assert_eq!(c_safe(String::new()), "");
    assert_eq!(c_safe(String::from("plain text, h\u{E9}llo \u{1F600}")), "plain text, h\u{E9}llo \u{1F600}");
}

#[test]
fn each_nul_gives_way_to_the_replacement_character() {
    assert_eq!(c_safe(String::from("\0")), "\u{FFFD}");
    assert_eq!(c_safe(String::from("a\0b\0\0c")), "a\u{FFFD}b\u{FFFD}\u{FFFD}c");
    let safe = c_safe(String::from("\0x\u{E9}\0"));
    assert_eq!(safe.chars().count(), 4);
    assert!(!safe.contains('\0'));
}
