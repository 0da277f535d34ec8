use dicom_inspect::attribute::{AttributeValue, DicomAttribute};
use dicom_inspect::element::Element;
use dicom_inspect::tag::Tag;
use dicom_inspect::tree::{
    is_pixel_data, parse_dicom_element, process_dicom_element, process_sequence_item, render_leaf,
};

fn leaf(group: u16, element: u16, vr: &str, text: Option<&str>) -> Element {
    Element {
        tag: Tag { group, element },
        vr: String::from(vr),
        text: text.map(String::from),
        number: None,
        items: Vec::new(),
    }
}

fn group(group: u16, element: u16, items: Vec<Vec<Element>>) -> Element {
    Element { tag: Tag { group, element }, vr: String::from("SQ"), text: None, number: None, items }
}

fn text_of(attribute: &DicomAttribute) -> &str {
    match &attribute.value {
        AttributeValue::Text(t) => t.as_str(),
        AttributeValue::Group(_) => panic!("expected a text value"),
    }
}

fn group_of(attribute: &DicomAttribute) -> &Vec<DicomAttribute> {
    match &attribute.value {
        AttributeValue::Group(list) => list,
        AttributeValue::Text(_) => panic!("expected a group value"),
    }
}

fn list(elements: Vec<Element>) -> Vec<DicomAttribute> {
    let mut attributes = Vec::new();
    parse_dicom_element(&elements, &mut attributes);
    attributes
}

#[test]
fn lists_text_element() {
    let listed = list(vec![leaf(0x0010, 0x0010, "PN", Some("Doe^John"))]);
    assert_eq!(listed.len(), 1);
    assert_eq!(listed[0].depth, 0);
    assert_eq!(listed[0].tag, "(0010,0010)");
    assert_eq!(listed[0].name, "PatientName");
    assert_eq!(listed[0].vr, "PN");
    assert_eq!(text_of(&listed[0]), "Doe^John");
}

#[test]
fn lists_elements_in_order() {
    let listed = list(vec![
        leaf(0x0008, 0x0060, "CS", Some("MR")),
        leaf(0x0010, 0x0020, "LO", Some("ID-1")),
        leaf(0x0020, 0x0013, "IS", Some("7")),
    ]);
    let tags: Vec<&str> = listed.iter().map(|a| a.tag.as_str()).collect();
    assert_eq!(tags, vec!["(0008,0060)", "(0010,0020)", "(0020,0013)"]);
    let names: Vec<&str> = listed.iter().map(|a| a.name.as_str()).collect();
    assert_eq!(names, vec!["Modality", "PatientID", "InstanceNumber"]);
}

#[test]
fn appends_to_what_is_listed_already() {
    let mut attributes = Vec::new();
    parse_dicom_element(&vec![leaf(0x0008, 0x0060, "CS", Some("CT"))], &mut attributes);
    parse_dicom_element(&vec![leaf(0x0010, 0x0020, "LO", Some("A"))], &mut attributes);
    assert_eq!(attributes.len(), 2);
    assert_eq!(text_of(&attributes[0]), "CT");
    assert_eq!(text_of(&attributes[1]), "A");
}

#[test]
fn empty_data_set_lists_nothing() {
    assert!(list(Vec::new()).is_empty());
}

#[test]
fn binary_data_is_not_shown() {
    for vr in ["OB", "OW", "UN"] {
        let listed = list(vec![leaf(0x0009, 0x1001, vr, Some("1\\2\\3"))]);
        assert_eq!(text_of(&listed[0]), "[Binary data]");
        assert_eq!(listed[0].vr, vr);
        assert_eq!(listed[0].name, "Unknown");
    }
}

#[test]
fn other_binary_looking_codes_are_shown() {
    let listed = list(vec![leaf(0x0009, 0x1001, "OF", Some("1.5"))]);
    assert_eq!(text_of(&listed[0]), "1.5");
}

#[test]
fn value_without_text_names_its_representation() {
    let listed = list(vec![leaf(0x0008, 0x0018, "UI", None)]);
    assert_eq!(text_of(&listed[0]), "[Cannot display value of type UI]");
    assert_eq!(render_leaf(&leaf(1, 2, "XX", None)), "[Cannot display value of type XX]");
}

#[test]
fn pixel_data_is_a_marker() {
    let listed = list(vec![leaf(0x7FE0, 0x0010, "OW", Some("0\\1"))]);
    assert_eq!(listed[0].depth, 0);
    assert_eq!(listed[0].tag, "(7FE0,0010)");
    assert_eq!(listed[0].name, "PixelData");
    assert_eq!(listed[0].vr, "OW");
    assert_eq!(text_of(&listed[0]), "[PixelData]");
}

#[test]
fn pixel_data_is_a_marker_even_as_group() {
    let inner = vec![leaf(0x0008, 0x0060, "CS", Some("MR"))];
    let mut pixels = group(0x7FE0, 0x0010, vec![inner]);
    pixels.text = None;
    let listed = list(vec![pixels]);
    assert_eq!(listed.len(), 1);
    assert_eq!(listed[0].vr, "SQ");
    assert_eq!(text_of(&listed[0]), "[PixelData]");
}

#[test]
fn pixel_data_is_a_marker_at_its_depth() {
    let item = vec![leaf(0x7FE0, 0x0010, "OB", Some("0"))];
    let listed = list(vec![group(0x0008, 0x1140, vec![item])]);
    let nested = group_of(&listed[0]);
    assert_eq!(nested.len(), 1);
    assert_eq!(nested[0].depth, 1);
    assert_eq!(text_of(&nested[0]), "[PixelData]");
    assert!(is_pixel_data(Tag { group: 0x7FE0, element: 0x0010 }));
    assert!(!is_pixel_data(Tag { group: 0x7FE0, element: 0x0011 }));
    assert!(!is_pixel_data(Tag { group: 0x7FE1, element: 0x0010 }));
}

#[test]
fn group_is_flattened_across_items() {
    let n = 3usize;
    let m = 2usize;
    let mut items = Vec::new();
    for i in 0..n {
        let id = format!("id-{}", i);
        let name = format!("name-{}", i);
        items.push(vec![
            leaf(0x0008, 0x1150, "UI", Some(id.as_str())),
            leaf(0x0008, 0x1155, "UI", Some(name.as_str())),
        ]);
    }
    let listed = list(vec![group(0x0008, 0x1140, items)]);
    assert_eq!(listed.len(), 1);
    assert_eq!(listed[0].depth, 0);
    assert_eq!(listed[0].tag, "(0008,1140)");
    assert_eq!(listed[0].vr, "SQ");
    let nested = group_of(&listed[0]);
    assert_eq!(nested.len(), n * m);
    for i in 0..n {
        assert_eq!(nested[i * m].depth, 1);
        assert_eq!(nested[i * m].tag, "(0008,1150)");
        assert_eq!(text_of(&nested[i * m]), format!("id-{}", i));
        assert_eq!(nested[i * m + 1].depth, 1);
        assert_eq!(nested[i * m + 1].tag, "(0008,1155)");
        assert_eq!(text_of(&nested[i * m + 1]), format!("name-{}", i));
    }
}

#[test]
fn group_without_items_is_an_empty_group() {
    let listed = list(vec![group(0x0008, 0x1140, Vec::new())]);
    assert!(group_of(&listed[0]).is_empty());
    let listed = list(vec![group(0x0008, 0x1140, vec![Vec::new(), Vec::new()])]);
    assert!(group_of(&listed[0]).is_empty());
}

#[test]
fn items_of_different_sizes_are_flattened_in_order() {
    let items = vec![
        vec![leaf(0x0008, 0x0060, "CS", Some("a"))],
        Vec::new(),
        vec![leaf(0x0008, 0x0060, "CS", Some("b")), leaf(0x0008, 0x0070, "LO", Some("c"))],
    ];
    let listed = list(vec![group(0x0040, 0x0275, items)]);
    let texts: Vec<&str> = group_of(&listed[0]).iter().map(text_of).collect();
    assert_eq!(texts, vec!["a", "b", "c"]);
}

#[test]
fn group_inside_a_group_is_listed_one_level_deeper() {
    let inner = group(0x0040, 0xA730, vec![vec![leaf(0x0008, 0x0100, "SH", Some("code"))]]);
    let outer = group(0x0040, 0x0275, vec![vec![inner]]);
    let listed = list(vec![outer]);
    let first = group_of(&listed[0]);
    assert_eq!(first.len(), 1);
    assert_eq!(first[0].depth, 1);
    let second = group_of(&first[0]);
    assert_eq!(second.len(), 1);
    assert_eq!(second[0].depth, 2);
    assert_eq!(second[0].tag, "(0008,0100)");
    assert_eq!(text_of(&second[0]), "code");
}

#[test]
fn group_nested_two_levels_deep_degrades_to_text() {
    let deep = group(0x0040, 0xA043, vec![vec![leaf(0x0008, 0x0100, "SH", Some("hidden"))]]);
    let inner = group(0x0040, 0xA730, vec![vec![deep]]);
    let outer = group(0x0040, 0x0275, vec![vec![inner]]);
    let listed = list(vec![outer]);
    let first = group_of(&listed[0]);
    let second = group_of(&first[0]);
    assert_eq!(second.len(), 1);
    assert_eq!(second[0].depth, 2);
    assert_eq!(second[0].vr, "SQ");
    assert_eq!(second[0].tag, "(0040,A043)");
    assert_eq!(text_of(&second[0]), "[Cannot display value of type SQ]");
}

#[test]
fn levels_bound_the_descent() {
    let inner = group(0x0040, 0xA730, vec![vec![leaf(0x0008, 0x0100, "SH", Some("code"))]]);
    let mut attributes = Vec::new();
    process_dicom_element(&inner, 5, 0, &mut attributes);
    assert_eq!(attributes[0].depth, 5);
    assert_eq!(text_of(&attributes[0]), "[Cannot display value of type SQ]");
    let mut attributes = Vec::new();
    process_dicom_element(&inner, 5, 1, &mut attributes);
    let nested = group_of(&attributes[0]);
    assert_eq!(nested[0].depth, 6);
    assert_eq!(text_of(&nested[0]), "code");
}

#[test]
fn item_is_listed_at_the_given_depth() {
    let item = vec![leaf(0x0008, 0x0060, "CS", Some("MR")), leaf(0x0010, 0x0020, "LO", None)];
    let mut attributes = Vec::new();
    process_sequence_item(&item, 3, 2, &mut attributes);
    assert_eq!(attributes.len(), 2);
    assert_eq!(attributes[0].depth, 3);
    assert_eq!(attributes[1].depth, 3);
    assert_eq!(text_of(&attributes[1]), "[Cannot display value of type LO]");
}
