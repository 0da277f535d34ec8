//! Display names of tags, from the standard data dictionary.

use vstd::prelude::*;
use crate::element::text_model;
use crate::tag::Tag;
use dicom_dictionary_std::StandardDataDictionary;

verus! {

/// The alias under which the standard data dictionary registers the tag
/// `(group, element)`, if it registers it.
pub uninterp spec fn standard_alias(group: u16, element: u16) -> Option<Seq<char>>;

/// The display name of a tag: its alias in the standard dictionary, or
/// `Unknown` where the dictionary has none.
pub open spec fn tag_name(tag: Tag) -> Seq<char> {
    name_or_unknown(standard_alias(tag.group, tag.element))
}

/// The display name for the outcome of a dictionary lookup.
pub open spec fn name_or_unknown(alias: Option<Seq<char>>) -> Seq<char> {
    match alias {
        Some(name) => name,
        None => "Unknown"@,
    }
}

/// Looks the tag up with `StandardDataDictionary::by_tag` and hands back the
/// alias of the entry found. The lookup reads a fixed table, so its outcome
/// is a function of the tag alone; nothing more is claimed of it.
#[verifier::external_body]
fn dictionary_alias(tag: Tag) -> (alias: Option<String>)
    ensures
        text_model(alias) == standard_alias(tag.group, tag.element),
{
    let tag = dicom::core::Tag(tag.group, tag.element);
    let entry = dicom::core::DataDictionary::by_tag(&StandardDataDictionary, tag);
    entry.map(|e| dicom::core::dictionary::DataDictionaryEntry::alias(e).to_string())
}

/// Turns the outcome of a dictionary lookup into a display name.
pub fn display_name(alias: Option<String>) -> (name: String)
    ensures
        name@ == name_or_unknown(text_model(alias)),
{
    match alias {
        Some(name) => name,
        None => String::from_str("Unknown"),
    }
}

/// The display name of a tag; `Unknown` for every tag that the standard
/// dictionary does not register.
pub fn get_tag_name(tag: Tag) -> (name: String)
    ensures
        name@ == tag_name(tag),
        standard_alias(tag.group, tag.element) is None ==> name@ == "Unknown"@,
{
    display_name(dictionary_alias(tag))
}

} // verus!
