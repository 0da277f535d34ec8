//! Reading a decoded data set into the plain elements that the listing and
//! the diagnostics work on.

use vstd::prelude::*;
use crate::element::{item_model, text_model, Element, ElementModel};
use crate::summary::photometric_tag;
use crate::tag::{pixel_data_tag, Tag};
use crate::text::text_is;
use crate::tree::{is_binary_vr, is_pixel_data};
use dicom::object::mem::InMemElement;
use dicom::object::{FileDicomObject, InMemDicomObject};
use dicom_dictionary_std::StandardDataDictionary;

verus! {

/// The standard data dictionary: a unit type that stands for a fixed table.
#[verifier::external_type_specification]
#[verifier::external_body]
pub struct ExStandardDataDictionary(StandardDataDictionary);

/// A file that was read into memory: its meta information and its data
/// set.
#[verifier::external_type_specification]
#[verifier::external_body]
#[verifier::reject_recursive_types(O)]
pub struct ExFileDicomObject<O>(FileDicomObject<O>);

/// A data set held in memory: a map from tags to elements.
#[verifier::external_type_specification]
#[verifier::external_body]
#[verifier::reject_recursive_types(D)]
pub struct ExInMemDicomObject<D>(InMemDicomObject<D>);

/// One element of a data set: a header and a value.
#[verifier::external_type_specification]
#[verifier::external_body]
#[verifier::reject_recursive_types(I)]
#[verifier::reject_recursive_types(P)]
pub struct ExDataElement<I, P>(dicom::core::DataElement<I, P>);

/// The tags of the elements of a data set, in the order in which the data
/// set enumerates them.
pub uninterp spec fn dataset_tags(obj: InMemDicomObject) -> Seq<Tag>;

/// Lists the tags of a data set with `InMemDicomObject::tags`, each turned
/// into the library's own tag.
#[verifier::external_body]
fn object_tags(obj: &InMemDicomObject) -> (tags: Vec<Tag>)
    ensures
        tags@ == dataset_tags(*obj),
{
    obj.tags().map(|t| Tag { group: t.group(), element: t.element() }).collect()
}

/// The element that a data set holds under a tag, if it holds one.
pub uninterp spec fn dataset_element(obj: InMemDicomObject, tag: Tag) -> Option<InMemElement>;

/// Fetches the element under `tag` with `InMemDicomObject::element`, which
/// fails exactly where the data set holds none.
#[verifier::external_body]
fn object_element(obj: &InMemDicomObject, tag: Tag) -> (found: Option<&InMemElement>)
    ensures
        match found {
            Some(e) => dataset_element(*obj, tag) == Some(*e),
            None => dataset_element(*obj, tag) is None,
        },
{
    obj.element(dicom::core::Tag(tag.group, tag.element)).ok()
}

/// The two-letter code of an element's value representation.
pub uninterp spec fn element_vr_code(e: InMemElement) -> Seq<char>;

/// Reads the value representation with `DataElement::vr` and hands back the
/// code that `VR::to_string` gives for it.
#[verifier::external_body]
fn element_vr(e: &InMemElement) -> (code: String)
    ensures
        code@ == element_vr_code(*e),
{
    e.vr().to_string().to_owned()
}

/// The value of an element as a single string, where it has such a
/// rendering.
pub uninterp spec fn element_text_of(e: InMemElement) -> Option<Seq<char>>;

/// Renders the value with `DataElement::to_str`, which fails for a value
/// that is not primitive.
#[verifier::external_body]
fn element_text(e: &InMemElement) -> (text: Option<String>)
    ensures
        text_model(text) == element_text_of(*e),
{
    e.to_str().ok().map(|s| s.into_owned())
}

/// The value of an element as an integer, where it converts to one.
pub uninterp spec fn element_number_of(e: InMemElement) -> Option<i32>;

/// Converts the value with `DataElement::to_int`.
#[verifier::external_body]
fn element_number(e: &InMemElement) -> (number: Option<i32>)
    ensures
        number == element_number_of(*e),
{
    e.to_int::<i32>().ok()
}

/// The items of an element whose value is a sequence of data sets; empty
/// for any other value.
pub uninterp spec fn element_items_of(e: InMemElement) -> Seq<InMemDicomObject>;

/// Borrows the items with `DataElement::items`, which gives none for a
/// value that is not a sequence of data sets.
#[verifier::external_body]
fn element_items(e: &InMemElement) -> (items: &[InMemDicomObject])
    ensures
        items@ == element_items_of(*e),
{
    e.items().unwrap_or(&[])
}

/// The data set of a file, without the file meta group.
pub uninterp spec fn file_dataset(file: FileDicomObject<InMemDicomObject>) -> InMemDicomObject;

/// Borrows the data set of a file through the `Deref` of `FileDicomObject`.
#[verifier::external_body]
fn dataset_of(file: &FileDicomObject<InMemDicomObject>) -> (obj: &InMemDicomObject)
    ensures
        *obj == file_dataset(*file),
{
    std::ops::Deref::deref(file)
}

/// The elements of the file meta group of a file, as plain elements
/// without items, in the order in which the meta table lists them.
pub uninterp spec fn file_meta_elements(file: FileDicomObject<InMemDicomObject>) -> Seq<
    ElementModel,
>;

/// Lists the file meta group with `FileMetaTable::to_element_iter` and
/// turns each element into a plain one: its tag, the code of its
/// representation, and its value as `to_str` and `to_int` give it. The
/// meta table is a fixed record, so the list is a function of the file.
#[verifier::external_body]
fn meta_elements(file: &FileDicomObject<InMemDicomObject>) -> (elements: Vec<Element>)
    ensures
        item_model(elements) == file_meta_elements(*file),
{
    let convert = |e: dicom::core::DataElement<dicom::core::header::EmptyObject, [u8; 0]>| Element {
        tag: Tag { group: e.header().tag.group(), element: e.header().tag.element() },
        vr: e.vr().to_string().to_owned(),
        text: e.to_str().ok().map(|s| s.into_owned()),
        number: e.to_int::<i32>().ok(),
        items: Vec::new(),
    };
    file.meta().to_element_iter().map(convert).collect()
}

/// Whether the text of an element is read at all: that of the photometric
/// interpretation always, which the summary takes whatever its
/// representation; else not that of the pixel data nor of binary data,
/// whose text is never shown.
pub open spec fn reads_text(tag: Tag, vr: Seq<char>) -> bool {
    tag == photometric_tag() || (tag != pixel_data_tag() && !is_binary_vr(vr))
}

/// The plain element read from `e`, found under `tag`, with its items read
/// `levels` levels deep.
pub open spec fn element_snapshot(e: InMemElement, tag: Tag, levels: nat) -> ElementModel
    decreases levels, 0nat, 0nat,
{
    ElementModel {
        tag,
        vr: element_vr_code(e),
        text: if reads_text(tag, element_vr_code(e)) {
            element_text_of(e)
        } else {
            None
        },
        number: element_number_of(e),
        items: if levels > 0 {
            Seq::new(
                element_items_of(e).len(),
                |i: int| dataset_snapshot(element_items_of(e)[i], (levels - 1) as nat),
            )
        } else {
            Seq::empty()
        },
    }
}

/// The plain elements read from a data set for the tags `tags`: one for
/// each tag under which the data set holds an element, in the order of the
/// tags.
pub open spec fn snapshot_of_tags(obj: InMemDicomObject, tags: Seq<Tag>, levels: nat) -> Seq<
    ElementModel,
>
    decreases levels, 1nat, tags.len(),
{
    if tags.len() == 0 {
        Seq::empty()
    } else {
        let front = snapshot_of_tags(obj, tags.drop_last(), levels);
        match dataset_element(obj, tags.last()) {
            Some(e) => front.push(element_snapshot(e, tags.last(), levels)),
            None => front,
        }
    }
}

/// The plain elements read from a data set, in the order in which it
/// enumerates its tags.
pub open spec fn dataset_snapshot(obj: InMemDicomObject, levels: nat) -> Seq<ElementModel>
    decreases levels, 2nat, 0nat,
{
    snapshot_of_tags(obj, dataset_tags(obj), levels)
}

/// Reads one element, found under `tag`, into a plain element. The text of
/// the value is read unless it is never shown; the items of a group are
/// read while `levels` allows it.
pub fn read_element(e: &InMemElement, tag: Tag, levels: u32) -> (element: Element)
    ensures
        element@ == element_snapshot(*e, tag, levels as nat),
    decreases levels, 0nat,
{
    let vr = element_vr(e);
    let binary = text_is(&vr, "OB") || text_is(&vr, "OW") || text_is(&vr, "UN");
    let photometric = tag.group == 0x0028 && tag.element == 0x0004;
    let text = if photometric || !(is_pixel_data(tag) || binary) {
        element_text(e)
    } else {
        None
    };
    let number = element_number(e);
    let mut items: Vec<Vec<Element>> = Vec::new();
    if levels > 0 {
        let nested = element_items(e);
        let mut i: usize = 0;
        while i < nested.len()
            invariant
                i <= nested.len(),
                levels > 0,
                nested@ == element_items_of(*e),
                items@.len() == i,
                forall|k: int|
                    0 <= k < i ==> item_model(#[trigger] items@[k]) == dataset_snapshot(
                        nested@[k],
                        (levels - 1) as nat,
                    ),
            decreases nested.len() - i,
        {
            let item = read_dataset(&nested[i], levels - 1);
            items.push(item);
            i = i + 1;
        }
    }
    let element = Element { tag, vr, text, number, items };
    assert(element@.items =~= element_snapshot(*e, tag, levels as nat).items);
    element
}

/// Reads a data set into plain elements, groups `levels` levels deep: its
/// tags in the order in which it enumerates them, and for each the element
/// found under it.
pub fn read_dataset(obj: &InMemDicomObject, levels: u32) -> (elements: Vec<Element>)
    ensures
        item_model(elements) == dataset_snapshot(*obj, levels as nat),
    decreases levels, 1nat,
{
    let tags = object_tags(obj);
    let mut elements: Vec<Element> = Vec::new();
    let mut i: usize = 0;
    assert(tags@.take(0) =~= Seq::empty());
    assert(item_model(elements) =~= Seq::empty());
    while i < tags.len()
        invariant
            i <= tags.len(),
            tags@ == dataset_tags(*obj),
            item_model(elements) == snapshot_of_tags(*obj, tags@.take(i as int), levels as nat),
        decreases tags.len() - i,
    {
        let tag = tags[i];
        let ghost before = item_model(elements);
        proof {
            assert(tags@.take(i + 1).drop_last() =~= tags@.take(i as int));
            assert(tags@.take(i + 1).last() == tag);
        }
        if let Some(e) = object_element(obj, tag) {
            let element = read_element(e, tag, levels);
            elements.push(element);
            assert(item_model(elements) =~= before.push(element@));
        }
        i = i + 1;
    }
    assert(tags@.take(i as int) =~= tags@);
    elements
}

/// An element with its text kept only where the text of an element is
/// read at all.
pub open spec fn withheld(e: ElementModel) -> ElementModel {
    if reads_text(e.tag, e.vr) {
        e
    } else {
        ElementModel { text: None, ..e }
    }
}

/// The plain elements of the file meta group, each with its text kept only
/// where the text of an element is read at all.
pub open spec fn meta_snapshot(file: FileDicomObject<InMemDicomObject>) -> Seq<ElementModel> {
    Seq::new(file_meta_elements(file).len(), |i: int| withheld(file_meta_elements(file)[i]))
}

/// The plain elements read from a file: those of the file meta group,
/// then those of the data set.
pub open spec fn file_snapshot(file: FileDicomObject<InMemDicomObject>, levels: nat) -> Seq<
    ElementModel,
> {
    meta_snapshot(file) + dataset_snapshot(file_dataset(file), levels)
}

/// Drops the text of an element where the text of an element is not read.
pub fn withhold_text(element: Element) -> (kept: Element)
    ensures
        kept@ == withheld(element@),
{
    let binary = text_is(&element.vr, "OB") || text_is(&element.vr, "OW") || text_is(
        &element.vr,
        "UN",
    );
    let photometric = element.tag.group == 0x0028 && element.tag.element == 0x0004;
    if photometric || !(is_pixel_data(element.tag) || binary) {
        element
    } else {
        let kept = Element {
            tag: element.tag,
            vr: element.vr,
            text: None,
            number: element.number,
            items: element.items,
        };
        assert(kept@.items =~= element@.items);
        kept
    }
}

/// Reads a file into plain elements: the file meta group first, then the
/// data set, groups `levels` levels deep.
pub fn read_file(file: &FileDicomObject<InMemDicomObject>, levels: u32) -> (elements: Vec<Element>)
    ensures
        item_model(elements) == file_snapshot(*file, levels as nat),
{
    let mut meta = meta_elements(file);
    let mut elements: Vec<Element> = Vec::new();
    let ghost all = item_model(meta);
    let ghost mut done: int = 0;
    assert(item_model(elements) =~= meta_snapshot(*file).take(0));
    assert(all.skip(0) =~= all);
    while meta.len() > 0
        invariant
            all == file_meta_elements(*file),
            0 <= done <= all.len(),
            meta@.len() == all.len() - done,
            item_model(meta) == all.skip(done),
            item_model(elements) == meta_snapshot(*file).take(done),
        decreases meta.len(),
    {
        let ghost rest = item_model(meta);
        let ghost whole = meta@;
        let ghost before = item_model(elements);
        let first = meta.remove(0);
        assert(first@ == rest[0]);
        assert forall|j: int| 0 <= j < meta@.len() implies item_model(meta)[j] == all.skip(
            done + 1,
        )[j] by {
            assert(meta@[j] == whole[j + 1]);
            assert(rest[j + 1] == all.skip(done)[j + 1]);
        }
        assert(item_model(meta) =~= all.skip(done + 1));
        let kept = withhold_text(first);
        elements.push(kept);
        proof {
            assert(item_model(elements) =~= before.push(kept@));
            assert(rest[0] == all[done]);
            assert(meta_snapshot(*file)[done] == withheld(all[done]));
            assert(item_model(elements) =~= meta_snapshot(*file).take(done + 1));
            done = done + 1;
        }
    }
    assert(meta_snapshot(*file).take(done) =~= meta_snapshot(*file));
    let mut rest = read_dataset(dataset_of(file), levels);
    let ghost head = item_model(elements);
    let ghost tail = item_model(rest);
    elements.append(&mut rest);
    assert(item_model(elements) =~= head + tail);
    elements
}

} // verus!
