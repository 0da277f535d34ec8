//! The diagnostic aggregator: summary figures of a decoded data set.

use vstd::prelude::*;
use crate::element::{item_model, Element, ElementModel};
use crate::report::{DebugModel, DicomDebugInfo, Dimensions};
use crate::tag::{pixel_data_tag, Tag, META_GROUP};
use crate::text::text_is;
use crate::tree::is_group_vr;

verus! {

/// The tag of the number of rows, `(0028,0010)`.
pub open spec fn rows_tag() -> Tag {
    Tag { group: 0x0028, element: 0x0010 }
}

/// The tag of the number of columns, `(0028,0011)`.
pub open spec fn columns_tag() -> Tag {
    Tag { group: 0x0028, element: 0x0011 }
}

/// The tag of the bits allocated for each sample, `(0028,0100)`.
pub open spec fn bits_allocated_tag() -> Tag {
    Tag { group: 0x0028, element: 0x0100 }
}

/// The tag of the samples per pixel, `(0028,0002)`.
pub open spec fn samples_per_pixel_tag() -> Tag {
    Tag { group: 0x0028, element: 0x0002 }
}

/// The tag of the photometric interpretation, `(0028,0004)`.
pub open spec fn photometric_tag() -> Tag {
    Tag { group: 0x0028, element: 0x0004 }
}

/// The tag of the pixel representation, `(0028,0103)`.
pub open spec fn pixel_representation_tag() -> Tag {
    Tag { group: 0x0028, element: 0x0103 }
}

/// The tag of the number of frames, `(0028,0008)`.
pub open spec fn number_of_frames_tag() -> Tag {
    Tag { group: 0x0028, element: 0x0008 }
}

/// Whether some element of `elements` has the tag `tag`.
pub open spec fn has_tag(elements: Seq<ElementModel>, tag: Tag) -> bool {
    exists|i: int| 0 <= i < elements.len() && #[trigger] elements[i].tag == tag
}

/// The first element of `elements` with the tag `tag`, if there is one.
pub open spec fn lookup(elements: Seq<ElementModel>, tag: Tag) -> Option<ElementModel>
    decreases elements.len(),
{
    if elements.len() == 0 {
        None
    } else if elements[0].tag == tag {
        Some(elements[0])
    } else {
        lookup(elements.skip(1), tag)
    }
}

/// The number of elements of `elements` that are groups.
pub open spec fn count_groups(elements: Seq<ElementModel>) -> nat {
    elements.filter(|e: ElementModel| is_group_vr(e.vr)).len()
}

/// Whether some element of `elements` belongs to the file meta group.
pub open spec fn has_meta_group(elements: Seq<ElementModel>) -> bool {
    exists|i: int| 0 <= i < elements.len() && #[trigger] elements[i].tag.group == META_GROUP
}

/// The integer read from the element with the tag `tag`: what `before`
/// holds where no element has the tag, else that element's number, or
/// nothing where its value is no number.
pub open spec fn number_at(elements: Seq<ElementModel>, tag: Tag, before: Option<i32>) -> Option<
    i32,
> {
    match lookup(elements, tag) {
        Some(e) => e.number,
        None => before,
    }
}

/// The text read from the element with the tag `tag`, with `before` kept
/// where no element has the tag.
pub open spec fn text_at(elements: Seq<ElementModel>, tag: Tag, before: Option<Seq<char>>) -> Option<
    Seq<char>,
> {
    match lookup(elements, tag) {
        Some(e) => e.text,
        None => before,
    }
}

/// The size of the image: known only where the elements for rows and for
/// columns are both there and both hold a number.
pub open spec fn dimensions_of(elements: Seq<ElementModel>) -> Option<Dimensions> {
    match (lookup(elements, rows_tag()), lookup(elements, columns_tag())) {
        (Some(r), Some(c)) => match (r.number, c.number) {
            (Some(rows), Some(columns)) => Some(Dimensions { rows, columns }),
            _ => None,
        },
        _ => None,
    }
}

/// The report after the elements at the root of a data set have been
/// summarised into `before`. Each figure is taken on its own: one that
/// cannot be had leaves the others as they are.
pub open spec fn summarize(before: DebugModel, elements: Seq<ElementModel>) -> DebugModel {
    DebugModel {
        attribute_count: elements.len(),
        sequence_count: count_groups(elements),
        meta_info_present: has_meta_group(elements),
        has_pixel_data: before.has_pixel_data || lookup(elements, pixel_data_tag()) is Some,
        pixel_data_vr: match lookup(elements, pixel_data_tag()) {
            Some(e) => Some(e.vr),
            None => before.pixel_data_vr,
        },
        image_dimensions: match dimensions_of(elements) {
            Some(d) => Some(d),
            None => before.image_dimensions,
        },
        number_of_frames: number_at(elements, number_of_frames_tag(), before.number_of_frames),
        bits_allocated: number_at(elements, bits_allocated_tag(), before.bits_allocated),
        samples_per_pixel: number_at(elements, samples_per_pixel_tag(), before.samples_per_pixel),
        photometric_interpretation: text_at(
            elements,
            photometric_tag(),
            before.photometric_interpretation,
        ),
        pixel_representation: number_at(
            elements,
            pixel_representation_tag(),
            before.pixel_representation,
        ),
        ..before
    }
}

/// The first element with the tag `tag`, if there is one.
pub fn find_element(elements: &Vec<Element>, tag: Tag) -> (found: Option<&Element>)
    ensures
        match found {
            Some(e) => lookup(item_model(*elements), tag) == Some(e@),
            None => lookup(item_model(*elements), tag) is None,
        },
{
    let mut i: usize = 0;
    let ghost all = item_model(*elements);
    assert(all.skip(0) =~= all);
    while i < elements.len()
        invariant
            i <= elements.len(),
            all == item_model(*elements),
            lookup(all, tag) == lookup(all.skip(i as int), tag),
        decreases elements.len() - i,
    {
        if elements[i].tag == tag {
            assert(all.skip(i as int)[0] == elements[i as int]@);
            return Some(&elements[i]);
        }
        assert(all.skip(i as int).skip(1) =~= all.skip(i + 1));
        i = i + 1;
    }
    None
}

/// Counting the groups among the elements goes element by element.
proof fn lemma_count_groups_step(elements: Seq<ElementModel>, i: int)
    requires
        0 <= i < elements.len(),
    ensures
        count_groups(elements.take(i + 1)) == count_groups(elements.take(i)) + (if is_group_vr(
            elements[i].vr,
        ) {
            1nat
        } else {
            0nat
        }),
{
    let pred = |e: ElementModel| is_group_vr(e.vr);
    let longer = elements.take(i + 1);
    assert(longer.drop_last() =~= elements.take(i));
    assert(longer.last() == elements[i]);
    reveal(Seq::filter);
    assert(longer.filter(pred) == if pred(longer.last()) {
        longer.drop_last().filter(pred).push(longer.last())
    } else {
        longer.drop_last().filter(pred)
    });
}

/// Summarises the elements at the root of a decoded data set into the
/// report: how many there are, how many are groups, whether the file meta
/// group is among them, and what the elements that describe the image say.
/// Each figure is taken on its own; what the file itself showed and the
/// recorded failures stay as they are.
pub fn update_debug_info_from_dicom(elements: &Vec<Element>, debug_info: &mut DicomDebugInfo)
    ensures
        final(debug_info)@ == summarize(old(debug_info)@, item_model(*elements)),
        old(debug_info)@.well_formed() && old(debug_info)@.parse_error is None ==> final(debug_info)@.well_formed(),
{
    let ghost all = item_model(*elements);
    let mut groups: usize = 0;
    let mut meta = false;
    let mut i: usize = 0;
    assert(all.take(0) =~= Seq::empty());
    assert(count_groups(all.take(0)) == 0) by {
        reveal(Seq::filter);
    }
    while i < elements.len()
        invariant
            i <= elements.len(),
            all == item_model(*elements),
            groups <= i,
            groups == count_groups(all.take(i as int)),
            meta == has_meta_group(all.take(i as int)),
        decreases elements.len() - i,
    {
        proof {
            lemma_count_groups_step(all, i as int);
            assert(all[i as int] == elements[i as int]@);
            assert(all.take(i + 1)[i as int] == all[i as int]);
            if all[i as int].tag.group == META_GROUP {
                assert(all.take(i + 1)[i as int].tag.group == META_GROUP);
            }
            if has_meta_group(all.take(i + 1)) {
                let k = choose|k: int|
                    0 <= k < all.take(i + 1).len() && #[trigger] all.take(i + 1)[k].tag.group
                        == META_GROUP;
                if k < i {
                    assert(all.take(i as int)[k].tag.group == META_GROUP);
                }
            }
            if has_meta_group(all.take(i as int)) {
                let k = choose|k: int|
                    0 <= k < all.take(i as int).len() && #[trigger] all.take(i as int)[k].tag.group
                        == META_GROUP;
                assert(all.take(i + 1)[k].tag.group == META_GROUP);
            }
        }
        if text_is(&elements[i].vr, "SQ") {
            groups = groups + 1;
        }
        if elements[i].tag.group == META_GROUP {
            meta = true;
        }
        i = i + 1;
    }
    assert(all.take(i as int) =~= all);
    debug_info.sequence_count = groups;
    debug_info.meta_info_present = meta;
    debug_info.attribute_count = elements.len();

    if let Some(pixels) = find_element(elements, Tag { group: 0x7FE0, element: 0x0010 }) {
        debug_info.has_pixel_data = true;
        debug_info.pixel_data_vr = Some(pixels.vr.clone());
    }
    let rows = find_element(elements, Tag { group: 0x0028, element: 0x0010 });
    let columns = find_element(elements, Tag { group: 0x0028, element: 0x0011 });
    if let (Some(r), Some(c)) = (rows, columns) {
        if let (Some(rows), Some(columns)) = (r.number, c.number) {
            debug_info.image_dimensions = Some(Dimensions { rows, columns });
        }
    }
    if let Some(bits) = find_element(elements, Tag { group: 0x0028, element: 0x0100 }) {
        debug_info.bits_allocated = bits.number;
    }
    if let Some(samples) = find_element(elements, Tag { group: 0x0028, element: 0x0002 }) {
        debug_info.samples_per_pixel = samples.number;
    }
    if let Some(photometric) = find_element(elements, Tag { group: 0x0028, element: 0x0004 }) {
        debug_info.photometric_interpretation = match &photometric.text {
            Some(t) => Some(t.clone()),
            None => None,
        };
    }
    if let Some(sign) = find_element(elements, Tag { group: 0x0028, element: 0x0103 }) {
        debug_info.pixel_representation = sign.number;
    }
    if let Some(frames) = find_element(elements, Tag { group: 0x0028, element: 0x0008 }) {
        debug_info.number_of_frames = frames.number;
    }
}

/// For a report that holds no image size yet: once the data set is
/// summarised the size is known exactly where the elements for rows and
/// for columns are both there and both hold a number, and then it is those
/// two numbers; where either is missing or holds no number, the size stays
/// unknown.
pub proof fn lemma_dimensions_jointly(before: DebugModel, elements: Seq<ElementModel>)
    requires
        before.image_dimensions is None,
    ensures
        summarize(before, elements).image_dimensions is Some <==> {
            &&& lookup(elements, rows_tag()) matches Some(r)
            &&& lookup(elements, columns_tag()) matches Some(c)
            &&& r.number is Some
            &&& c.number is Some
        },
        summarize(before, elements).image_dimensions matches Some(d) ==> {
            &&& Some(d.rows) == lookup(elements, rows_tag())->Some_0.number
            &&& Some(d.columns) == lookup(elements, columns_tag())->Some_0.number
        },
{
}

/// An element with the tag is found exactly where some element has it, and
/// the one found is the first such.
pub proof fn lemma_lookup_finds_first(elements: Seq<ElementModel>, tag: Tag)
    ensures
        lookup(elements, tag) is Some <==> has_tag(elements, tag),
        lookup(elements, tag) matches Some(e) ==> exists|i: int|
            0 <= i < elements.len() && #[trigger] elements[i] == e && e.tag == tag && forall|k: int|
                0 <= k < i ==> (#[trigger] elements[k]).tag != tag,
    decreases elements.len(),
{
    if elements.len() > 0 {
        if elements[0].tag == tag {
            assert(elements[0] == elements[0]);
        } else {
            let rest = elements.skip(1);
            lemma_lookup_finds_first(rest, tag);
            if has_tag(elements, tag) {
                let i = choose|i: int| 0 <= i < elements.len() && #[trigger] elements[i].tag == tag;
                assert(rest[i - 1].tag == tag);
            }
            if lookup(rest, tag) is Some {
                let e = lookup(rest, tag)->Some_0;
                let i = choose|i: int|
                    0 <= i < rest.len() && #[trigger] rest[i] == e && e.tag == tag && forall|k: int|
                        0 <= k < i ==> (#[trigger] rest[k]).tag != tag;
                assert(elements[i + 1] == e);
                assert forall|k: int| 0 <= k < i + 1 implies (#[trigger] elements[k]).tag != tag by {
                    if k > 0 {
                        assert(rest[k - 1].tag != tag);
                    }
                }
            }
        }
    }
}

/// Summarising a data set touches neither what the file itself showed nor
/// the recorded failures, and a report without a decoding failure stays
/// well formed.
pub proof fn lemma_summarize_keeps_rest(before: DebugModel, elements: Seq<ElementModel>)
    ensures
        summarize(before, elements).same_file_fields(before),
        summarize(before, elements).parse_error == before.parse_error,
        summarize(before, elements).pixel_decode_error == before.pixel_decode_error,
        summarize(before, elements).pixel_convert_error == before.pixel_convert_error,
        summarize(before, elements).pixel_encode_error == before.pixel_encode_error,
        before.well_formed() && before.parse_error is None ==> summarize(
            before,
            elements,
        ).well_formed(),
{
}

} // verus!
