//! The attribute tree builder: turns the elements of a data set into the
//! attribute listing, descending into nested groups down to a fixed depth.

use vstd::prelude::*;
use crate::attribute::{
    attributes_model, lemma_attributes_model_push, lemma_group_model,
    AttributeModel, AttributeValue, DicomAttribute, ValueModel,
};
use crate::dictionary::{get_tag_name, tag_name};
use crate::element::{item_model, Element, ElementModel};
use crate::tag::{format_tag_id, pixel_data_tag, tag_text, Tag};
use crate::text::text_is;

verus! {

/// How many levels of nested groups the listing descends into below the
/// level it starts at.
pub const GROUP_LEVELS: u32 = 2;

/// Whether the code names a representation of raw binary data.
pub open spec fn is_binary_vr(vr: Seq<char>) -> bool {
    vr == "OB"@ || vr == "OW"@ || vr == "UN"@
}

/// Whether the code names the representation of a group of items.
pub open spec fn is_group_vr(vr: Seq<char>) -> bool {
    vr == "SQ"@
}

/// The placeholder shown for a value that has no text rendering.
pub open spec fn undisplayable(vr: Seq<char>) -> Seq<char> {
    "[Cannot display value of type "@ + vr + "]"@
}

/// The text shown for an element that is not descended into.
pub open spec fn leaf_text(e: ElementModel) -> Seq<char> {
    if is_binary_vr(e.vr) {
        "[Binary data]"@
    } else {
        match e.text {
            Some(t) => t,
            None => undisplayable(e.vr),
        }
    }
}

/// The value listed for an element met at `depth`, with `levels` levels of
/// groups still to descend into.
pub open spec fn value_of(e: ElementModel, depth: int, levels: nat) -> ValueModel
    decreases levels, 0nat, 0nat,
{
    if e.tag == pixel_data_tag() {
        ValueModel::Text("[PixelData]"@)
    } else if is_group_vr(e.vr) && levels > 0 {
        ValueModel::Group(flatten_items(e.items, depth + 1, (levels - 1) as nat))
    } else {
        ValueModel::Text(leaf_text(e))
    }
}

/// The attribute listed for an element met at `depth`.
pub open spec fn attribute_of(e: ElementModel, depth: int, levels: nat) -> AttributeModel
    decreases levels, 1nat, 0nat,
{
    AttributeModel {
        depth,
        tag: tag_text(e.tag),
        name: tag_name(e.tag),
        vr: e.vr,
        value: value_of(e, depth, levels),
    }
}

/// The attributes listed for the elements of one item: one for each, in
/// the order of the elements.
pub open spec fn attributes_of(elements: Seq<ElementModel>, depth: int, levels: nat) -> Seq<
    AttributeModel,
>
    decreases levels, 2nat, 0nat,
{
    Seq::new(elements.len(), |i: int| attribute_of(elements[i], depth, levels))
}

/// The attributes listed for the items of a group: those of one item after
/// those of the item before it, with nothing to mark where an item ends.
pub open spec fn flatten_items(items: Seq<Seq<ElementModel>>, depth: int, levels: nat) -> Seq<
    AttributeModel,
>
    decreases levels, 3nat, items.len(),
{
    if items.len() == 0 {
        Seq::empty()
    } else {
        flatten_items(items.drop_last(), depth, levels) + attributes_of(
            items.last(),
            depth,
            levels,
        )
    }
}

/// The attribute listing of a data set: its elements at depth 0, with
/// [`GROUP_LEVELS`] levels of groups below them.
pub open spec fn attribute_tree(elements: Seq<ElementModel>) -> Seq<AttributeModel> {
    attributes_of(elements, 0, GROUP_LEVELS as nat)
}

/// The pixel data is always listed as the marker `[PixelData]`, at the
/// depth at which it is met and whatever its representation, a group's
/// included.
pub proof fn lemma_pixel_data_is_marker(e: ElementModel, depth: int, levels: nat)
    requires
        e.tag == pixel_data_tag(),
    ensures
        attribute_of(e, depth, levels).value == ValueModel::Text("[PixelData]"@),
        attribute_of(e, depth, levels).depth == depth,
{
}

/// An element is listed with a group value exactly where it is a group,
/// is not the pixel data, and is met where groups are still descended into;
/// every other element is listed with a text value.
pub proof fn lemma_group_value_exactly_for_groups(e: ElementModel, depth: int, levels: nat)
    ensures
        attribute_of(e, depth, levels).value is Group <==> is_group_vr(e.vr) && e.tag
            != pixel_data_tag() && levels > 0,
        attribute_of(e, depth, levels).value is Text <==> !(is_group_vr(e.vr) && e.tag
            != pixel_data_tag() && levels > 0),
        attribute_of(e, depth, levels).vr == e.vr,
        attribute_of(e, depth, levels).depth == depth,
{
}

/// The listing of a group's items has one attribute for each element of
/// each item.
pub proof fn lemma_flatten_len(items: Seq<Seq<ElementModel>>, m: nat, depth: int, levels: nat)
    requires
        forall|i: int| 0 <= i < items.len() ==> (#[trigger] items[i]).len() == m,
    ensures
        flatten_items(items, depth, levels).len() == items.len() * m,
    decreases items.len(),
{
    if items.len() > 0 {
        let front = items.drop_last();
        lemma_flatten_len(front, m, depth, levels);
        assert(items.last() == items[items.len() - 1]);
        assert(attributes_of(items.last(), depth, levels).len() == m);
        assert(front.len() * m + m == items.len() * m) by (nonlinear_arith)
            requires
                front.len() + 1 == items.len(),
        ;
    } else {
        assert(items.len() * m == 0) by (nonlinear_arith)
            requires
                items.len() == 0,
        ;
    }
}

/// In the listing of a group whose items have `m` elements each, the
/// attribute of element `j` of item `i` stands at position `i * m + j`.
pub proof fn lemma_flatten_index(
    items: Seq<Seq<ElementModel>>,
    m: nat,
    depth: int,
    levels: nat,
    i: int,
    j: int,
)
    requires
        forall|k: int| 0 <= k < items.len() ==> (#[trigger] items[k]).len() == m,
        0 <= i < items.len(),
        0 <= j < m,
    ensures
        0 <= i * m + j < flatten_items(items, depth, levels).len(),
        flatten_items(items, depth, levels)[i * m + j] == attribute_of(items[i][j], depth, levels),
    decreases items.len(),
{
    let front = items.drop_last();
    lemma_flatten_len(items, m, depth, levels);
    lemma_flatten_len(front, m, depth, levels);
    assert(0 <= i * m + j < items.len() * m) by (nonlinear_arith)
        requires
            0 <= i < items.len(),
            0 <= j < m,
    ;
    let listed = flatten_items(items, depth, levels);
    let tail = attributes_of(items.last(), depth, levels);
    assert(listed == flatten_items(front, depth, levels) + tail);
    assert(items.last() == items[items.len() - 1]);
    if i == items.len() - 1 {
        assert(i * m == front.len() * m);
        assert(listed[i * m + j] == tail[j]);
    } else {
        assert(front[i] == items[i]);
        lemma_flatten_index(front, m, depth, levels, i, j);
        assert(i * m + j < front.len() * m) by (nonlinear_arith)
            requires
                0 <= i < front.len(),
                0 <= j < m,
        ;
    }
}

/// A group met at depth 0 with `n` items of `m` elements each, none of them
/// a group, is listed as one attribute at depth 0 that holds exactly
/// `n * m` attributes at depth 1: those of the items' elements in order,
/// each with a text value, and nothing that tells the items apart.
pub proof fn lemma_group_is_flattened(e: ElementModel, n: nat, m: nat)
    requires
        e.tag != pixel_data_tag(),
        is_group_vr(e.vr),
        e.items.len() == n,
        forall|i: int| 0 <= i < n ==> (#[trigger] e.items[i]).len() == m,
        forall|i: int, j: int| 0 <= i < n && 0 <= j < m ==> !is_group_vr(#[trigger] e.items[i][j].vr),
    ensures
        attribute_of(e, 0, GROUP_LEVELS as nat).depth == 0,
        attribute_of(e, 0, GROUP_LEVELS as nat).value == ValueModel::Group(
            flatten_items(e.items, 1, 1),
        ),
        flatten_items(e.items, 1, 1).len() == n * m,
        forall|i: int, j: int|
            #![trigger e.items[i][j]]
            0 <= i < n && 0 <= j < m ==> {
                &&& 0 <= i * m + j < n * m
                &&& flatten_items(e.items, 1, 1)[i * m + j] == attribute_of(e.items[i][j], 1, 1)
                &&& flatten_items(e.items, 1, 1)[i * m + j].depth == 1
                &&& flatten_items(e.items, 1, 1)[i * m + j].value is Text
            },
{
    lemma_flatten_len(e.items, m, 1, 1);
    assert forall|i: int, j: int|
        #![trigger e.items[i][j]]
        0 <= i < n && 0 <= j < m implies {
        &&& 0 <= i * m + j < n * m
        &&& flatten_items(e.items, 1, 1)[i * m + j] == attribute_of(e.items[i][j], 1, 1)
        &&& flatten_items(e.items, 1, 1)[i * m + j].depth == 1
        &&& flatten_items(e.items, 1, 1)[i * m + j].value is Text
    } by {
        lemma_flatten_index(e.items, m, 1, 1, i, j);
    }
}

/// The number of elements in the first `i` items.
pub open spec fn elements_before(items: Seq<Seq<ElementModel>>, i: int) -> int
    decreases i,
{
    if i <= 0 {
        0
    } else {
        elements_before(items, i - 1) + items[i - 1].len()
    }
}

/// The number of elements in the first `i` items depends on those items
/// only.
proof fn lemma_elements_before_front(items: Seq<Seq<ElementModel>>, i: int)
    requires
        0 <= i < items.len(),
    ensures
        elements_before(items.drop_last(), i) == elements_before(items, i),
    decreases i,
{
    if i > 0 {
        lemma_elements_before_front(items, i - 1);
        assert(items.drop_last()[i - 1] == items[i - 1]);
    }
}

/// In the listing of a group's items, whatever their sizes, the attribute
/// of element `j` of item `i` stands after those of all elements of the
/// items before it and of the `j` elements before it in its own item; the
/// listing holds as many attributes as the items hold elements.
pub proof fn lemma_flatten_position(
    items: Seq<Seq<ElementModel>>,
    depth: int,
    levels: nat,
    i: int,
    j: int,
)
    requires
        0 <= i < items.len(),
        0 <= j < items[i].len(),
    ensures
        flatten_items(items, depth, levels).len() == elements_before(items, items.len() as int),
        0 <= elements_before(items, i) + j < flatten_items(items, depth, levels).len(),
        flatten_items(items, depth, levels)[elements_before(items, i) + j] == attribute_of(
            items[i][j],
            depth,
            levels,
        ),
    decreases items.len(),
{
    let front = items.drop_last();
    lemma_flatten_total(items, depth, levels);
    lemma_flatten_total(front, depth, levels);
    lemma_elements_before_front(items, items.len() - 1);
    assert(items.last() == items[items.len() - 1]);
    lemma_elements_before_nonnegative(items, i);
    let n = items.len() as int;
    let listed = flatten_items(items, depth, levels);
    let tail = attributes_of(items.last(), depth, levels);
    assert(listed == flatten_items(front, depth, levels) + tail);
    assert(elements_before(items, n) == elements_before(items, n - 1) + items[n - 1].len());
    assert(elements_before(front, front.len() as int) == elements_before(items, n - 1));
    if i < n - 1 {
        lemma_flatten_position(front, depth, levels, i, j);
        lemma_elements_before_front(items, i);
        assert(front[i] == items[i]);
    } else {
        assert(listed[elements_before(items, i) + j] == tail[j]);
    }
}

/// The listing of a group's items holds as many attributes as the items
/// hold elements.
proof fn lemma_flatten_total(items: Seq<Seq<ElementModel>>, depth: int, levels: nat)
    ensures
        flatten_items(items, depth, levels).len() == elements_before(items, items.len() as int),
    decreases items.len(),
{
    if items.len() > 0 {
        let front = items.drop_last();
        let n = items.len() as int;
        lemma_flatten_total(front, depth, levels);
        lemma_elements_before_front(items, n - 1);
        assert(items.last() == items[n - 1]);
        assert(flatten_items(items, depth, levels).len() == flatten_items(front, depth, levels).len()
            + attributes_of(items.last(), depth, levels).len());
        assert(elements_before(items, n) == elements_before(items, n - 1) + items[n - 1].len());
        assert(elements_before(front, front.len() as int) == elements_before(items, n - 1));
    } else {
        assert(elements_before(items, 0) == 0);
    }
}

/// No negative number of elements comes before an item.
proof fn lemma_elements_before_nonnegative(items: Seq<Seq<ElementModel>>, i: int)
    ensures
        elements_before(items, i) >= 0,
    decreases i,
{
    if i > 0 {
        lemma_elements_before_nonnegative(items, i - 1);
    }
}

/// The pixel data inside a group is listed as the marker too: where a
/// group that is descended into holds the pixel data as element `j` of
/// item `i`, the attribute at that element's place in the group's listing
/// is one level deeper than the group and has the marker `[PixelData]` as
/// its text, whatever the representation of the element.
pub proof fn lemma_pixel_data_inside_group(
    e: ElementModel,
    depth: int,
    levels: nat,
    i: int,
    j: int,
)
    requires
        e.tag != pixel_data_tag(),
        is_group_vr(e.vr),
        levels > 0,
        0 <= i < e.items.len(),
        0 <= j < e.items[i].len(),
        e.items[i][j].tag == pixel_data_tag(),
    ensures
        attribute_of(e, depth, levels).depth == depth,
        attribute_of(e, depth, levels).value == ValueModel::Group(
            flatten_items(e.items, depth + 1, (levels - 1) as nat),
        ),
        0 <= elements_before(e.items, i) + j < flatten_items(
            e.items,
            depth + 1,
            (levels - 1) as nat,
        ).len(),
        flatten_items(e.items, depth + 1, (levels - 1) as nat)[elements_before(e.items, i) + j]
            == (AttributeModel {
            depth: depth + 1,
            tag: tag_text(pixel_data_tag()),
            name: tag_name(pixel_data_tag()),
            vr: e.items[i][j].vr,
            value: ValueModel::Text("[PixelData]"@),
        }),
{
    lemma_flatten_position(e.items, depth + 1, (levels - 1) as nat, i, j);
}

/// Below the last level that is descended into, every element is listed
/// with a text value, groups included.
pub proof fn lemma_last_level_is_text(e: ElementModel, depth: int)
    ensures
        attribute_of(e, depth, 0).value is Text,
{
}

/// A group nested two levels deep is not descended into: listed inside a
/// group that is itself listed inside a group of the root, it has depth 2
/// and the placeholder for its representation as its text.
pub proof fn lemma_nested_group_degrades(outer: ElementModel, inner: ElementModel, deep: ElementModel)
    requires
        outer.tag != pixel_data_tag(),
        inner.tag != pixel_data_tag(),
        deep.tag != pixel_data_tag(),
        is_group_vr(outer.vr),
        is_group_vr(inner.vr),
        is_group_vr(deep.vr),
        deep.text is None,
        outer.items == seq![seq![inner]],
        inner.items == seq![seq![deep]],
    ensures
        attribute_tree(seq![outer]) == seq![
            AttributeModel {
                depth: 0,
                tag: tag_text(outer.tag),
                name: tag_name(outer.tag),
                vr: outer.vr,
                value: ValueModel::Group(
                    seq![
                        AttributeModel {
                            depth: 1,
                            tag: tag_text(inner.tag),
                            name: tag_name(inner.tag),
                            vr: inner.vr,
                            value: ValueModel::Group(
                                seq![
                                    AttributeModel {
                                        depth: 2,
                                        tag: tag_text(deep.tag),
                                        name: tag_name(deep.tag),
                                        vr: deep.vr,
                                        value: ValueModel::Text(
                                            "[Cannot display value of type SQ]"@,
                                        ),
                                    },
                                ],
                            ),
                        },
                    ],
                ),
            },
        ],
{
    reveal_strlit("[Cannot display value of type SQ]");
    reveal_strlit("[Cannot display value of type ");
    reveal_strlit("SQ");
    reveal_strlit("]");
    reveal_strlit("OB");
    reveal_strlit("OW");
    reveal_strlit("UN");
    assert(undisplayable(deep.vr) =~= "[Cannot display value of type SQ]"@);
    assert(!is_binary_vr(deep.vr)) by {
        assert("SQ"@[0] == 'S');
        assert("OB"@[0] == 'O');
        assert("OW"@[0] == 'O');
        assert("UN"@[0] == 'U');
    }
    lemma_single_item(deep, 2, 0);
    lemma_single_item(inner, 1, 1);
    assert(attribute_tree(seq![outer]) =~= seq![attribute_of(outer, 0, 2)]);
}

/// The listing of a group with one item of one element is the attribute of
/// that element.
proof fn lemma_single_item(e: ElementModel, depth: int, levels: nat)
    ensures
        flatten_items(seq![seq![e]], depth, levels) == seq![attribute_of(e, depth, levels)],
{
    let items = seq![seq![e]];
    assert(items.drop_last() =~= Seq::empty());
    assert(flatten_items(items.drop_last(), depth, levels) =~= Seq::empty());
    assert(attributes_of(items.last(), depth, levels) =~= seq![attribute_of(e, depth, levels)]);
    assert(flatten_items(items, depth, levels) =~= seq![attribute_of(e, depth, levels)]);
}

/// Whether `tag` is the tag of the pixel data.
pub fn is_pixel_data(tag: Tag) -> (yes: bool)
    ensures
        yes == (tag == pixel_data_tag()),
{
    tag.group == 0x7FE0 && tag.element == 0x0010
}

/// Renders an element that is not descended into: a fixed marker for binary
/// data, else the text of the value, else a placeholder that names the
/// representation.
pub fn render_leaf(element: &Element) -> (text: String)
    ensures
        text@ == leaf_text(element@),
{
    if text_is(&element.vr, "OB") || text_is(&element.vr, "OW") || text_is(&element.vr, "UN") {
        String::from_str("[Binary data]")
    } else {
        match &element.text {
            Some(t) => t.clone(),
            None => {
                let mut text = String::from_str("[Cannot display value of type ");
                text.append(element.vr.as_str());
                text.append("]");
                text
            },
        }
    }
}

/// Lists one element met at `depth` and appends the attribute to
/// `attributes`. The pixel data is listed as a marker, a group as the
/// flattened listing of its items one level deeper while `levels` allows
/// it, and every other element as [`render_leaf`] shows it.
pub fn process_dicom_element(
    element: &Element,
    depth: i32,
    levels: u32,
    attributes: &mut Vec<DicomAttribute>,
)
    requires
        depth + levels <= i32::MAX,
    ensures
        attributes_model(final(attributes)@) == attributes_model(old(attributes)@).push(
            attribute_of(element@, depth as int, levels as nat),
        ),
    decreases levels, 0nat,
{
    let value = if is_pixel_data(element.tag) {
        AttributeValue::Text(String::from_str("[PixelData]"))
    } else if levels > 0 && text_is(&element.vr, "SQ") {
        let mut nested: Vec<DicomAttribute> = Vec::new();
        let mut i: usize = 0;
        assert(element@.items.take(0) =~= Seq::empty());
        assert(attributes_model(nested@) =~= Seq::empty());
        while i < element.items.len()
            invariant
                i <= element.items.len(),
                levels > 0,
                depth + levels <= i32::MAX,
                element@.items.len() == element.items.len(),
                attributes_model(nested@) == flatten_items(
                    element@.items.take(i as int),
                    depth + 1,
                    (levels - 1) as nat,
                ),
            decreases element.items.len() - i,
        {
            let ghost before = attributes_model(nested@);
            process_sequence_item(&element.items[i], depth + 1, levels - 1, &mut nested);
            proof {
                let items = element@.items;
                assert(items.take(i + 1).drop_last() =~= items.take(i as int));
                assert(items.take(i + 1).last() == item_model(element.items@[i as int]));
            }
            i = i + 1;
        }
        proof {
            assert(element@.items.take(i as int) =~= element@.items);
            lemma_group_model(nested);
        }
        AttributeValue::Group(nested)
    } else {
        AttributeValue::Text(render_leaf(element))
    };
    let attribute = DicomAttribute {
        depth,
        tag: format_tag_id(element.tag),
        name: get_tag_name(element.tag),
        vr: element.vr.clone(),
        value,
    };
    proof {
        lemma_attributes_model_push(attributes@, attribute);
    }
    attributes.push(attribute);
}

/// Lists the elements of one item, all at `depth`, and appends the
/// attributes to `attributes` in the order of the elements.
pub fn process_sequence_item(
    item: &Vec<Element>,
    depth: i32,
    levels: u32,
    attributes: &mut Vec<DicomAttribute>,
)
    requires
        depth + levels <= i32::MAX,
    ensures
        attributes_model(final(attributes)@) == attributes_model(old(attributes)@) + attributes_of(
            item_model(*item),
            depth as int,
            levels as nat,
        ),
    decreases levels, 1nat,
{
    let mut j: usize = 0;
    let ghost target = attributes_of(item_model(*item), depth as int, levels as nat);
    assert(attributes_model(attributes@) =~= attributes_model(old(attributes)@) + target.take(0));
    while j < item.len()
        invariant
            j <= item.len(),
            depth + levels <= i32::MAX,
            target == attributes_of(item_model(*item), depth as int, levels as nat),
            attributes_model(attributes@) == attributes_model(old(attributes)@) + target.take(
                j as int,
            ),
        decreases item.len() - j,
    {
        process_dicom_element(&item[j], depth, levels, attributes);
        proof {
            assert(target[j as int] == attribute_of(item@[j as int]@, depth as int, levels as nat));
            assert(target.take(j + 1) =~= target.take(j as int).push(target[j as int]));
            assert(attributes_model(attributes@) =~= attributes_model(old(attributes)@)
                + target.take(j + 1));
        }
        j = j + 1;
    }
    assert(target.take(j as int) =~= target);
}

/// Lists a whole data set: appends to `attributes` the listing of
/// `elements` at depth 0, with the items of groups at depth 1 and those of
/// groups inside them at depth 2, below which nothing is descended into.
pub fn parse_dicom_element(elements: &Vec<Element>, attributes: &mut Vec<DicomAttribute>)
    ensures
        attributes_model(final(attributes)@) == attributes_model(old(attributes)@)
            + attribute_tree(item_model(*elements)),
{
    process_sequence_item(elements, 0, GROUP_LEVELS, attributes);
}

} // verus!
