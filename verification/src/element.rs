//! A plain snapshot of the elements of a data set.

use vstd::prelude::*;
use crate::tag::Tag;

verus! {

/// One element of a data set, holding as plain values what the attribute
/// listing and the diagnostics read from it.
#[derive(Debug)]
pub struct Element {
    /// The element's tag.
    pub tag: Tag,
    /// The two-letter code of the value representation.
    pub vr: String,
    /// The value rendered as a single string, where it can be.
    pub text: Option<String>,
    /// The value converted to an integer, where it can be.
    pub number: Option<i32>,
    /// The items of a sequence value, each a list of elements; empty for
    /// any other value.
    pub items: Vec<Vec<Element>>,
}

/// The mathematical model of an [`Element`].
pub ghost struct ElementModel {
    pub tag: Tag,
    pub vr: Seq<char>,
    pub text: Option<Seq<char>>,
    pub number: Option<i32>,
    pub items: Seq<Seq<ElementModel>>,
}

/// The view of an optional string.
pub open spec fn text_model(text: Option<String>) -> Option<Seq<char>> {
    match text {
        Some(t) => Some(t@),
        None => None,
    }
}

/// The model of one element.
pub open spec fn element_model(e: Element) -> ElementModel
    decreases e,
{
    ElementModel {
        tag: e.tag,
        vr: e.vr@,
        text: text_model(e.text),
        number: e.number,
        items: Seq::new(
            e.items@.len(),
            |i: int|
                if 0 <= i < e.items@.len() {
                    item_model(e.items@[i])
                } else {
                    arbitrary()
                },
        ),
    }
}

/// The model of one item: the models of its elements, in order.
pub open spec fn item_model(item: Vec<Element>) -> Seq<ElementModel>
    decreases item,
{
    Seq::new(
        item@.len(),
        |j: int|
            if 0 <= j < item@.len() {
                element_model(item@[j])
            } else {
                arbitrary()
            },
    )
}

impl View for Element {
    type V = ElementModel;

    open spec fn view(&self) -> ElementModel {
        element_model(*self)
    }
}

} // verus!
