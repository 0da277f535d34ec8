//! The attribute listing: one entry per element, nested groups flattened
//! into the entry of the element that holds them.

use vstd::prelude::*;

verus! {

/// The value of a listed attribute.
#[derive(Debug)]
pub enum AttributeValue {
    /// A display-ready rendering of a value that is not descended into.
    Text(String),
    /// The flattened contents of a nested group of attributes.
    Group(Vec<DicomAttribute>),
}

/// One entry of the attribute listing.
#[derive(Debug)]
pub struct DicomAttribute {
    /// Nesting level: 0 at the root of the data set.
    pub depth: i32,
    /// The tag as `(GGGG,EEEE)`.
    pub tag: String,
    /// The dictionary name of the tag, or `Unknown`.
    pub name: String,
    /// The two-letter code of the value representation.
    pub vr: String,
    /// The rendered value.
    pub value: AttributeValue,
}

/// The mathematical model of an [`AttributeValue`].
pub ghost enum ValueModel {
    Text(Seq<char>),
    Group(Seq<AttributeModel>),
}

/// The mathematical model of a [`DicomAttribute`].
pub ghost struct AttributeModel {
    pub depth: int,
    pub tag: Seq<char>,
    pub name: Seq<char>,
    pub vr: Seq<char>,
    pub value: ValueModel,
}

/// The model of one attribute.
pub open spec fn attribute_model(a: DicomAttribute) -> AttributeModel
    decreases a,
{
    AttributeModel {
        depth: a.depth as int,
        tag: a.tag@,
        name: a.name@,
        vr: a.vr@,
        value: value_model(a.value),
    }
}

/// The model of one attribute value.
pub open spec fn value_model(v: AttributeValue) -> ValueModel
    decreases v,
{
    match v {
        AttributeValue::Text(s) => ValueModel::Text(s@),
        AttributeValue::Group(list) => ValueModel::Group(
            Seq::new(
                list@.len(),
                |i: int|
                    if 0 <= i < list@.len() {
                        attribute_model(list@[i])
                    } else {
                        arbitrary()
                    },
            ),
        ),
    }
}

/// The models of a list of attributes, in order.
pub open spec fn attributes_model(list: Seq<DicomAttribute>) -> Seq<AttributeModel> {
    Seq::new(list.len(), |i: int| attribute_model(list[i]))
}

impl View for AttributeValue {
    type V = ValueModel;

    open spec fn view(&self) -> ValueModel {
        value_model(*self)
    }
}

impl View for DicomAttribute {
    type V = AttributeModel;

    open spec fn view(&self) -> AttributeModel {
        attribute_model(*self)
    }
}

/// A group value is modelled by the models of the attributes in it.
pub proof fn lemma_group_model(list: Vec<DicomAttribute>)
    ensures
        value_model(AttributeValue::Group(list)) == ValueModel::Group(attributes_model(list@)),
{
    assert(value_model(AttributeValue::Group(list))->Group_0 =~= attributes_model(list@));
}

/// Appending an attribute to a list appends its model to the list's model.
pub proof fn lemma_attributes_model_push(list: Seq<DicomAttribute>, a: DicomAttribute)
    ensures
        attributes_model(list.push(a)) == attributes_model(list).push(attribute_model(a)),
{
    assert(attributes_model(list.push(a)) =~= attributes_model(list).push(attribute_model(a)));
}

} // verus!
