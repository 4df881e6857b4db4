//! Runtime values of the typed data model, and what it means for a value
//! to conform to a schema.

use vstd::prelude::*;

use crate::schema::{
    EnumSchemaView, FieldShapeView, FieldTypeView, Prim, StructSchemaView, VariantShapeView,
};

verus! {

/// A scalar leaf value, one per kind of the closed taxonomy.
#[derive(PartialEq, Eq, Debug)]
pub enum Scalar {
    Str(String),
    Bool(bool),
    U8(u8),
    I8(i8),
    U16(u16),
    I16(i16),
    U32(u32),
    I32(i32),
    U64(u64),
    I64(i64),
}

/// One occurrence of a field's inner type: a scalar leaf or a nested
/// structured value.
#[derive(PartialEq, Eq, Debug)]
pub enum Item {
    Scalar(Scalar),
    Nested(Box<StructValue>),
}

/// The value of one field, matching the field's shape.
#[derive(PartialEq, Eq, Debug)]
pub enum FieldValue {
    One(Item),
    Opt(Option<Item>),
    Many(Vec<Item>),
}

/// The value of a product type: its field values in declaration order.
#[derive(PartialEq, Eq, Debug)]
pub struct StructValue {
    pub fields: Vec<FieldValue>,
}

/// The payload of the variant an enum value currently holds.
#[derive(PartialEq, Eq, Debug)]
pub enum VariantPayload {
    Unit,
    Named(Vec<FieldValue>),
    Unnamed(FieldValue),
}

/// The value of a sum type: which variant it holds, and that variant's
/// payload.
#[derive(PartialEq, Eq, Debug)]
pub struct EnumValue {
    pub variant: usize,
    pub payload: VariantPayload,
}

// ---------------------------------------------------------------------
// Mathematical forms of the values.
// ---------------------------------------------------------------------

impl Clone for Scalar {
    fn clone(&self) -> (res: Scalar)
        ensures
            scalar_view(res) == scalar_view(*self),
    {
        match self {
            Scalar::Str(t) => Scalar::Str(t.clone()),
            Scalar::Bool(b) => Scalar::Bool(*b),
            Scalar::U8(n) => Scalar::U8(*n),
            Scalar::I8(n) => Scalar::I8(*n),
            Scalar::U16(n) => Scalar::U16(*n),
            Scalar::I16(n) => Scalar::I16(*n),
            Scalar::U32(n) => Scalar::U32(*n),
            Scalar::I32(n) => Scalar::I32(*n),
            Scalar::U64(n) => Scalar::U64(*n),
            Scalar::I64(n) => Scalar::I64(*n),
        }
    }
}

#[verifier::ext_equal]
pub enum ScalarView {
    Str(Seq<char>),
    Bool(bool),
    U8(u8),
    I8(i8),
    U16(u16),
    I16(i16),
    U32(u32),
    I32(i32),
    U64(u64),
    I64(i64),
}

#[verifier::ext_equal]
pub enum ItemView {
    Scalar(ScalarView),
    Nested(StructValueView),
}

#[verifier::ext_equal]
pub enum FieldValueView {
    One(ItemView),
    Opt(Option<ItemView>),
    Many(Seq<ItemView>),
}

#[verifier::ext_equal]
pub struct StructValueView {
    pub fields: Seq<FieldValueView>,
}

#[verifier::ext_equal]
pub enum VariantPayloadView {
    Unit,
    Named(Seq<FieldValueView>),
    Unnamed(FieldValueView),
}

#[verifier::ext_equal]
pub struct EnumValueView {
    pub variant: int,
    pub payload: VariantPayloadView,
}

pub open spec fn scalar_view(s: Scalar) -> ScalarView {
    match s {
        Scalar::Str(t) => ScalarView::Str(t@),
        Scalar::Bool(b) => ScalarView::Bool(b),
        Scalar::U8(n) => ScalarView::U8(n),
        Scalar::I8(n) => ScalarView::I8(n),
        Scalar::U16(n) => ScalarView::U16(n),
        Scalar::I16(n) => ScalarView::I16(n),
        Scalar::U32(n) => ScalarView::U32(n),
        Scalar::I32(n) => ScalarView::I32(n),
        Scalar::U64(n) => ScalarView::U64(n),
        Scalar::I64(n) => ScalarView::I64(n),
    }
}

pub open spec fn item_view(i: Item) -> ItemView
    decreases i,
{
    match i {
        Item::Scalar(s) => ItemView::Scalar(scalar_view(s)),
        Item::Nested(b) => ItemView::Nested(struct_value_view(*b)),
    }
}

pub open spec fn field_value_view(v: FieldValue) -> FieldValueView
    decreases v,
{
    match v {
        FieldValue::One(i) => FieldValueView::One(item_view(i)),
        FieldValue::Opt(o) => FieldValueView::Opt(
            match o {
                Option::None => Option::None,
                Option::Some(i) => Option::Some(item_view(i)),
            },
        ),
        FieldValue::Many(items) => FieldValueView::Many(
            Seq::new(items@.len(), |j: int| if 0 <= j < items@.len() { item_view(items@[j]) } else { arbitrary() }),
        ),
    }
}

pub open spec fn struct_value_view(v: StructValue) -> StructValueView
    decreases v,
{
    StructValueView { fields: Seq::new(v.fields@.len(), |i: int| if 0 <= i < v.fields@.len() { field_value_view(v.fields@[i]) } else { arbitrary() }) }
}

pub open spec fn variant_payload_view(p: VariantPayload) -> VariantPayloadView
    decreases p,
{
    match p {
        VariantPayload::Unit => VariantPayloadView::Unit,
        VariantPayload::Named(fvs) => VariantPayloadView::Named(
            Seq::new(fvs@.len(), |i: int| if 0 <= i < fvs@.len() { field_value_view(fvs@[i]) } else { arbitrary() }),
        ),
        VariantPayload::Unnamed(fv) => VariantPayloadView::Unnamed(field_value_view(fv)),
    }
}

pub open spec fn enum_value_view(v: EnumValue) -> EnumValueView {
    EnumValueView { variant: v.variant as int, payload: variant_payload_view(v.payload) }
}

// ---------------------------------------------------------------------
// Conformance of a value to a schema.
// ---------------------------------------------------------------------

/// The scalar value is of the kind the descriptor declares.
pub open spec fn scalar_fits(s: ScalarView, p: Prim) -> bool {
    match (s, p) {
        (ScalarView::Str(_), Prim::PStr) => true,
        (ScalarView::Bool(_), Prim::PBool) => true,
        (ScalarView::U8(_), Prim::PU8) => true,
        (ScalarView::I8(_), Prim::PI8) => true,
        (ScalarView::U16(_), Prim::PU16) => true,
        (ScalarView::I16(_), Prim::PI16) => true,
        (ScalarView::U32(_), Prim::PU32) => true,
        (ScalarView::I32(_), Prim::PI32) => true,
        (ScalarView::U64(_), Prim::PU64) => true,
        (ScalarView::I64(_), Prim::PI64) => true,
        _ => false,
    }
}

pub open spec fn item_conforms(i: ItemView, t: FieldTypeView) -> bool
    decreases i,
{
    match (i, t) {
        (ItemView::Scalar(s), FieldTypeView::Scalar(p)) => scalar_fits(s, p),
        (ItemView::Nested(v), FieldTypeView::Nested(s)) => struct_conforms(v, s),
        _ => false,
    }
}

pub open spec fn field_value_conforms(v: FieldValueView, sh: FieldShapeView) -> bool
    decreases v,
{
    match (v, sh) {
        (FieldValueView::One(i), FieldShapeView::Plain(t)) => item_conforms(i, t),
        (FieldValueView::Opt(o), FieldShapeView::Optional(t)) => match o {
            Option::None => true,
            Option::Some(i) => item_conforms(i, t),
        },
        (FieldValueView::Many(items), FieldShapeView::Repeated(t)) => forall|j: int|
            0 <= j < items.len() ==> item_conforms(#[trigger] items[j], t),
        _ => false,
    }
}

pub open spec fn struct_conforms(v: StructValueView, s: StructSchemaView) -> bool
    decreases v,
{
    &&& v.fields.len() == s.fields.len()
    &&& forall|i: int|
        0 <= i < v.fields.len() ==> field_value_conforms(#[trigger] v.fields[i], s.fields[i].shape)
}

/// The enum value holds a declared variant and its payload matches that
/// variant's shape.
pub open spec fn enum_conforms(v: EnumValueView, s: EnumSchemaView) -> bool {
    &&& 0 <= v.variant < s.variants.len()
    &&& match (v.payload, s.variants[v.variant].shape) {
        (VariantPayloadView::Unit, VariantShapeView::Unit(_)) => true,
        (VariantPayloadView::Named(fvs), VariantShapeView::Named(fds)) => {
            &&& fvs.len() == fds.len()
            &&& forall|i: int|
                0 <= i < fvs.len() ==> field_value_conforms(#[trigger] fvs[i], fds[i].shape)
        },
        (VariantPayloadView::Unnamed(fv), VariantShapeView::Unnamed(fsh)) => field_value_conforms(
            fv,
            fsh,
        ),
        _ => false,
    }
}

} // verus!
