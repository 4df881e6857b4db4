//! Type descriptors: the data-driven schema that tells the engine, for
//! each field or enum variant, which XML shape it takes on the wire.

use vstd::prelude::*;

verus! {

/// The closed taxonomy of scalar leaf kinds.
#[derive(Clone, Copy, PartialEq, Eq, Debug, Structural)]
pub enum Prim {
    PStr,
    PBool,
    PU8,
    PI8,
    PU16,
    PI16,
    PU32,
    PI32,
    PU64,
    PI64,
}

/// What one field holds: a scalar leaf or a nested structured value.
pub enum FieldType {
    Scalar(Prim),
    Nested(Box<StructSchema>),
}

/// How often the field's inner type occurs: exactly once, at most once
/// (absent means no element at all), or zero or more repeated elements.
pub enum FieldShape {
    Plain(FieldType),
    Optional(FieldType),
    Repeated(FieldType),
}

/// Describes one field of a product type: its declared identifier, an
/// optional rename override, whether it is carried as an attribute or as
/// the containing element's character data, and its shape.
pub struct FieldDesc {
    pub label: String,
    pub renamed: Option<String>,
    pub is_attribute: bool,
    pub is_text_content: bool,
    pub shape: FieldShape,
}

/// Describes a product type: its default element name, its default
/// namespace prefix, and its fields in declaration order.
pub struct StructSchema {
    pub name: String,
    pub default_namespace: Option<String>,
    pub fields: Vec<FieldDesc>,
}

/// The shape of one enum variant: a unit variant with its discriminant
/// ordinal, a struct-like variant with named fields, or a tuple-like
/// variant with a single unnamed field.
pub enum VariantShape {
    Unit(u32),
    Named(Vec<FieldDesc>),
    Unnamed(FieldShape),
}

/// Describes one enum variant: its declared identifier, an optional
/// rename override, and its shape.
pub struct VariantDesc {
    pub label: String,
    pub renamed: Option<String>,
    pub shape: VariantShape,
}

/// Describes a sum type: its default element name, its default namespace
/// prefix, and its variants in declaration order.
pub struct EnumSchema {
    pub name: String,
    pub default_namespace: Option<String>,
    pub variants: Vec<VariantDesc>,
}

// ---------------------------------------------------------------------
// Mathematical forms of the descriptors.
// ---------------------------------------------------------------------

#[verifier::ext_equal]
pub enum FieldTypeView {
    Scalar(Prim),
    Nested(StructSchemaView),
}

#[verifier::ext_equal]
pub enum FieldShapeView {
    Plain(FieldTypeView),
    Optional(FieldTypeView),
    Repeated(FieldTypeView),
}

#[verifier::ext_equal]
pub struct FieldDescView {
    pub label: Seq<char>,
    pub renamed: Option<Seq<char>>,
    pub is_attribute: bool,
    pub is_text_content: bool,
    pub shape: FieldShapeView,
}

#[verifier::ext_equal]
pub struct StructSchemaView {
    pub name: Seq<char>,
    pub default_namespace: Option<Seq<char>>,
    pub fields: Seq<FieldDescView>,
}

#[verifier::ext_equal]
pub enum VariantShapeView {
    Unit(u32),
    Named(Seq<FieldDescView>),
    Unnamed(FieldShapeView),
}

#[verifier::ext_equal]
pub struct VariantDescView {
    pub label: Seq<char>,
    pub renamed: Option<Seq<char>>,
    pub shape: VariantShapeView,
}

#[verifier::ext_equal]
pub struct EnumSchemaView {
    pub name: Seq<char>,
    pub default_namespace: Option<Seq<char>>,
    pub variants: Seq<VariantDescView>,
}

pub open spec fn opt_string_view(o: Option<String>) -> Option<Seq<char>> {
    match o {
        Option::None => Option::None,
        Option::Some(s) => Option::Some(s@),
    }
}

pub open spec fn field_type_view(t: FieldType) -> FieldTypeView
    decreases t,
{
    match t {
        FieldType::Scalar(p) => FieldTypeView::Scalar(p),
        FieldType::Nested(b) => FieldTypeView::Nested(struct_schema_view(*b)),
    }
}

pub open spec fn field_shape_view(sh: FieldShape) -> FieldShapeView
    decreases sh,
{
    match sh {
        FieldShape::Plain(t) => FieldShapeView::Plain(field_type_view(t)),
        FieldShape::Optional(t) => FieldShapeView::Optional(field_type_view(t)),
        FieldShape::Repeated(t) => FieldShapeView::Repeated(field_type_view(t)),
    }
}

pub open spec fn field_desc_view(d: FieldDesc) -> FieldDescView
    decreases d,
{
    FieldDescView {
        label: d.label@,
        renamed: opt_string_view(d.renamed),
        is_attribute: d.is_attribute,
        is_text_content: d.is_text_content,
        shape: field_shape_view(d.shape),
    }
}

pub open spec fn struct_schema_view(s: StructSchema) -> StructSchemaView
    decreases s,
{
    StructSchemaView {
        name: s.name@,
        default_namespace: opt_string_view(s.default_namespace),
        fields: Seq::new(s.fields@.len(), |i: int| if 0 <= i < s.fields@.len() { field_desc_view(s.fields@[i]) } else { arbitrary() }),
    }
}

pub open spec fn variant_shape_view(sh: VariantShape) -> VariantShapeView
    decreases sh,
{
    match sh {
        VariantShape::Unit(ord) => VariantShapeView::Unit(ord),
        VariantShape::Named(fds) => VariantShapeView::Named(
            Seq::new(fds@.len(), |i: int| if 0 <= i < fds@.len() { field_desc_view(fds@[i]) } else { arbitrary() }),
        ),
        VariantShape::Unnamed(fsh) => VariantShapeView::Unnamed(field_shape_view(fsh)),
    }
}

pub open spec fn variant_desc_view(d: VariantDesc) -> VariantDescView
    decreases d,
{
    VariantDescView {
        label: d.label@,
        renamed: opt_string_view(d.renamed),
        shape: variant_shape_view(d.shape),
    }
}

pub open spec fn enum_schema_view(s: EnumSchema) -> EnumSchemaView {
    EnumSchemaView {
        name: s.name@,
        default_namespace: opt_string_view(s.default_namespace),
        variants: Seq::new(s.variants@.len(), |i: int| if 0 <= i < s.variants@.len() { variant_desc_view(s.variants@[i]) } else { arbitrary() }),
    }
}

// ---------------------------------------------------------------------
// Schema well-formedness.
// ---------------------------------------------------------------------

/// A field descriptor is well formed when it is carried in at most one
/// special way (attribute or text content, never both), and a
/// text-content field is a plain scalar leaf: its value is the character
/// data of the containing element, so it can be neither nested, optional
/// nor repeated.
pub open spec fn field_desc_wf(d: FieldDescView) -> bool
    decreases d,
{
    &&& !(d.is_attribute && d.is_text_content)
    &&& d.is_text_content ==> (d.shape matches FieldShapeView::Plain(FieldTypeView::Scalar(_)))
    &&& field_shape_wf(d.shape)
}

pub open spec fn field_shape_wf(sh: FieldShapeView) -> bool
    decreases sh,
{
    match sh {
        FieldShapeView::Plain(t) => field_type_wf(t),
        FieldShapeView::Optional(t) => field_type_wf(t),
        FieldShapeView::Repeated(t) => field_type_wf(t),
    }
}

pub open spec fn field_type_wf(t: FieldTypeView) -> bool
    decreases t,
{
    match t {
        FieldTypeView::Scalar(_) => true,
        FieldTypeView::Nested(s) => struct_schema_wf(s),
    }
}

pub open spec fn struct_schema_wf(s: StructSchemaView) -> bool
    decreases s,
{
    forall|i: int| 0 <= i < s.fields.len() ==> field_desc_wf(#[trigger] s.fields[i])
}

pub open spec fn variant_desc_wf(d: VariantDescView) -> bool
    decreases d,
{
    match d.shape {
        VariantShapeView::Unit(_) => true,
        VariantShapeView::Named(fds) => forall|i: int|
            0 <= i < fds.len() ==> field_desc_wf(#[trigger] fds[i]),
        VariantShapeView::Unnamed(fsh) => field_shape_wf(fsh),
    }
}

pub open spec fn enum_schema_wf(s: EnumSchemaView) -> bool {
    forall|i: int| 0 <= i < s.variants.len() ==> variant_desc_wf(#[trigger] s.variants[i])
}

} // verus!
