//! Serialization: what event stream each value produces, stated as spec
//! functions, and the executable encoders proved against them.

use vstd::prelude::*;
use vstd::string::StringExecFns;

use crate::errors::XmlError;
use crate::events::{Event, EventView, events_wf, never_overclosed, open_depth, stream_view};
use crate::schema::{
    FieldDesc, FieldDescView, FieldShape, FieldShapeView, FieldType, FieldTypeView, StructSchema,
    StructSchemaView, VariantShape, VariantShapeView, EnumSchema, EnumSchemaView, opt_string_view,
    field_desc_view, field_shape_view, field_type_view, struct_schema_view, enum_schema_view,
    variant_desc_view, variant_shape_view, VariantDescView, field_desc_wf, field_type_wf,
    struct_schema_wf, enum_schema_wf, variant_desc_wf,
};
use crate::session::Serializer;
use crate::text::{fmt_scalar, fmt_u, format_scalar, fmt_u64};
use crate::value::{
    EnumValue, EnumValueView, FieldValue, FieldValueView, Item, ItemView, Scalar, StructValue,
    StructValueView, VariantPayload, VariantPayloadView, enum_value_view, field_value_view,
    item_view, scalar_view, struct_value_view, variant_payload_view, enum_conforms,
    field_value_conforms, item_conforms, struct_conforms,
};

verus! {

// ---------------------------------------------------------------------
// The naming resolver.
// ---------------------------------------------------------------------

/// The wire-visible label: the rename override if present, else the
/// declared identifier, prefixed by the default namespace if one is
/// declared.
pub open spec fn resolved_name(
    label: Seq<char>,
    renamed: Option<Seq<char>>,
    ns: Option<Seq<char>>,
) -> Seq<char> {
    let base = match renamed {
        Option::Some(r) => r,
        Option::None => label,
    };
    match ns {
        Option::None => base,
        Option::Some(p) => p + seq![':'] + base,
    }
}

/// The name a primitive leaf or a delegated value actually uses: the
/// session's pending override if set, else the given default.
pub open spec fn override_or(pending: Option<Seq<char>>, default: Seq<char>) -> Seq<char> {
    match pending {
        Option::Some(n) => n,
        Option::None => default,
    }
}

// ---------------------------------------------------------------------
// The event stream each value produces.
// ---------------------------------------------------------------------

/// A primitive leaf's events: its text, wrapped in a start and end
/// element unless the wrapping is suppressed.
pub open spec fn prim_events(text: Seq<char>, name: Seq<char>, skip: bool) -> Seq<EventView> {
    if skip {
        seq![EventView::Characters { text }]
    } else {
        seq![
            EventView::StartElement { name },
            EventView::Characters { text },
            EventView::EndElement,
        ]
    }
}

/// One occurrence of a field's inner type, wrapped in an element with the
/// given name: a scalar becomes text inside the element, a nested struct
/// emits its own wrapping pair under that name.
pub open spec fn encode_item(it: ItemView, t: FieldTypeView, name: Seq<char>) -> Seq<EventView>
    decreases it, 0int,
{
    match it {
        ItemView::Scalar(s) => prim_events(fmt_scalar(s), name, false),
        ItemView::Nested(v) => match t {
            FieldTypeView::Nested(ss) => encode_struct(v, ss, name, false),
            FieldTypeView::Scalar(_) => Seq::empty(),
        },
    }
}

/// A whole struct: its wrapping pair (unless suppressed) around its
/// fields' events in declaration order.
pub open spec fn encode_struct(
    v: StructValueView,
    s: StructSchemaView,
    name: Seq<char>,
    skip: bool,
) -> Seq<EventView>
    decreases v, 1int,
{
    let body = encode_fields(v.fields, s.fields, s.default_namespace, 0);
    if skip {
        body
    } else {
        seq![EventView::StartElement { name }] + body + seq![EventView::EndElement]
    }
}

/// The fields from position `i` on, each encoded by its own rule, in
/// order.
pub open spec fn encode_fields(
    fvs: Seq<FieldValueView>,
    fds: Seq<FieldDescView>,
    ns: Option<Seq<char>>,
    i: int,
) -> Seq<EventView>
    decreases fvs, fds.len() - i,
{
    if i < 0 || i >= fds.len() || fvs.len() != fds.len() {
        Seq::empty()
    } else {
        encode_field(fvs[i], fds[i], ns) + encode_fields(fvs, fds, ns, i + 1)
    }
}

/// One field: attributes leave the element body empty, a text-content
/// field writes bare character data, an absent optional writes nothing, a
/// repeated field writes one element per item, and anything else is one
/// element under the field's resolved label.
pub open spec fn encode_field(
    fv: FieldValueView,
    d: FieldDescView,
    ns: Option<Seq<char>>,
) -> Seq<EventView>
    decreases fv, 0int,
{
    if d.is_attribute {
        Seq::empty()
    } else if d.is_text_content {
        match fv {
            FieldValueView::One(ItemView::Scalar(s)) => seq![
                EventView::Characters { text: fmt_scalar(s) },
            ],
            _ => Seq::empty(),
        }
    } else {
        let name = resolved_name(d.label, d.renamed, ns);
        match (fv, d.shape) {
            (FieldValueView::One(it), FieldShapeView::Plain(t)) => encode_item(it, t, name),
            (FieldValueView::Opt(o), FieldShapeView::Optional(t)) => match o {
                Option::None => Seq::empty(),
                Option::Some(it) => encode_item(it, t, name),
            },
            (FieldValueView::Many(items), FieldShapeView::Repeated(t)) => encode_items(
                items,
                t,
                name,
                0,
            ),
            _ => Seq::empty(),
        }
    }
}

/// The items of a repeated field from position `j` on: one element per
/// item, every element under the same label.
pub open spec fn encode_items(
    items: Seq<ItemView>,
    t: FieldTypeView,
    name: Seq<char>,
    j: int,
) -> Seq<EventView>
    decreases items, items.len() - j,
{
    if j < 0 || j >= items.len() {
        Seq::empty()
    } else {
        encode_item(items[j], t, name) + encode_items(items, t, name, j + 1)
    }
}

// ---------------------------------------------------------------------
// Enum encoding.
// ---------------------------------------------------------------------

/// One occurrence of a tuple-like variant's inner type: scalars become an
/// element labeled with the variant's label holding the canonical text;
/// a nested struct is wrapped in one element labeled with the variant's
/// label and delegates transparently inside (no doubled wrapping pair).
pub open spec fn encode_unnamed_item(
    it: ItemView,
    t: FieldTypeView,
    vlabel: Seq<char>,
) -> Seq<EventView> {
    match it {
        ItemView::Scalar(s) => prim_events(fmt_scalar(s), vlabel, false),
        ItemView::Nested(v) => match t {
            FieldTypeView::Nested(ss) => seq![EventView::StartElement { name: vlabel }]
                + encode_struct(v, ss, vlabel, true) + seq![EventView::EndElement],
            FieldTypeView::Scalar(_) => Seq::empty(),
        },
    }
}

pub open spec fn encode_unnamed_items(
    items: Seq<ItemView>,
    t: FieldTypeView,
    vlabel: Seq<char>,
    j: int,
) -> Seq<EventView>
    decreases items.len() - j,
{
    if j < 0 || j >= items.len() {
        Seq::empty()
    } else {
        encode_unnamed_item(items[j], t, vlabel) + encode_unnamed_items(items, t, vlabel, j + 1)
    }
}

/// The element body the enum value's current variant produces: a unit
/// variant is its discriminant ordinal as bare decimal text; a
/// struct-like variant encodes its fields exactly as a struct's body; a
/// tuple-like variant follows the rules above, with an absent optional
/// producing nothing and a repeated field one element per item.
pub open spec fn encode_variant_body(
    p: VariantPayloadView,
    d: VariantDescView,
    ns: Option<Seq<char>>,
) -> Seq<EventView> {
    match (p, d.shape) {
        (VariantPayloadView::Unit, VariantShapeView::Unit(ord)) => seq![
            EventView::Characters { text: fmt_u(ord as nat) },
        ],
        (VariantPayloadView::Named(fvs), VariantShapeView::Named(fds)) => encode_fields(
            fvs,
            fds,
            ns,
            0,
        ),
        (VariantPayloadView::Unnamed(fv), VariantShapeView::Unnamed(sh)) => {
            let vl = resolved_name(d.label, d.renamed, ns);
            match (fv, sh) {
                (FieldValueView::One(it), FieldShapeView::Plain(t)) => encode_unnamed_item(
                    it,
                    t,
                    vl,
                ),
                (FieldValueView::Opt(o), FieldShapeView::Optional(t)) => match o {
                    Option::None => Seq::empty(),
                    Option::Some(it) => encode_unnamed_item(it, t, vl),
                },
                (FieldValueView::Many(items), FieldShapeView::Repeated(t)) =>
                    encode_unnamed_items(items, t, vl, 0),
                _ => Seq::empty(),
            }
        },
        _ => Seq::empty(),
    }
}

/// A whole enum value: its wrapping pair (unless suppressed) around the
/// current variant's body.
pub open spec fn encode_enum(
    v: EnumValueView,
    s: EnumSchemaView,
    name: Seq<char>,
    skip: bool,
) -> Seq<EventView> {
    if 0 <= v.variant < s.variants.len() {
        let body = encode_variant_body(v.payload, s.variants[v.variant], s.default_namespace);
        if skip {
            body
        } else {
            seq![EventView::StartElement { name }] + body + seq![EventView::EndElement]
        }
    } else {
        Seq::empty()
    }
}

// ---------------------------------------------------------------------
// Executable naming resolver.
// ---------------------------------------------------------------------

/// Prefix a base name with the default namespace, if one is declared.
fn resolve_plain(base: &str, ns: &Option<String>) -> (r: String)
    ensures
        r@ == resolved_name(base@, Option::None, opt_string_view(*ns)),
{
    match ns {
        Option::None => base.to_owned(),
        Option::Some(p) => {
            let mut out = p.clone();
            out.append(":");
            out.append(base);
            proof {
                reveal_strlit(":");
                assert(out@ =~= p@ + seq![':'] + base@);
            }
            out
        },
    }
}

/// The wire-visible label of a field or variant.
pub(crate) fn resolve_label_exec(label: &String, renamed: &Option<String>, ns: &Option<String>) -> (r: String)
    ensures
        r@ == resolved_name(label@, opt_string_view(*renamed), opt_string_view(*ns)),
{
    match renamed {
        Option::Some(rn) => resolve_plain(rn.as_str(), ns),
        Option::None => resolve_plain(label.as_str(), ns),
    }
}

// ---------------------------------------------------------------------
// Executable encoders.
// ---------------------------------------------------------------------

/// Serialize one scalar leaf through the session: resolve the element
/// name (a pending override wins over the default), emit the start tag
/// unless suppressed, always the canonical text, then the end tag.
pub fn serialize_primitives(value: &Scalar, default_name: &str, writer: &mut Serializer) -> (r:
    Result<(), XmlError>)
    ensures
        r is Ok,
        final(writer).written() == old(writer).written() + prim_events(
            fmt_scalar(scalar_view(*value)),
            override_or(old(writer).pending_view(), default_name@),
            old(writer).skip_start_end,
        ),
        final(writer).pending_start_name is None,
        final(writer).skip_start_end == old(writer).skip_start_end,
{
    let name = match writer.take_start_event_name() {
        Option::Some(n) => n,
        Option::None => default_name.to_owned(),
    };
    let skip = writer.skip_start_end();
    if !skip {
        writer.write(Event::StartElement { name });
    }
    writer.write(Event::Characters { text: format_scalar(value) });
    if !skip {
        writer.write(Event::EndElement);
    }
    proof {
        assert(final(writer).written() =~= old(writer).written() + prim_events(
            fmt_scalar(scalar_view(*value)),
            override_or(old(writer).pending_view(), default_name@),
            old(writer).skip_start_end,
        ));
    }
    Result::Ok(())
}

/// One occurrence of a field's inner type, as one element under `name`.
fn serialize_item(it: &Item, t: &FieldType, name: String, writer: &mut Serializer) -> (r: Result<
    (),
    XmlError,
>)
    requires
        item_conforms(item_view(*it), field_type_view(*t)),
        field_type_wf(field_type_view(*t)),
        old(writer).pending_start_name is None,
        old(writer).skip_start_end == false,
    ensures
        r is Ok,
        final(writer).written() == old(writer).written() + encode_item(
            item_view(*it),
            field_type_view(*t),
            name@,
        ),
        final(writer).pending_start_name is None,
        final(writer).skip_start_end == false,
    decreases *it,
{
    match it {
        Item::Scalar(sc) => {
            writer.write(Event::StartElement { name });
            writer.write(Event::Characters { text: format_scalar(sc) });
            writer.write(Event::EndElement);
            proof {
                assert(final(writer).written() =~= old(writer).written() + encode_item(
                    item_view(*it),
                    field_type_view(*t),
                    name@,
                ));
            }
            Result::Ok(())
        },
        Item::Nested(b) => match t {
            FieldType::Nested(ss) => {
                writer.set_start_event_name(Option::Some(name));
                writer.set_skip_start_end(false);
                let r = serialize_struct(b, ss, writer);
                r
            },
            FieldType::Scalar(_) => {
                proof {
                    assert(false);
                }
                Result::Ok(())
            },
        },
    }
}

/// One field of a struct body (also used for the named fields of a
/// struct-like enum variant).
fn serialize_field(fv: &FieldValue, d: &FieldDesc, ns: &Option<String>, writer: &mut Serializer)
    -> (r: Result<(), XmlError>)
    requires
        field_value_conforms(field_value_view(*fv), field_desc_view(*d).shape),
        field_desc_wf(field_desc_view(*d)),
        old(writer).pending_start_name is None,
        old(writer).skip_start_end == false,
    ensures
        r is Ok,
        final(writer).written() == old(writer).written() + encode_field(
            field_value_view(*fv),
            field_desc_view(*d),
            opt_string_view(*ns),
        ),
        final(writer).pending_start_name is None,
        final(writer).skip_start_end == false,
    decreases *fv,
{
    if d.is_attribute {
        return Result::Ok(());
    }
    if d.is_text_content {
        match fv {
            FieldValue::One(Item::Scalar(sc)) => {
                writer.write(Event::Characters { text: format_scalar(sc) });
                proof {
                    assert(final(writer).written() =~= old(writer).written() + encode_field(
                        field_value_view(*fv),
                        field_desc_view(*d),
                        opt_string_view(*ns),
                    ));
                }
                return Result::Ok(());
            },
            _ => {
                proof {
                    assert(false);
                }
                return Result::Ok(());
            },
        }
    }
    let name = resolve_label_exec(&d.label, &d.renamed, ns);
    let ghost dv = field_desc_view(*d);
    let ghost nsv = opt_string_view(*ns);
    match (&d.shape, fv) {
        (FieldShape::Plain(t), FieldValue::One(it)) => serialize_item(it, t, name, writer),
        (FieldShape::Optional(t), FieldValue::Opt(o)) => match o {
            Option::None => Result::Ok(()),
            Option::Some(it) => serialize_item(it, t, name, writer),
        },
        (FieldShape::Repeated(t), FieldValue::Many(items)) => {
            let ghost iv = match field_value_view(*fv) {
                FieldValueView::Many(s) => s,
                _ => arbitrary(),
            };
            let ghost tv = field_type_view(*t);
            let ghost base = writer.written();
            let mut j: usize = 0;
            while j < items.len()
                invariant
                    *fv == FieldValue::Many(*items),
                    j <= items@.len(),
                    iv.len() == items@.len(),
                    forall|k: int| 0 <= k < iv.len() ==> #[trigger] iv[k] == item_view(items@[k]),
                    forall|k: int| 0 <= k < iv.len() ==> item_conforms(#[trigger] iv[k], tv),
                    field_type_wf(tv),
                    tv == field_type_view(*t),
                    name@ == resolved_name(dv.label, dv.renamed, nsv),
                    writer.written() + encode_items(iv, tv, name@, j as int) == base
                        + encode_items(iv, tv, name@, 0),
                    writer.pending_start_name is None,
                    writer.skip_start_end == false,
                decreases items@.len() - j,
            {
                proof {
                    assert(decreases_to!(*fv => fv->Many_0));
                    assert(fv->Many_0 == *items);
                    assert(decreases_to!(*items => items@));
                    assert(decreases_to!(items@ => items@[j as int]));
                }
                let _ok = serialize_item(&items[j], t, name.clone(), writer);
                proof {
                    assert(encode_items(iv, tv, name@, j as int) == encode_item(
                        iv[j as int],
                        tv,
                        name@,
                    ) + encode_items(iv, tv, name@, j + 1));
                    assert(writer.written() + encode_items(iv, tv, name@, j + 1) =~= base
                        + encode_items(iv, tv, name@, 0));
                }
                j = j + 1;
            }
            proof {
                assert(encode_items(iv, tv, name@, iv.len() as int) =~= Seq::<EventView>::empty());
                assert(writer.written() =~= writer.written() + encode_items(
                    iv,
                    tv,
                    name@,
                    iv.len() as int,
                ));
                assert(writer.written() =~= base + encode_items(iv, tv, name@, 0));
            }
            Result::Ok(())
        },
        _ => {
            proof {
                assert(false);
            }
            Result::Ok(())
        },
    }
}

/// Serialize a struct: resolve its element name (a pending override wins
/// over the schema's default), emit the wrapping pair unless suppressed,
/// and its fields in declaration order between them.
pub fn serialize_struct(v: &StructValue, s: &StructSchema, writer: &mut Serializer) -> (r: Result<
    (),
    XmlError,
>)
    requires
        struct_conforms(struct_value_view(*v), struct_schema_view(*s)),
        struct_schema_wf(struct_schema_view(*s)),
    ensures
        r is Ok,
        final(writer).written() == old(writer).written() + encode_struct(
            struct_value_view(*v),
            struct_schema_view(*s),
            override_or(
                old(writer).pending_view(),
                resolved_name(s.name@, Option::None, opt_string_view(s.default_namespace)),
            ),
            old(writer).skip_start_end,
        ),
        final(writer).pending_start_name is None,
        final(writer).skip_start_end == false,
    decreases *v,
{
    let ghost vv = struct_value_view(*v);
    let ghost sv = struct_schema_view(*s);
    let name = match writer.take_start_event_name() {
        Option::Some(n) => n,
        Option::None => resolve_plain(s.name.as_str(), &s.default_namespace),
    };
    let skip = writer.skip_start_end();
    writer.set_skip_start_end(false);
    if !skip {
        writer.write(Event::StartElement { name });
    }
    let ghost base = writer.written();
    let mut i: usize = 0;
    while i < v.fields.len()
        invariant
            i <= v.fields@.len(),
            vv == struct_value_view(*v),
            sv == struct_schema_view(*s),
            struct_conforms(vv, sv),
            struct_schema_wf(sv),
            v.fields@.len() == vv.fields.len(),
            writer.written() + encode_fields(vv.fields, sv.fields, sv.default_namespace, i as int)
                == base + encode_fields(vv.fields, sv.fields, sv.default_namespace, 0),
            writer.pending_start_name is None,
            writer.skip_start_end == false,
        decreases v.fields@.len() - i,
    {
        proof {
            assert(vv.fields[i as int] == field_value_view(v.fields@[i as int]));
            assert(sv.fields[i as int] == field_desc_view(s.fields@[i as int]));
            assert(field_value_conforms(vv.fields[i as int], sv.fields[i as int].shape));
            assert(field_desc_wf(sv.fields[i as int]));
        }
        let _ok = serialize_field(&v.fields[i], &s.fields[i], &s.default_namespace, writer);
        proof {
            assert(encode_fields(vv.fields, sv.fields, sv.default_namespace, i as int)
                == encode_field(vv.fields[i as int], sv.fields[i as int], sv.default_namespace)
                + encode_fields(vv.fields, sv.fields, sv.default_namespace, i + 1));
            assert(writer.written() + encode_fields(
                vv.fields,
                sv.fields,
                sv.default_namespace,
                i + 1,
            ) =~= base + encode_fields(vv.fields, sv.fields, sv.default_namespace, 0));
        }
        i = i + 1;
    }
    proof {
        assert(encode_fields(vv.fields, sv.fields, sv.default_namespace, vv.fields.len() as int)
            =~= Seq::<EventView>::empty());
        assert(writer.written() =~= base + encode_fields(
            vv.fields,
            sv.fields,
            sv.default_namespace,
            0,
        ));
    }
    if !skip {
        writer.write(Event::EndElement);
    }
    proof {
        assert(final(writer).written() =~= old(writer).written() + encode_struct(
            vv,
            sv,
            override_or(
                old(writer).pending_view(),
                resolved_name(s.name@, Option::None, opt_string_view(s.default_namespace)),
            ),
            old(writer).skip_start_end,
        ));
    }
    Result::Ok(())
}

/// One occurrence of a tuple-like variant's inner type, labeled with the
/// variant's resolved label; a nested struct delegates transparently
/// inside the one wrapping pair written here.
fn serialize_unnamed_item(it: &Item, t: &FieldType, vlabel: String, writer: &mut Serializer) -> (r:
    Result<(), XmlError>)
    requires
        item_conforms(item_view(*it), field_type_view(*t)),
        field_type_wf(field_type_view(*t)),
        old(writer).pending_start_name is None,
        old(writer).skip_start_end == false,
    ensures
        r is Ok,
        final(writer).written() == old(writer).written() + encode_unnamed_item(
            item_view(*it),
            field_type_view(*t),
            vlabel@,
        ),
        final(writer).pending_start_name is None,
        final(writer).skip_start_end == false,
{
    match it {
        Item::Scalar(sc) => {
            writer.write(Event::StartElement { name: vlabel });
            writer.write(Event::Characters { text: format_scalar(sc) });
            writer.write(Event::EndElement);
            proof {
                assert(final(writer).written() =~= old(writer).written() + encode_unnamed_item(
                    item_view(*it),
                    field_type_view(*t),
                    vlabel@,
                ));
            }
            Result::Ok(())
        },
        Item::Nested(b) => match t {
            FieldType::Nested(ss) => {
                writer.write(Event::StartElement { name: vlabel });
                writer.set_start_event_name(Option::None);
                writer.set_skip_start_end(true);
                let _ok = serialize_struct(b, ss, writer);
                writer.write(Event::EndElement);
                proof {
                    assert(final(writer).written() =~= old(writer).written()
                        + encode_unnamed_item(item_view(*it), field_type_view(*t), vlabel@));
                }
                Result::Ok(())
            },
            FieldType::Scalar(_) => {
                proof {
                    assert(false);
                }
                Result::Ok(())
            },
        },
    }
}

/// Serialize an enum value: resolve its element name (a pending override
/// wins over the schema's default), emit the wrapping pair unless
/// suppressed, and between them exactly the current variant's body — a
/// unit variant's ordinal as bare text, a struct-like variant's fields,
/// or a tuple-like variant's labeled elements.
pub fn serialize_enum(v: &EnumValue, s: &EnumSchema, writer: &mut Serializer) -> (r: Result<
    (),
    XmlError,
>)
    requires
        enum_conforms(enum_value_view(*v), enum_schema_view(*s)),
        enum_schema_wf(enum_schema_view(*s)),
    ensures
        r is Ok,
        final(writer).written() == old(writer).written() + encode_enum(
            enum_value_view(*v),
            enum_schema_view(*s),
            override_or(
                old(writer).pending_view(),
                resolved_name(s.name@, Option::None, opt_string_view(s.default_namespace)),
            ),
            old(writer).skip_start_end,
        ),
        final(writer).pending_start_name is None,
        final(writer).skip_start_end == false,
{
    let ghost ev = enum_value_view(*v);
    let ghost sv = enum_schema_view(*s);
    let name = match writer.take_start_event_name() {
        Option::Some(n) => n,
        Option::None => resolve_plain(s.name.as_str(), &s.default_namespace),
    };
    let skip = writer.skip_start_end();
    writer.set_skip_start_end(false);
    if !skip {
        writer.write(Event::StartElement { name });
    }
    let ghost base = writer.written();
    let d = &s.variants[v.variant];
    proof {
        assert(variant_desc_view(s.variants@[v.variant as int]) == sv.variants[ev.variant]);
        assert(variant_desc_wf(sv.variants[ev.variant]));
    }
    match (&v.payload, &d.shape) {
        (VariantPayload::Unit, VariantShape::Unit(ord)) => {
            writer.write(Event::Characters { text: fmt_u64(*ord as u64) });
        },
        (VariantPayload::Named(fvs), VariantShape::Named(fds)) => {
            let ghost pfvs = match variant_payload_view(v.payload) {
                VariantPayloadView::Named(x) => x,
                _ => arbitrary(),
            };
            let ghost pfds = match variant_shape_view(d.shape) {
                VariantShapeView::Named(x) => x,
                _ => arbitrary(),
            };
            let ghost nsv = opt_string_view(s.default_namespace);
            let mut i: usize = 0;
            while i < fvs.len()
                invariant
                    v.payload == VariantPayload::Named(*fvs),
                    d.shape == VariantShape::Named(*fds),
                    pfvs == match variant_payload_view(v.payload) {
                        VariantPayloadView::Named(x) => x,
                        _ => arbitrary(),
                    },
                    pfds == match variant_shape_view(d.shape) {
                        VariantShapeView::Named(x) => x,
                        _ => arbitrary(),
                    },
                    nsv == opt_string_view(s.default_namespace),
                    i <= fvs@.len(),
                    pfvs.len() == fvs@.len(),
                    pfds.len() == fds@.len(),
                    fvs@.len() == fds@.len(),
                    forall|k: int|
                        0 <= k < pfvs.len() ==> field_value_conforms(
                            #[trigger] pfvs[k],
                            pfds[k].shape,
                        ),
                    forall|k: int| 0 <= k < pfds.len() ==> field_desc_wf(#[trigger] pfds[k]),
                    writer.written() + encode_fields(pfvs, pfds, nsv, i as int) == base
                        + encode_fields(pfvs, pfds, nsv, 0),
                    writer.pending_start_name is None,
                    writer.skip_start_end == false,
                decreases fvs@.len() - i,
            {
                proof {
                    assert(pfvs[i as int] == field_value_view(fvs@[i as int]));
                    assert(pfds[i as int] == field_desc_view(fds@[i as int]));
                }
                let _ok = serialize_field(&fvs[i], &fds[i], &s.default_namespace, writer);
                proof {
                    assert(encode_fields(pfvs, pfds, nsv, i as int) == encode_field(
                        pfvs[i as int],
                        pfds[i as int],
                        nsv,
                    ) + encode_fields(pfvs, pfds, nsv, i + 1));
                    assert(writer.written() + encode_fields(pfvs, pfds, nsv, i + 1) =~= base
                        + encode_fields(pfvs, pfds, nsv, 0));
                }
                i = i + 1;
            }
            proof {
                assert(encode_fields(pfvs, pfds, nsv, pfds.len() as int) =~= Seq::<
                    EventView,
                >::empty());
                assert(writer.written() =~= base + encode_fields(pfvs, pfds, nsv, 0));
            }
        },
        (VariantPayload::Unnamed(fv), VariantShape::Unnamed(sh)) => {
            let vl = resolve_label_exec(&d.label, &d.renamed, &s.default_namespace);
            match (sh, fv) {
                (FieldShape::Plain(t), FieldValue::One(it)) => {
                    let _ok = serialize_unnamed_item(it, t, vl, writer);
                },
                (FieldShape::Optional(t), FieldValue::Opt(o)) => match o {
                    Option::None => {},
                    Option::Some(it) => {
                        let _ok = serialize_unnamed_item(it, t, vl, writer);
                    },
                },
                (FieldShape::Repeated(t), FieldValue::Many(items)) => {
                    let ghost iv = match field_value_view(*fv) {
                        FieldValueView::Many(x) => x,
                        _ => arbitrary(),
                    };
                    let ghost tv = field_type_view(*t);
                    let ghost inner_base = writer.written();
                    let mut j: usize = 0;
                    while j < items.len()
                        invariant
                            *fv == FieldValue::Many(*items),
                            iv == match field_value_view(*fv) {
                                FieldValueView::Many(x) => x,
                                _ => arbitrary(),
                            },
                            j <= items@.len(),
                            iv.len() == items@.len(),
                            forall|k: int|
                                0 <= k < iv.len() ==> #[trigger] iv[k] == item_view(items@[k]),
                            forall|k: int| 0 <= k < iv.len() ==> item_conforms(
                                #[trigger] iv[k],
                                tv,
                            ),
                            field_type_wf(tv),
                            tv == field_type_view(*t),
                            vl@ == resolved_name(
                                variant_desc_view(*d).label,
                                variant_desc_view(*d).renamed,
                                opt_string_view(s.default_namespace),
                            ),
                            writer.written() + encode_unnamed_items(iv, tv, vl@, j as int)
                                == inner_base + encode_unnamed_items(iv, tv, vl@, 0),
                            writer.pending_start_name is None,
                            writer.skip_start_end == false,
                        decreases items@.len() - j,
                    {
                        let _ok = serialize_unnamed_item(&items[j], t, vl.clone(), writer);
                        proof {
                            assert(encode_unnamed_items(iv, tv, vl@, j as int)
                                == encode_unnamed_item(iv[j as int], tv, vl@)
                                + encode_unnamed_items(iv, tv, vl@, j + 1));
                            assert(writer.written() + encode_unnamed_items(iv, tv, vl@, j + 1)
                                =~= inner_base + encode_unnamed_items(iv, tv, vl@, 0));
                        }
                        j = j + 1;
                    }
                    proof {
                        assert(encode_unnamed_items(iv, tv, vl@, iv.len() as int) =~= Seq::<
                            EventView,
                        >::empty());
                        assert(writer.written() =~= inner_base + encode_unnamed_items(
                            iv,
                            tv,
                            vl@,
                            0,
                        ));
                    }
                },
                _ => {
                    proof {
                        assert(false);
                    }
                },
            }
        },
        _ => {
            proof {
                assert(false);
            }
        },
    }
    if !skip {
        writer.write(Event::EndElement);
    }
    proof {
        assert(final(writer).written() =~= old(writer).written() + encode_enum(
            ev,
            sv,
            override_or(
                old(writer).pending_view(),
                resolved_name(s.name@, Option::None, opt_string_view(s.default_namespace)),
            ),
            old(writer).skip_start_end,
        ));
    }
    Result::Ok(())
}

// ---------------------------------------------------------------------
// Whole-value entry points.
// ---------------------------------------------------------------------

/// Serialize a struct as a complete event stream of its own.
pub fn struct_to_events(v: &StructValue, s: &StructSchema) -> (r: Vec<Event>)
    requires
        struct_conforms(struct_value_view(*v), struct_schema_view(*s)),
        struct_schema_wf(struct_schema_view(*s)),
    ensures
        stream_view(r@) == encode_struct(
            struct_value_view(*v),
            struct_schema_view(*s),
            resolved_name(s.name@, Option::None, opt_string_view(s.default_namespace)),
            false,
        ),
{
    let mut w = Serializer::new();
    let _ok = serialize_struct(v, s, &mut w);
    proof {
        assert(w.written() =~= encode_struct(
            struct_value_view(*v),
            struct_schema_view(*s),
            resolved_name(s.name@, Option::None, opt_string_view(s.default_namespace)),
            false,
        ));
    }
    w.into_events()
}

/// Serialize an enum value as a complete event stream of its own.
pub fn enum_to_events(v: &EnumValue, s: &EnumSchema) -> (r: Vec<Event>)
    requires
        enum_conforms(enum_value_view(*v), enum_schema_view(*s)),
        enum_schema_wf(enum_schema_view(*s)),
    ensures
        stream_view(r@) == encode_enum(
            enum_value_view(*v),
            enum_schema_view(*s),
            resolved_name(s.name@, Option::None, opt_string_view(s.default_namespace)),
            false,
        ),
{
    let mut w = Serializer::new();
    let _ok = serialize_enum(v, s, &mut w);
    proof {
        assert(w.written() =~= encode_enum(
            enum_value_view(*v),
            enum_schema_view(*s),
            resolved_name(s.name@, Option::None, opt_string_view(s.default_namespace)),
            false,
        ));
    }
    w.into_events()
}

// ---------------------------------------------------------------------
// Every encoded stream is well formed.
// ---------------------------------------------------------------------

pub proof fn lemma_open_depth_concat(a: Seq<EventView>, b: Seq<EventView>)
    ensures
        open_depth(a + b) == open_depth(a) + open_depth(b),
    decreases b.len(),
{
    if b.len() == 0 {
        assert(a + b =~= a);
    } else {
        lemma_open_depth_concat(a, b.drop_last());
        assert((a + b).drop_last() =~= a + b.drop_last());
        assert((a + b).last() == b.last());
    }
}

/// A stream that never closes early keeps a nonnegative depth at every
/// prefix.
pub proof fn lemma_never_overclosed_nonneg(s: Seq<EventView>, i: int)
    requires
        never_overclosed(s),
        0 <= i <= s.len(),
    ensures
        open_depth(s.take(i)) >= 0,
    decreases i,
{
    if i > 0 {
        lemma_never_overclosed_nonneg(s, i - 1);
        assert(s.take(i).drop_last() =~= s.take(i - 1));
        assert(s.take(i).last() == s[i - 1]);
    }
}

pub proof fn lemma_events_wf_empty()
    ensures
        events_wf(Seq::<EventView>::empty()),
{
}

pub proof fn lemma_events_wf_concat(a: Seq<EventView>, b: Seq<EventView>)
    requires
        events_wf(a),
        events_wf(b),
    ensures
        events_wf(a + b),
{
    lemma_open_depth_concat(a, b);
    assert forall|i: int|
        0 <= i < (a + b).len() && (#[trigger] (a + b)[i]) is EndElement implies open_depth(
        (a + b).take(i),
    ) > 0 by {
        if i < a.len() {
            assert((a + b).take(i) =~= a.take(i));
            assert(a[i] is EndElement);
        } else {
            assert((a + b).take(i) =~= a + b.take(i - a.len()));
            lemma_open_depth_concat(a, b.take(i - a.len()));
            assert(b[i - a.len()] is EndElement);
        }
    }
}

pub proof fn lemma_events_wf_wrap(body: Seq<EventView>, name: Seq<char>)
    requires
        events_wf(body),
    ensures
        events_wf(
            seq![EventView::StartElement { name }] + body + seq![EventView::EndElement],
        ),
{
    let h = seq![EventView::StartElement { name }];
    let t = seq![EventView::EndElement];
    let s = h + body + t;
    assert(h.drop_last() =~= Seq::<EventView>::empty());
    assert(open_depth(Seq::<EventView>::empty()) == 0);
    assert(open_depth(h) == 1);
    assert(t.drop_last() =~= Seq::<EventView>::empty());
    assert(open_depth(t) == -1);
    lemma_open_depth_concat(h, body);
    lemma_open_depth_concat(h + body, t);
    assert(open_depth(s) == 0);
    assert forall|i: int|
        0 <= i < s.len() && (#[trigger] s[i]) is EndElement implies open_depth(s.take(i))
        > 0 by {
        if i < 1 + body.len() {
            assert(s.take(i) =~= h + body.take(i - 1));
            lemma_open_depth_concat(h, body.take(i - 1));
            if body[i - 1] is EndElement {
                assert(open_depth(body.take(i - 1)) > 0);
            } else {
                lemma_never_overclosed_nonneg(body, i - 1);
            }
        } else {
            assert(s.take(i) =~= h + body);
            lemma_open_depth_concat(h, body);
        }
    }
}

pub proof fn lemma_prim_events_wf(text: Seq<char>, name: Seq<char>, skip: bool)
    ensures
        events_wf(prim_events(text, name, skip)),
{
    if skip {
        let s = prim_events(text, name, skip);
        assert(s.drop_last() =~= Seq::<EventView>::empty());
        assert(open_depth(Seq::<EventView>::empty()) == 0);
    } else {
        let c = seq![EventView::Characters { text }];
        assert(c.drop_last() =~= Seq::<EventView>::empty());
        assert(open_depth(Seq::<EventView>::empty()) == 0);
        assert(events_wf(c));
        lemma_events_wf_wrap(c, name);
        assert(seq![EventView::StartElement { name }] + c + seq![EventView::EndElement]
            =~= prim_events(text, name, false));
    }
}

pub proof fn lemma_encode_item_wf(it: ItemView, t: FieldTypeView, name: Seq<char>)
    ensures
        events_wf(encode_item(it, t, name)),
    decreases it, 2int,
{
    match it {
        ItemView::Scalar(s) => lemma_prim_events_wf(fmt_scalar(s), name, false),
        ItemView::Nested(v) => match t {
            FieldTypeView::Nested(ss) => lemma_encode_struct_wf(v, ss, name, false),
            FieldTypeView::Scalar(_) => lemma_events_wf_empty(),
        },
    }
}

pub proof fn lemma_encode_struct_wf(
    v: StructValueView,
    s: StructSchemaView,
    name: Seq<char>,
    skip: bool,
)
    ensures
        events_wf(encode_struct(v, s, name, skip)),
    decreases v, 3int,
{
    lemma_encode_fields_wf(v.fields, s.fields, s.default_namespace, 0);
    if !skip {
        lemma_events_wf_wrap(encode_fields(v.fields, s.fields, s.default_namespace, 0), name);
    }
}

pub proof fn lemma_encode_fields_wf(
    fvs: Seq<FieldValueView>,
    fds: Seq<FieldDescView>,
    ns: Option<Seq<char>>,
    i: int,
)
    ensures
        events_wf(encode_fields(fvs, fds, ns, i)),
    decreases fvs, fds.len() - i,
{
    if i < 0 || i >= fds.len() || fvs.len() != fds.len() {
        lemma_events_wf_empty();
    } else {
        lemma_encode_field_wf(fvs[i], fds[i], ns);
        lemma_encode_fields_wf(fvs, fds, ns, i + 1);
        lemma_events_wf_concat(encode_field(fvs[i], fds[i], ns), encode_fields(fvs, fds, ns, i + 1));
    }
}

pub proof fn lemma_encode_field_wf(fv: FieldValueView, d: FieldDescView, ns: Option<Seq<char>>)
    ensures
        events_wf(encode_field(fv, d, ns)),
    decreases fv, 2int,
{
    if d.is_attribute {
        lemma_events_wf_empty();
    } else if d.is_text_content {
        match fv {
            FieldValueView::One(ItemView::Scalar(s)) => {
                let c = seq![EventView::Characters { text: fmt_scalar(s) }];
                assert(c.drop_last() =~= Seq::<EventView>::empty());
                assert(open_depth(Seq::<EventView>::empty()) == 0);
            },
            _ => lemma_events_wf_empty(),
        }
    } else {
        let name = resolved_name(d.label, d.renamed, ns);
        match (fv, d.shape) {
            (FieldValueView::One(it), FieldShapeView::Plain(t)) => lemma_encode_item_wf(
                it,
                t,
                name,
            ),
            (FieldValueView::Opt(o), FieldShapeView::Optional(t)) => match o {
                Option::None => lemma_events_wf_empty(),
                Option::Some(it) => lemma_encode_item_wf(it, t, name),
            },
            (FieldValueView::Many(items), FieldShapeView::Repeated(t)) => lemma_encode_items_wf(
                items,
                t,
                name,
                0,
            ),
            _ => lemma_events_wf_empty(),
        }
    }
}

pub proof fn lemma_encode_items_wf(
    items: Seq<ItemView>,
    t: FieldTypeView,
    name: Seq<char>,
    j: int,
)
    ensures
        events_wf(encode_items(items, t, name, j)),
    decreases items, items.len() - j,
{
    if j < 0 || j >= items.len() {
        lemma_events_wf_empty();
    } else {
        lemma_encode_item_wf(items[j], t, name);
        lemma_encode_items_wf(items, t, name, j + 1);
        lemma_events_wf_concat(encode_item(items[j], t, name), encode_items(items, t, name, j + 1));
    }
}

pub proof fn lemma_encode_unnamed_item_wf(it: ItemView, t: FieldTypeView, vlabel: Seq<char>)
    ensures
        events_wf(encode_unnamed_item(it, t, vlabel)),
{
    match it {
        ItemView::Scalar(s) => lemma_prim_events_wf(fmt_scalar(s), vlabel, false),
        ItemView::Nested(v) => match t {
            FieldTypeView::Nested(ss) => {
                lemma_encode_struct_wf(v, ss, vlabel, true);
                lemma_events_wf_wrap(encode_struct(v, ss, vlabel, true), vlabel);
            },
            FieldTypeView::Scalar(_) => lemma_events_wf_empty(),
        },
    }
}

pub proof fn lemma_encode_unnamed_items_wf(
    items: Seq<ItemView>,
    t: FieldTypeView,
    vlabel: Seq<char>,
    j: int,
)
    ensures
        events_wf(encode_unnamed_items(items, t, vlabel, j)),
    decreases items.len() - j,
{
    if j < 0 || j >= items.len() {
        lemma_events_wf_empty();
    } else {
        lemma_encode_unnamed_item_wf(items[j], t, vlabel);
        lemma_encode_unnamed_items_wf(items, t, vlabel, j + 1);
        lemma_events_wf_concat(
            encode_unnamed_item(items[j], t, vlabel),
            encode_unnamed_items(items, t, vlabel, j + 1),
        );
    }
}

pub proof fn lemma_encode_variant_body_wf(
    p: VariantPayloadView,
    d: VariantDescView,
    ns: Option<Seq<char>>,
)
    ensures
        events_wf(encode_variant_body(p, d, ns)),
{
    match (p, d.shape) {
        (VariantPayloadView::Unit, VariantShapeView::Unit(ord)) => {
            let c = seq![EventView::Characters { text: fmt_u(ord as nat) }];
            assert(c.drop_last() =~= Seq::<EventView>::empty());
            assert(open_depth(Seq::<EventView>::empty()) == 0);
        },
        (VariantPayloadView::Named(fvs), VariantShapeView::Named(fds)) => {
            lemma_encode_fields_wf(fvs, fds, ns, 0);
        },
        (VariantPayloadView::Unnamed(fv), VariantShapeView::Unnamed(sh)) => {
            let vl = resolved_name(d.label, d.renamed, ns);
            match (fv, sh) {
                (FieldValueView::One(it), FieldShapeView::Plain(t)) =>
                    lemma_encode_unnamed_item_wf(it, t, vl),
                (FieldValueView::Opt(o), FieldShapeView::Optional(t)) => match o {
                    Option::None => lemma_events_wf_empty(),
                    Option::Some(it) => lemma_encode_unnamed_item_wf(it, t, vl),
                },
                (FieldValueView::Many(items), FieldShapeView::Repeated(t)) =>
                    lemma_encode_unnamed_items_wf(items, t, vl, 0),
                _ => lemma_events_wf_empty(),
            }
        },
        _ => lemma_events_wf_empty(),
    }
}

pub proof fn lemma_encode_enum_wf(
    v: EnumValueView,
    s: EnumSchemaView,
    name: Seq<char>,
    skip: bool,
)
    ensures
        events_wf(encode_enum(v, s, name, skip)),
{
    if 0 <= v.variant < s.variants.len() {
        lemma_encode_variant_body_wf(v.payload, s.variants[v.variant], s.default_namespace);
        if !skip {
            lemma_events_wf_wrap(
                encode_variant_body(v.payload, s.variants[v.variant], s.default_namespace),
                name,
            );
        }
    } else {
        lemma_events_wf_empty();
    }
}

} // verus!
