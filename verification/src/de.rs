//! Deserialization: what value an event stream decodes to, stated as
//! spec functions, and the executable decoders proved against them.
//!
//! Two lenient paths are not errors: an element with no character content
//! parses its scalar from the empty text, and unknown child elements in a
//! struct body are skipped, in any arrival order. A known element-backed
//! field that never arrives decodes to its default (an absent optional is
//! `None`, a repeated field is empty, a plain field is the kind's zero
//! value), matching the closed error taxonomy, which has no
//! missing-field error.

use vstd::prelude::*;

use crate::errors::{XmlError, XmlErrorView, error_view};
use crate::events::{Event, EventView};
use crate::schema::{
    EnumSchema, EnumSchemaView, FieldDesc, FieldShape, FieldShapeView, FieldType,
    FieldTypeView, Prim, StructSchema, VariantShape,
    StructSchemaView, VariantShapeView, enum_schema_view, enum_schema_wf, field_desc_view,
    field_desc_wf, opt_string_view, struct_schema_view, struct_schema_wf, variant_desc_view,
    variant_desc_wf,
};
use crate::session::Deserializer;
use crate::ser::resolved_name;
use crate::text::{parse_u, spec_parse_scalar, parse_scalar};
use crate::value::{
    EnumValue, EnumValueView, FieldValue, FieldValueView, Item, ItemView, Scalar, ScalarView,
    StructValue, StructValueView, VariantPayload, VariantPayloadView, enum_value_view,
    field_value_view, item_view, scalar_view, struct_value_view, variant_payload_view,
};

verus! {

// ---------------------------------------------------------------------
// Skipping one balanced subtree.
// ---------------------------------------------------------------------

/// The position just past the end element that closes `depth` open
/// elements, starting at `pos`; nothing if the stream ends first.
pub open spec fn spec_skip_depth(events: Seq<EventView>, pos: int, depth: nat) -> Option<int>
    decreases events.len() - pos,
{
    if pos < 0 || pos >= events.len() || depth == 0 {
        Option::None
    } else {
        match events[pos] {
            EventView::StartElement { .. } => spec_skip_depth(events, pos + 1, depth + 1),
            EventView::EndElement => if depth == 1 {
                Option::Some(pos + 1)
            } else {
                spec_skip_depth(events, pos + 1, (depth - 1) as nat)
            },
            EventView::Characters { .. } => spec_skip_depth(events, pos + 1, depth),
        }
    }
}

/// The position just past one whole element (its start, its subtree, its
/// matching end), starting at the start element at `pos`.
pub open spec fn spec_skip_element(events: Seq<EventView>, pos: int) -> Option<int> {
    if 0 <= pos < events.len() && events[pos] is StartElement {
        spec_skip_depth(events, pos + 1, 1)
    } else {
        Option::None
    }
}

pub proof fn lemma_skip_depth_advances(events: Seq<EventView>, pos: int, depth: nat)
    ensures
        match spec_skip_depth(events, pos, depth) {
            Option::Some(p) => pos < p <= events.len(),
            Option::None => true,
        },
    decreases events.len() - pos,
{
    if 0 <= pos < events.len() && depth != 0 {
        match events[pos] {
            EventView::StartElement { .. } => lemma_skip_depth_advances(events, pos + 1, depth + 1),
            EventView::EndElement => {
                if depth != 1 {
                    lemma_skip_depth_advances(events, pos + 1, (depth - 1) as nat);
                }
            },
            EventView::Characters { .. } => lemma_skip_depth_advances(events, pos + 1, depth),
        }
    }
}

// ---------------------------------------------------------------------
// Defaults for fields whose element never arrives.
// ---------------------------------------------------------------------

/// The zero value of each scalar kind.
pub open spec fn default_scalar(p: Prim) -> ScalarView {
    match p {
        Prim::PStr => ScalarView::Str(Seq::empty()),
        Prim::PBool => ScalarView::Bool(false),
        Prim::PU8 => ScalarView::U8(0),
        Prim::PI8 => ScalarView::I8(0),
        Prim::PU16 => ScalarView::U16(0),
        Prim::PI16 => ScalarView::I16(0),
        Prim::PU32 => ScalarView::U32(0),
        Prim::PI32 => ScalarView::I32(0),
        Prim::PU64 => ScalarView::U64(0),
        Prim::PI64 => ScalarView::I64(0),
    }
}

pub open spec fn default_field(sh: FieldShapeView) -> FieldValueView
    decreases sh, 0int,
{
    match sh {
        FieldShapeView::Plain(t) => FieldValueView::One(default_item(t)),
        FieldShapeView::Optional(_) => FieldValueView::Opt(Option::None),
        FieldShapeView::Repeated(_) => FieldValueView::Many(Seq::empty()),
    }
}

pub open spec fn default_item(t: FieldTypeView) -> ItemView
    decreases t, 1int,
{
    match t {
        FieldTypeView::Scalar(p) => ItemView::Scalar(default_scalar(p)),
        FieldTypeView::Nested(ss) => ItemView::Nested(default_struct(ss)),
    }
}

/// The struct whose every field is its default.
pub open spec fn default_struct(s: StructSchemaView) -> StructValueView
    decreases s, 2int,
{
    StructValueView {
        fields: Seq::new(
            s.fields.len(),
            |i: int|
                if 0 <= i < s.fields.len() {
                    default_field(s.fields[i].shape)
                } else {
                    arbitrary()
                },
        ),
    }
}

// ---------------------------------------------------------------------
// Field lookup.
// ---------------------------------------------------------------------

/// The first element-backed field (not an attribute, not text content)
/// whose resolved label is `name`, searching from `i`.
pub open spec fn find_field_from(
    s: StructSchemaView,
    name: Seq<char>,
    i: int,
) -> Option<int>
    decreases s.fields.len() - i,
{
    if i < 0 || i >= s.fields.len() {
        Option::None
    } else if !s.fields[i].is_attribute && !s.fields[i].is_text_content && resolved_name(
        s.fields[i].label,
        s.fields[i].renamed,
        s.default_namespace,
    ) == name {
        Option::Some(i)
    } else {
        find_field_from(s, name, i + 1)
    }
}

pub open spec fn find_field(s: StructSchemaView, name: Seq<char>) -> Option<int> {
    find_field_from(s, name, 0)
}

/// The first text-content field, searching from `i`.
pub open spec fn text_field_from(s: StructSchemaView, i: int) -> Option<int>
    decreases s.fields.len() - i,
{
    if i < 0 || i >= s.fields.len() {
        Option::None
    } else if s.fields[i].is_text_content {
        Option::Some(i)
    } else {
        text_field_from(s, i + 1)
    }
}

pub open spec fn text_field(s: StructSchemaView) -> Option<int> {
    text_field_from(s, 0)
}

/// The first variant declared as a unit variant with discriminant `n`.
pub open spec fn find_unit_variant_from(s: EnumSchemaView, n: nat, i: int) -> Option<int>
    decreases s.variants.len() - i,
{
    if i < 0 || i >= s.variants.len() {
        Option::None
    } else if s.variants[i].shape matches VariantShapeView::Unit(ord) && ord as nat == n {
        Option::Some(i)
    } else {
        find_unit_variant_from(s, n, i + 1)
    }
}

pub open spec fn find_unit_variant(s: EnumSchemaView, n: nat) -> Option<int> {
    find_unit_variant_from(s, n, 0)
}

/// The first non-unit variant whose resolved label is `name`.
pub open spec fn find_variant_from(s: EnumSchemaView, name: Seq<char>, i: int) -> Option<int>
    decreases s.variants.len() - i,
{
    if i < 0 || i >= s.variants.len() {
        Option::None
    } else if !(s.variants[i].shape matches VariantShapeView::Unit(_)) && resolved_name(
        s.variants[i].label,
        s.variants[i].renamed,
        s.default_namespace,
    ) == name {
        Option::Some(i)
    } else {
        find_variant_from(s, name, i + 1)
    }
}

pub open spec fn find_variant(s: EnumSchemaView, name: Seq<char>) -> Option<int> {
    find_variant_from(s, name, 0)
}

// ---------------------------------------------------------------------
// Decoding scalars and structs.
// ---------------------------------------------------------------------

/// The character content right after the start element at `pos`, or the
/// empty text when the element has none: an empty element still yields a
/// value.
pub open spec fn peek_text(events: Seq<EventView>, pos: int) -> Seq<char> {
    if 0 <= pos < events.len() {
        match events[pos] {
            EventView::Characters { text } => text,
            _ => Seq::empty(),
        }
    } else {
        Seq::empty()
    }
}

/// Decode one scalar element: the whole element from its start tag to its
/// matching end tag, whose character content parses at kind `p`.
pub open spec fn dec_scalar_elem(events: Seq<EventView>, pos: int, p: Prim) -> Option<
    (ScalarView, int),
> {
    match spec_skip_element(events, pos) {
        Option::Some(end) => match spec_parse_scalar(peek_text(events, pos + 1), p) {
            Option::Some(sv) => Option::Some((sv, end)),
            Option::None => Option::None,
        },
        Option::None => Option::None,
    }
}

/// Decode a struct body: starting inside the struct's own element,
/// consume events until the matching end element (left unconsumed),
/// folding each recognized child into the accumulator and skipping
/// unknown ones.
pub open spec fn dec_struct_body(
    events: Seq<EventView>,
    pos: int,
    s: StructSchemaView,
    acc: StructValueView,
) -> Option<(StructValueView, int)>
    decreases events.len() - pos, 3int,
    via dec_struct_body_decreases
{
    if pos < 0 || pos >= events.len() {
        Option::None
    } else {
        match events[pos] {
            EventView::EndElement => Option::Some((acc, pos)),
            EventView::Characters { text } => match text_field(s) {
                Option::Some(fi) => {
                    if s.fields[fi].shape matches FieldShapeView::Plain(
                        FieldTypeView::Scalar(p),
                    ) {
                        match spec_parse_scalar(text, s.fields[fi].shape->Plain_0->Scalar_0) {
                            Option::Some(sv) => dec_struct_body(
                                events,
                                pos + 1,
                                s,
                                StructValueView {
                                    fields: acc.fields.update(
                                        fi,
                                        FieldValueView::One(ItemView::Scalar(sv)),
                                    ),
                                },
                            ),
                            Option::None => Option::None,
                        }
                    } else {
                        Option::None
                    }
                },
                Option::None => dec_struct_body(events, pos + 1, s, acc),
            },
            EventView::StartElement { name } => match find_field(s, name) {
                Option::Some(fi) => match dec_field_occurrence(
                    events,
                    pos,
                    s.fields[fi].shape,
                    acc.fields[fi],
                ) {
                    // A decoded occurrence always ends past `pos`; the
                    // bound below only makes that plain to the
                    // termination check.
                    Option::Some((fv, p2)) => dec_struct_body(
                        events,
                        if pos < p2 <= events.len() {
                            p2
                        } else {
                            pos + 1
                        },
                        s,
                        StructValueView { fields: acc.fields.update(fi, fv) },
                    ),
                    Option::None => Option::None,
                },
                Option::None => match spec_skip_element(events, pos) {
                    Option::Some(p2) => dec_struct_body(events, p2, s, acc),
                    Option::None => Option::None,
                },
            },
        }
    }
}

/// Decode one element-backed occurrence of a field whose resolved label
/// matched the start element at `pos`, and fold it into the field's
/// current value: a plain field takes the value, an optional becomes
/// present, a repeated field appends.
pub open spec fn dec_field_occurrence(
    events: Seq<EventView>,
    pos: int,
    sh: FieldShapeView,
    cur: FieldValueView,
) -> Option<(FieldValueView, int)>
    decreases events.len() - pos, 2int,
{
    match sh {
        FieldShapeView::Plain(t) => match dec_item(events, pos, t) {
            Option::Some((it, p2)) => Option::Some((FieldValueView::One(it), p2)),
            Option::None => Option::None,
        },
        FieldShapeView::Optional(t) => match dec_item(events, pos, t) {
            Option::Some((it, p2)) => Option::Some(
                (FieldValueView::Opt(Option::Some(it)), p2),
            ),
            Option::None => Option::None,
        },
        FieldShapeView::Repeated(t) => match dec_item(events, pos, t) {
            Option::Some((it, p2)) => match cur {
                FieldValueView::Many(items) => Option::Some(
                    (FieldValueView::Many(items.push(it)), p2),
                ),
                _ => Option::None,
            },
            Option::None => Option::None,
        },
    }
}

/// Decode one occurrence of a field's inner type from the element at
/// `pos`.
pub open spec fn dec_item(events: Seq<EventView>, pos: int, t: FieldTypeView) -> Option<
    (ItemView, int),
>
    decreases events.len() - pos, 1int,
{
    match t {
        FieldTypeView::Scalar(p) => match dec_scalar_elem(events, pos, p) {
            Option::Some((sv, p2)) => Option::Some((ItemView::Scalar(sv), p2)),
            Option::None => Option::None,
        },
        FieldTypeView::Nested(ss) => match dec_struct_elem(events, pos, ss) {
            Option::Some((v, p2)) => Option::Some((ItemView::Nested(v), p2)),
            Option::None => Option::None,
        },
    }
}

/// Decode one whole struct element: its start tag (any name — the caller
/// dispatched on it), its body, and its matching end tag.
pub open spec fn dec_struct_elem(events: Seq<EventView>, pos: int, s: StructSchemaView) -> Option<
    (StructValueView, int),
>
    decreases events.len() - pos, 0int,
{
    if 0 <= pos < events.len() && events[pos] is StartElement {
        match dec_struct_body(events, pos + 1, s, default_struct(s)) {
            Option::Some((v, p2)) => if p2 < events.len() && events[p2] is EndElement {
                Option::Some((v, p2 + 1))
            } else {
                Option::None
            },
            Option::None => Option::None,
        }
    } else {
        Option::None
    }
}

// ---------------------------------------------------------------------
// Executable decoding.
// ---------------------------------------------------------------------

/// Decode one scalar leaf, as the event-stream boundary hands it over:
/// require a start element and consume it; then, if the following event
/// is character data, parse that text, else parse the empty text (an
/// element with no character content still yields a value). The
/// character data itself is left unconsumed, as the caller walks the
/// rest of the element.
pub fn deserialize_primitives(d: &mut Deserializer, p: Prim) -> (r: Result<Scalar, XmlError>)
    requires
        old(d).wf(),
    ensures
        final(d).wf(),
        final(d).stream() == old(d).stream(),
        ({
            let events = old(d).stream();
            let pos = old(d).pos as int;
            if pos < events.len() && events[pos] is StartElement {
                match spec_parse_scalar(peek_text(events, pos + 1), p) {
                    Option::Some(sv) => {
                        &&& r matches Result::Ok(sc) && scalar_view(sc) == sv
                        &&& final(d).pos == pos + 1
                    },
                    Option::None => {
                        &&& r matches Result::Err(e) && error_view(e)
                            == XmlErrorView::PrimitiveParseFailure(peek_text(events, pos + 1))
                        &&& final(d).pos == pos + 1
                    },
                }
            } else {
                &&& r matches Result::Err(e) && error_view(e) == XmlErrorView::MissingStartElement
                &&& final(d).pos == pos
            }
        }),
{
    let is_start = match d.peek() {
        Option::Some(Event::StartElement { .. }) => true,
        _ => false,
    };
    if !is_start {
        return Result::Err(XmlError::MissingStartElement);
    }
    let _start = d.next_event();
    let text: String = match d.peek() {
        Option::Some(Event::Characters { text }) => text.clone(),
        _ => String::new(),
    };
    match parse_scalar(text.as_str(), p) {
        Option::Some(sc) => Result::Ok(sc),
        Option::None => Result::Err(XmlError::PrimitiveParseFailure(text)),
    }
}

/// Consume events until the end element that closes `depth` open
/// elements; fails only if the stream is exhausted first.
fn finish_element(d: &mut Deserializer) -> (r: Result<(), XmlError>)
    requires
        old(d).wf(),
    ensures
        final(d).wf(),
        final(d).stream() == old(d).stream(),
        final(d).pos >= old(d).pos,
        match r {
            Result::Ok(_) => spec_skip_depth(old(d).stream(), old(d).pos as int, 1) == Option::Some(
                final(d).pos as int,
            ),
            Result::Err(e) => {
                &&& spec_skip_depth(old(d).stream(), old(d).pos as int, 1) is None
                &&& error_view(e) == XmlErrorView::MissingStartElement
            },
        },
{
    let ghost s0 = old(d).stream();
    let ghost p0 = old(d).pos as int;
    let mut depth: u128 = 1;
    loop
        invariant
            old(d).stream() == s0,
            old(d).pos as int == p0,
            d.wf(),
            d.stream() == s0,
            p0 <= d.pos <= s0.len(),
            1 <= depth,
            depth <= d.pos - p0 + 1,
            spec_skip_depth(s0, p0, 1) == spec_skip_depth(s0, d.pos as int, depth as nat),
        decreases s0.len() - d.pos,
    {
        match d.next_event() {
            Option::None => {
                return Result::Err(XmlError::MissingStartElement);
            },
            Option::Some(Event::StartElement { .. }) => {
                depth = depth + 1;
            },
            Option::Some(Event::EndElement) => {
                if depth == 1 {
                    return Result::Ok(());
                }
                depth = depth - 1;
            },
            Option::Some(Event::Characters { .. }) => {},
        }
    }
}

/// Consume one whole element (its start tag, its subtree, its matching
/// end tag), however unfamiliar its name: unknown children are skipped,
/// not errors.
fn skip_element(d: &mut Deserializer) -> (r: Result<(), XmlError>)
    requires
        old(d).wf(),
    ensures
        final(d).wf(),
        final(d).stream() == old(d).stream(),
        final(d).pos >= old(d).pos,
        match r {
            Result::Ok(_) => {
                &&& spec_skip_element(old(d).stream(), old(d).pos as int) == Option::Some(
                    final(d).pos as int,
                )
                &&& final(d).pos > old(d).pos
            },
            Result::Err(e) => {
                &&& spec_skip_element(old(d).stream(), old(d).pos as int) is None
                &&& error_view(e) == XmlErrorView::MissingStartElement
            },
        },
{
    let is_start = match d.peek() {
        Option::Some(Event::StartElement { .. }) => true,
        _ => false,
    };
    if !is_start {
        return Result::Err(XmlError::MissingStartElement);
    }
    let _start = d.next_event();
    finish_element(d)
}

/// Decode one whole scalar element: the start tag, its character content
/// parsed at kind `p` (empty text if there is none), and everything up to
/// its matching end tag.
fn decode_scalar_element(d: &mut Deserializer, p: Prim) -> (r: Result<Scalar, XmlError>)
    requires
        old(d).wf(),
    ensures
        final(d).wf(),
        final(d).stream() == old(d).stream(),
        final(d).pos >= old(d).pos,
        match r {
            Result::Ok(sc) => {
                &&& dec_scalar_elem(old(d).stream(), old(d).pos as int, p) == Option::Some(
                    (scalar_view(sc), final(d).pos as int),
                )
                &&& final(d).pos > old(d).pos
            },
            Result::Err(e) => {
                &&& dec_scalar_elem(old(d).stream(), old(d).pos as int, p) is None
                &&& (error_view(e) is MissingStartElement || error_view(e)
                    is PrimitiveParseFailure)
            },
        },
{
    let sc = match deserialize_primitives(d, p) {
        Result::Ok(sc) => sc,
        Result::Err(e) => {
            return Result::Err(e);
        },
    };
    match finish_element(d) {
        Result::Ok(_) => {
            proof {
                lemma_skip_depth_advances(old(d).stream(), old(d).pos + 1, 1);
            }
            Result::Ok(sc)
        },
        Result::Err(e) => Result::Err(e),
    }
}

/// The zero value of each scalar kind.
pub fn default_scalar_value(p: Prim) -> (sc: Scalar)
    ensures
        scalar_view(sc) == default_scalar(p),
{
    match p {
        Prim::PStr => Scalar::Str(String::new()),
        Prim::PBool => Scalar::Bool(false),
        Prim::PU8 => Scalar::U8(0),
        Prim::PI8 => Scalar::I8(0),
        Prim::PU16 => Scalar::U16(0),
        Prim::PI16 => Scalar::I16(0),
        Prim::PU32 => Scalar::U32(0),
        Prim::PI32 => Scalar::I32(0),
        Prim::PU64 => Scalar::U64(0),
        Prim::PI64 => Scalar::I64(0),
    }
}

/// The struct whose every field is its default: absent optionals, empty
/// repeated fields, zero scalars, default nested structs.
pub fn default_struct_value(descs: &Vec<FieldDesc>, Ghost(sv): Ghost<StructSchemaView>) -> (v:
    StructValue)
    requires
        sv.fields.len() == descs@.len(),
        forall|k: int|
            0 <= k < descs@.len() ==> sv.fields[k] == field_desc_view(#[trigger] descs@[k]),
    ensures
        struct_value_view(v) == default_struct(sv),
    decreases *descs,
{
    let mut fields: Vec<FieldValue> = Vec::new();
    let mut i: usize = 0;
    while i < descs.len()
        invariant
            i <= descs@.len(),
            sv.fields.len() == descs@.len(),
            forall|k: int|
                0 <= k < descs@.len() ==> sv.fields[k] == field_desc_view(#[trigger] descs@[k]),
            fields@.len() == i,
            forall|k: int|
                0 <= k < i ==> field_value_view(#[trigger] fields@[k]) == default_field(
                    sv.fields[k].shape,
                ),
        decreases descs@.len() - i,
    {
        let ghost target = default_field(sv.fields[i as int].shape);
        let fv: FieldValue = match &descs[i].shape {
            FieldShape::Plain(t) => match t {
                FieldType::Scalar(p) => {
                    let x = FieldValue::One(Item::Scalar(default_scalar_value(*p)));
                    proof {
                        assert(field_value_view(x) =~~= target);
                    }
                    x
                },
                FieldType::Nested(b) => {
                    proof {
                        assert(decreases_to!(*descs => descs@));
                        assert(decreases_to!(descs@ => descs@[i as int]));
                    }
                    let ghost bsv = struct_schema_view(**b);
                    let x = FieldValue::One(
                        Item::Nested(Box::new(default_struct_value(&b.fields, Ghost(bsv)))),
                    );
                    proof {
                        assert(field_value_view(x) =~~= target);
                    }
                    x
                },
            },
            FieldShape::Optional(_) => {
                let x = FieldValue::Opt(Option::None);
                proof {
                    assert(field_value_view(x) =~~= target);
                }
                x
            },
            FieldShape::Repeated(_) => {
                let inner: Vec<Item> = Vec::new();
                let x = FieldValue::Many(inner);
                proof {
                    let emp = Seq::<ItemView>::empty();
                    assert(field_value_view(x)->Many_0 =~= emp);
                    assert(field_value_view(x) == FieldValueView::Many(emp));
                    assert(target == FieldValueView::Many(emp));
                }
                x
            },
        };
        proof {
            assert(field_value_view(fv) == target);
        }
        fields.push(fv);
        i = i + 1;
    }
    let v = StructValue { fields };
    proof {
        assert(struct_value_view(v).fields =~= default_struct(sv).fields);
    }
    v
}

/// The first text-content field of the schema, if any.
fn text_field_index(fields: &Vec<FieldDesc>, Ghost(sv): Ghost<StructSchemaView>) -> (r: Option<
    usize,
>)
    requires
        sv.fields.len() == fields@.len(),
        forall|k: int|
            0 <= k < fields@.len() ==> sv.fields[k] == field_desc_view(#[trigger] fields@[k]),
    ensures
        match r {
            Option::Some(i) => {
                &&& text_field(sv) == Option::Some(i as int)
                &&& i < fields@.len()
                &&& sv.fields[i as int].is_text_content
            },
            Option::None => text_field(sv) is None,
        },
{
    let mut i: usize = 0;
    while i < fields.len()
        invariant
            i <= fields@.len(),
            sv.fields.len() == fields@.len(),
            forall|k: int|
                0 <= k < fields@.len() ==> sv.fields[k] == field_desc_view(#[trigger] fields@[k]),
            text_field(sv) == text_field_from(sv, i as int),
        decreases fields@.len() - i,
    {
        if fields[i].is_text_content {
            return Option::Some(i);
        }
        i = i + 1;
    }
    Option::None
}

/// The first element-backed field whose resolved label is `name`.
fn find_field_exec(
    fields: &Vec<FieldDesc>,
    ns: &Option<String>,
    name: &String,
    Ghost(sv): Ghost<StructSchemaView>,
) -> (r: Option<usize>)
    requires
        sv.fields.len() == fields@.len(),
        forall|k: int|
            0 <= k < fields@.len() ==> sv.fields[k] == field_desc_view(#[trigger] fields@[k]),
        sv.default_namespace == opt_string_view(*ns),
    ensures
        match r {
            Option::Some(i) => {
                &&& find_field(sv, name@) == Option::Some(i as int)
                &&& i < fields@.len()
            },
            Option::None => find_field(sv, name@) is None,
        },
{
    let mut i: usize = 0;
    while i < fields.len()
        invariant
            i <= fields@.len(),
            sv.fields.len() == fields@.len(),
            forall|k: int|
                0 <= k < fields@.len() ==> sv.fields[k] == field_desc_view(#[trigger] fields@[k]),
            sv.default_namespace == opt_string_view(*ns),
            find_field(sv, name@) == find_field_from(sv, name@, i as int),
        decreases fields@.len() - i,
    {
        let f = &fields[i];
        if !f.is_attribute && !f.is_text_content {
            let lbl = crate::ser::resolve_label_exec(&f.label, &f.renamed, ns);
            if lbl.eq(name) {
                return Option::Some(i);
            }
        }
        i = i + 1;
    }
    Option::None
}

proof fn lemma_struct_view_update(a: StructValue, b: StructValue, fi: int, x: FieldValue)
    requires
        0 <= fi < a.fields@.len(),
        b.fields@ == a.fields@.update(fi, x),
    ensures
        struct_value_view(b) == (StructValueView {
            fields: struct_value_view(a).fields.update(fi, field_value_view(x)),
        }),
{
    assert(struct_value_view(b).fields =~= struct_value_view(a).fields.update(
        fi,
        field_value_view(x),
    ));
}

/// Decode one occurrence of a field's inner type from the element the
/// cursor stands on.
fn decode_item(d: &mut Deserializer, t: &FieldType) -> (r: Result<Item, XmlError>)
    requires
        old(d).wf(),
        crate::schema::field_type_wf(crate::schema::field_type_view(*t)),
    ensures
        final(d).wf(),
        final(d).stream() == old(d).stream(),
        final(d).pos >= old(d).pos,
        match r {
            Result::Ok(it) => {
                &&& dec_item(old(d).stream(), old(d).pos as int, crate::schema::field_type_view(*t))
                    == Option::Some((item_view(it), final(d).pos as int))
                &&& final(d).pos > old(d).pos
            },
            Result::Err(e) => {
                &&& dec_item(
                    old(d).stream(),
                    old(d).pos as int,
                    crate::schema::field_type_view(*t),
                ) is None
                &&& (error_view(e) is MissingStartElement || error_view(e)
                    is PrimitiveParseFailure)
            },
        },
    decreases d.events@.len() - d.pos, 1int,
{
    match t {
        FieldType::Scalar(p) => match decode_scalar_element(d, *p) {
            Result::Ok(sc) => Result::Ok(Item::Scalar(sc)),
            Result::Err(e) => Result::Err(e),
        },
        FieldType::Nested(ss) => match deserialize_struct(d, ss) {
            Result::Ok(v) => Result::Ok(Item::Nested(Box::new(v))),
            Result::Err(e) => Result::Err(e),
        },
    }
}

/// Walk a struct-shaped element body — recognized children in any
/// order, unknown children skipped, character data into the text-content
/// field — up to but not past the matching end tag.
fn deserialize_body(
    d: &mut Deserializer,
    fields: &Vec<FieldDesc>,
    ns: &Option<String>,
    Ghost(sv): Ghost<StructSchemaView>,
) -> (r: Result<StructValue, XmlError>)
    requires
        old(d).wf(),
        struct_schema_wf(sv),
        sv.fields.len() == fields@.len(),
        forall|k: int|
            0 <= k < fields@.len() ==> sv.fields[k] == field_desc_view(#[trigger] fields@[k]),
        sv.default_namespace == opt_string_view(*ns),
    ensures
        final(d).wf(),
        final(d).stream() == old(d).stream(),
        final(d).pos >= old(d).pos,
        match r {
            Result::Ok(v) => {
                &&& dec_struct_body(old(d).stream(), old(d).pos as int, sv, default_struct(sv))
                    == Option::Some((struct_value_view(v), final(d).pos as int))
                &&& final(d).pos < final(d).stream().len()
                &&& final(d).stream()[final(d).pos as int] is EndElement
            },
            Result::Err(e) => {
                &&& dec_struct_body(
                    old(d).stream(),
                    old(d).pos as int,
                    sv,
                    default_struct(sv),
                ) is None
                &&& (error_view(e) is MissingStartElement || error_view(e)
                    is PrimitiveParseFailure)
            },
        },
    decreases d.events@.len() - d.pos, 2int,
{
    let ghost s0 = old(d).stream();
    let ghost p0 = old(d).pos as int;
    let mut acc = default_struct_value(fields, Ghost(sv));
    proof {
        assert(struct_value_view(acc).fields.len() == acc.fields@.len());
        assert forall|k: int|
            0 <= k < sv.fields.len() && (#[trigger] sv.fields[k].shape) matches
                FieldShapeView::Repeated(_) implies acc.fields@[k] is Many by {
            assert(field_value_view(acc.fields@[k]) == default_struct(sv).fields[k]);
            assert(field_value_view(acc.fields@[k]) == default_field(sv.fields[k].shape));
            assert(field_value_view(acc.fields@[k]) is Many);
            match acc.fields@[k] {
                FieldValue::One(_) => assert(false),
                FieldValue::Opt(_) => assert(false),
                FieldValue::Many(_) => {},
            }
        };
    }
    loop
        invariant
            old(d).stream() == s0,
            old(d).pos as int == p0,
            d.wf(),
            d.stream() == s0,
            p0 <= d.pos <= s0.len(),
            struct_schema_wf(sv),
            sv.fields.len() == fields@.len(),
            forall|k: int|
                0 <= k < fields@.len() ==> sv.fields[k] == field_desc_view(#[trigger] fields@[k]),
            sv.default_namespace == opt_string_view(*ns),
            acc.fields@.len() == sv.fields.len(),
            dec_struct_body(s0, d.pos as int, sv, struct_value_view(acc)) == dec_struct_body(
                s0,
                p0,
                sv,
                default_struct(sv),
            ),
            forall|k: int|
                0 <= k < sv.fields.len() ==> ((#[trigger] sv.fields[k].shape) matches
                    FieldShapeView::Repeated(_) ==> acc.fields@[k] is Many),
        decreases s0.len() - d.pos,
    {
        let ghost pos_here = d.pos as int;
        let ghost acc_here = struct_value_view(acc);
        let kind: u8 = match d.peek() {
            Option::None => 0,
            Option::Some(Event::EndElement) => 1,
            Option::Some(Event::Characters { .. }) => 2,
            Option::Some(Event::StartElement { .. }) => 3,
        };
        if kind == 0 {
            return Result::Err(XmlError::MissingStartElement);
        } else if kind == 1 {
            proof {
                assert(dec_struct_body(s0, pos_here, sv, acc_here) == Option::Some(
                    (acc_here, pos_here),
                ));
            }
            return Result::Ok(acc);
        } else if kind == 2 {
            let e = d.next_event();
            let text: String = match e {
                Option::Some(Event::Characters { text }) => text,
                _ => {
                    proof {
                        assert(false);
                    }
                    String::new()
                },
            };
            match text_field_index(fields, Ghost(sv)) {
                Option::Some(fi) => {
                    proof {
                        assert(field_desc_wf(sv.fields[fi as int]));
                        assert(sv.fields[fi as int] == field_desc_view(fields@[fi as int]));
                        assert(sv.fields[fi as int].shape matches FieldShapeView::Plain(
                            FieldTypeView::Scalar(_),
                        ));
                    }
                    let p: Prim = match &fields[fi].shape {
                        FieldShape::Plain(FieldType::Scalar(p)) => *p,
                        FieldShape::Plain(FieldType::Nested(_)) => {
                            proof {
                                assert(false);
                            }
                            Prim::PStr
                        },
                        FieldShape::Optional(_) => {
                            proof {
                                assert(false);
                            }
                            Prim::PStr
                        },
                        FieldShape::Repeated(_) => {
                            proof {
                                assert(false);
                            }
                            Prim::PStr
                        },
                    };
                    proof {
                        assert(sv.fields[fi as int] == field_desc_view(fields@[fi as int]));
                        assert(sv.fields[fi as int].shape->Plain_0->Scalar_0 == p);
                    }
                    match parse_scalar(text.as_str(), p) {
                        Option::Some(sc) => {
                            let ghost acc_before = acc;
                            let fvnew = FieldValue::One(Item::Scalar(sc));
                            let slot = &mut acc.fields[fi];
                            *slot = fvnew;
                            proof {
                                lemma_struct_view_update(
                                    acc_before,
                                    acc,
                                    fi as int,
                                    FieldValue::One(Item::Scalar(sc)),
                                );
                                assert(dec_struct_body(s0, pos_here, sv, acc_here)
                                    == dec_struct_body(
                                    s0,
                                    pos_here + 1,
                                    sv,
                                    struct_value_view(acc),
                                ));
                            }
                        },
                        Option::None => {
                            return Result::Err(XmlError::PrimitiveParseFailure(text));
                        },
                    }
                },
                Option::None => {
                    proof {
                        assert(dec_struct_body(s0, pos_here, sv, acc_here) == dec_struct_body(
                            s0,
                            pos_here + 1,
                            sv,
                            acc_here,
                        ));
                    }
                },
            }
        } else {
            let name: String = match d.peek() {
                Option::Some(Event::StartElement { name }) => name.clone(),
                _ => {
                    proof {
                        assert(false);
                    }
                    String::new()
                },
            };
            match find_field_exec(fields, ns, &name, Ghost(sv)) {
                Option::Some(fi) => {
                    proof {
                        assert(field_desc_wf(sv.fields[fi as int]));
                        assert(sv.fields[fi as int] == field_desc_view(fields@[fi as int]));
                    }
                    match &fields[fi].shape {
                        FieldShape::Plain(t) => {
                            let item = match decode_item(d, t) {
                                Result::Ok(item) => item,
                                Result::Err(e) => {
                                    return Result::Err(e);
                                },
                            };
                            let ghost acc_before = acc;
                            let ghost itv = item_view(item);
                            let fvnew = FieldValue::One(item);
                            let slot = &mut acc.fields[fi];
                            *slot = fvnew;
                            proof {
                                assert(dec_field_occurrence(
                                    s0,
                                    pos_here,
                                    sv.fields[fi as int].shape,
                                    acc_here.fields[fi as int],
                                ) == Option::Some(
                                    (FieldValueView::One(itv), d.pos as int),
                                ));
                                lemma_struct_view_update(
                                    acc_before,
                                    acc,
                                    fi as int,
                                    FieldValue::One(item),
                                );
                                assert(dec_struct_body(s0, pos_here, sv, acc_here)
                                    == dec_struct_body(s0, d.pos as int, sv, struct_value_view(
                                    acc,
                                )));
                            }
                        },
                        FieldShape::Optional(t) => {
                            let item = match decode_item(d, t) {
                                Result::Ok(item) => item,
                                Result::Err(e) => {
                                    return Result::Err(e);
                                },
                            };
                            let ghost acc_before = acc;
                            let ghost itv = item_view(item);
                            let fvnew = FieldValue::Opt(Option::Some(item));
                            let slot = &mut acc.fields[fi];
                            *slot = fvnew;
                            proof {
                                assert(field_value_view(acc.fields@[fi as int])
                                    == FieldValueView::Opt(Option::Some(itv)));
                                assert(dec_field_occurrence(
                                    s0,
                                    pos_here,
                                    sv.fields[fi as int].shape,
                                    acc_here.fields[fi as int],
                                ) == Option::Some(
                                    (FieldValueView::Opt(Option::Some(itv)), d.pos as int),
                                ));
                                lemma_struct_view_update(
                                    acc_before,
                                    acc,
                                    fi as int,
                                    FieldValue::Opt(Option::Some(item)),
                                );
                                assert(dec_struct_body(s0, pos_here, sv, acc_here)
                                    == dec_struct_body(s0, d.pos as int, sv, struct_value_view(
                                    acc,
                                )));
                            }
                        },
                        FieldShape::Repeated(t) => {
                            let item = match decode_item(d, t) {
                                Result::Ok(item) => item,
                                Result::Err(e) => {
                                    return Result::Err(e);
                                },
                            };
                            let ghost acc_before = acc;
                            let ghost itv = item_view(item);
                            let slot = &mut acc.fields[fi];
                            match slot {
                                FieldValue::Many(items) => {
                                    items.push(item);
                                },
                                _ => {
                                    proof {
                                        assert(false);
                                    }
                                },
                            }
                            proof {
                                let cur = acc_here.fields[fi as int];
                                let newv = acc.fields@[fi as int];
                                assert(newv is Many);
                                assert(newv->Many_0@ == acc_before.fields@[fi as int]->Many_0@.push(
                                    item,
                                ));
                                assert(field_value_view(newv)->Many_0 =~= cur->Many_0.push(itv));
                                assert(field_value_view(newv) == FieldValueView::Many(
                                    cur->Many_0.push(itv),
                                ));
                                assert(dec_field_occurrence(
                                    s0,
                                    pos_here,
                                    sv.fields[fi as int].shape,
                                    cur,
                                ) == Option::Some(
                                    (FieldValueView::Many(cur->Many_0.push(itv)), d.pos as int),
                                ));
                                lemma_struct_view_update(acc_before, acc, fi as int, newv);
                                assert(dec_struct_body(s0, pos_here, sv, acc_here)
                                    == dec_struct_body(s0, d.pos as int, sv, struct_value_view(
                                    acc,
                                )));
                            }
                        },
                    }
                },
                Option::None => {
                    match skip_element(d) {
                        Result::Ok(_) => {
                            proof {
                                assert(dec_struct_body(s0, pos_here, sv, acc_here)
                                    == dec_struct_body(s0, d.pos as int, sv, acc_here));
                            }
                        },
                        Result::Err(e) => {
                            return Result::Err(e);
                        },
                    }
                },
            }
        }
    }
}

/// Decode one whole struct element: require and consume its start tag
/// (the caller has already dispatched on the name), walk its body, and
/// consume its matching end tag.
pub fn deserialize_struct(d: &mut Deserializer, s: &StructSchema) -> (r: Result<
    StructValue,
    XmlError,
>)
    requires
        old(d).wf(),
        struct_schema_wf(struct_schema_view(*s)),
    ensures
        final(d).wf(),
        final(d).stream() == old(d).stream(),
        final(d).pos >= old(d).pos,
        match r {
            Result::Ok(v) => {
                &&& dec_struct_elem(old(d).stream(), old(d).pos as int, struct_schema_view(*s))
                    == Option::Some((struct_value_view(v), final(d).pos as int))
                &&& final(d).pos > old(d).pos
            },
            Result::Err(e) => {
                &&& dec_struct_elem(
                    old(d).stream(),
                    old(d).pos as int,
                    struct_schema_view(*s),
                ) is None
                &&& (error_view(e) is MissingStartElement || error_view(e)
                    is PrimitiveParseFailure)
            },
        },
        !(old(d).pos < old(d).stream().len() && old(d).stream()[old(d).pos as int]
            is StartElement) ==> (r matches Result::Err(e) && error_view(e)
            == XmlErrorView::MissingStartElement),
    decreases d.events@.len() - d.pos, 0int,
{
    let ghost s0 = old(d).stream();
    let ghost p0 = old(d).pos as int;
    let ghost sv = struct_schema_view(*s);
    let is_start = match d.peek() {
        Option::Some(Event::StartElement { .. }) => true,
        _ => false,
    };
    if !is_start {
        return Result::Err(XmlError::MissingStartElement);
    }
    let _start = d.next_event();
    match deserialize_body(d, &s.fields, &s.default_namespace, Ghost(sv)) {
        Result::Ok(v) => {
            let _end = d.next_event();
            proof {
                assert(dec_struct_elem(s0, p0, sv) == Option::Some(
                    (struct_value_view(v), d.pos as int),
                ));
            }
            Result::Ok(v)
        },
        Result::Err(e) => Result::Err(e),
    }
}


// ---------------------------------------------------------------------
// Enum decoding.
// ---------------------------------------------------------------------

/// Decode the repeated items of a tuple-like variant: one element per
/// item, as long as start elements carrying the variant's label keep
/// arriving.
pub open spec fn dec_unnamed_items(
    events: Seq<EventView>,
    pos: int,
    t: FieldTypeView,
    vlabel: Seq<char>,
    acc: Seq<ItemView>,
) -> Option<(Seq<ItemView>, int)>
    decreases events.len() - pos,
{
    if 0 <= pos < events.len() && (events[pos] matches EventView::StartElement { name }
        && name == vlabel) {
        match dec_item(events, pos, t) {
            // A decoded item always ends past `pos`; the bound below only
            // makes that plain to the termination check.
            Option::Some((it, p2)) => dec_unnamed_items(
                events,
                if pos < p2 <= events.len() {
                    p2
                } else {
                    pos + 1
                },
                t,
                vlabel,
                acc.push(it),
            ),
            Option::None => Option::None,
        }
    } else {
        Option::Some((acc, pos))
    }
}

/// Decode one whole enum element. Inside the wrapping element, bare
/// character text is a unit variant's ordinal; a start element selects
/// the variant whose resolved label it carries — a struct-like variant
/// decodes its fields inside that element, a tuple-like variant decodes
/// its payload by its shape.
pub open spec fn dec_enum_elem(events: Seq<EventView>, pos: int, s: EnumSchemaView) -> Option<
    (EnumValueView, int),
> {
    if !(0 <= pos < events.len() && events[pos] is StartElement) {
        Option::None
    } else {
        let ip = pos + 1;
        if !(ip < events.len()) {
            Option::None
        } else {
            match events[ip] {
                EventView::Characters { text } => match parse_u(text, u32::MAX as nat) {
                    Option::Some(n) => match find_unit_variant(s, n) {
                        Option::Some(i) => if ip + 1 < events.len() && events[ip + 1]
                            is EndElement {
                            Option::Some(
                                (
                                    EnumValueView {
                                        variant: i,
                                        payload: VariantPayloadView::Unit,
                                    },
                                    ip + 2,
                                ),
                            )
                        } else {
                            Option::None
                        },
                        Option::None => Option::None,
                    },
                    Option::None => Option::None,
                },
                EventView::EndElement => Option::None,
                EventView::StartElement { name } => match find_variant(s, name) {
                    Option::Some(i) => dec_variant_payload(events, ip, s, i),
                    Option::None => Option::None,
                },
            }
        }
    }
}

/// Decode the payload of variant `i`, whose resolved label matched the
/// start element at `pos`, then the enum element's own end tag.
pub open spec fn dec_variant_payload(
    events: Seq<EventView>,
    pos: int,
    s: EnumSchemaView,
    i: int,
) -> Option<(EnumValueView, int)> {
    if !(0 <= i < s.variants.len()) {
        Option::None
    } else {
        let d = s.variants[i];
        let vl = resolved_name(d.label, d.renamed, s.default_namespace);
        match d.shape {
            VariantShapeView::Unit(_) => Option::None,
            VariantShapeView::Named(fds) => {
                let vs = StructSchemaView {
                    name: d.label,
                    default_namespace: s.default_namespace,
                    fields: fds,
                };
                match dec_struct_elem(events, pos, vs) {
                    Option::Some((v, p2)) => if p2 < events.len() && events[p2] is EndElement {
                        Option::Some(
                            (
                                EnumValueView {
                                    variant: i,
                                    payload: VariantPayloadView::Named(v.fields),
                                },
                                p2 + 1,
                            ),
                        )
                    } else {
                        Option::None
                    },
                    Option::None => Option::None,
                }
            },
            VariantShapeView::Unnamed(sh) => match sh {
                FieldShapeView::Plain(t) => match dec_item(events, pos, t) {
                    Option::Some((it, p2)) => if p2 < events.len() && events[p2] is EndElement {
                        Option::Some(
                            (
                                EnumValueView {
                                    variant: i,
                                    payload: VariantPayloadView::Unnamed(
                                        FieldValueView::One(it),
                                    ),
                                },
                                p2 + 1,
                            ),
                        )
                    } else {
                        Option::None
                    },
                    Option::None => Option::None,
                },
                FieldShapeView::Optional(t) => match dec_item(events, pos, t) {
                    Option::Some((it, p2)) => if p2 < events.len() && events[p2] is EndElement {
                        Option::Some(
                            (
                                EnumValueView {
                                    variant: i,
                                    payload: VariantPayloadView::Unnamed(
                                        FieldValueView::Opt(Option::Some(it)),
                                    ),
                                },
                                p2 + 1,
                            ),
                        )
                    } else {
                        Option::None
                    },
                    Option::None => Option::None,
                },
                FieldShapeView::Repeated(t) => match dec_unnamed_items(
                    events,
                    pos,
                    t,
                    vl,
                    Seq::empty(),
                ) {
                    Option::Some((items, p2)) => if p2 < events.len() && events[p2]
                        is EndElement {
                        Option::Some(
                            (
                                EnumValueView {
                                    variant: i,
                                    payload: VariantPayloadView::Unnamed(
                                        FieldValueView::Many(items),
                                    ),
                                },
                                p2 + 1,
                            ),
                        )
                    } else {
                        Option::None
                    },
                    Option::None => Option::None,
                },
            },
        }
    }
}

/// The first unit variant declaring discriminant `n`.
fn find_unit_variant_exec(s: &EnumSchema, n: u32) -> (r: Option<usize>)
    ensures
        match r {
            Option::Some(i) => {
                &&& find_unit_variant(enum_schema_view(*s), n as nat) == Option::Some(i as int)
                &&& i < s.variants@.len()
            },
            Option::None => find_unit_variant(enum_schema_view(*s), n as nat) is None,
        },
{
    let ghost sv = enum_schema_view(*s);
    let mut i: usize = 0;
    while i < s.variants.len()
        invariant
            i <= s.variants@.len(),
            sv == enum_schema_view(*s),
            find_unit_variant(sv, n as nat) == find_unit_variant_from(sv, n as nat, i as int),
        decreases s.variants@.len() - i,
    {
        proof {
            assert(sv.variants[i as int] == variant_desc_view(s.variants@[i as int]));
        }
        match &s.variants[i].shape {
            VariantShape::Unit(ord) => {
                if *ord == n {
                    return Option::Some(i);
                }
            },
            _ => {},
        }
        i = i + 1;
    }
    Option::None
}

/// The first non-unit variant whose resolved label is `name`.
fn find_variant_exec(s: &EnumSchema, name: &String) -> (r: Option<usize>)
    ensures
        match r {
            Option::Some(i) => {
                &&& find_variant(enum_schema_view(*s), name@) == Option::Some(i as int)
                &&& i < s.variants@.len()
                &&& !(enum_schema_view(*s).variants[i as int].shape matches
                    VariantShapeView::Unit(_))
            },
            Option::None => find_variant(enum_schema_view(*s), name@) is None,
        },
{
    let ghost sv = enum_schema_view(*s);
    let mut i: usize = 0;
    while i < s.variants.len()
        invariant
            i <= s.variants@.len(),
            sv == enum_schema_view(*s),
            find_variant(sv, name@) == find_variant_from(sv, name@, i as int),
        decreases s.variants@.len() - i,
    {
        proof {
            assert(sv.variants[i as int] == variant_desc_view(s.variants@[i as int]));
        }
        let is_unit = match &s.variants[i].shape {
            VariantShape::Unit(_) => true,
            _ => false,
        };
        if !is_unit {
            let v = &s.variants[i];
            let lbl = crate::ser::resolve_label_exec(&v.label, &v.renamed, &s.default_namespace);
            if lbl.eq(name) {
                proof {
                    match s.variants@[i as int].shape {
                        VariantShape::Unit(_) => assert(false),
                        VariantShape::Named(_) => {},
                        VariantShape::Unnamed(_) => {},
                    }
                }
                return Option::Some(i);
            }
        }
        i = i + 1;
    }
    Option::None
}

/// Decode one whole enum element: require and consume its start tag,
/// discriminate the variant from the next event — bare character text is
/// a unit variant's ordinal (`UnknownDiscriminant` if no variant
/// declares it), a start element selects the variant carrying its label
/// (`AmbiguousOrUnmatchedVariant` if none does) — decode that variant's
/// payload, and consume the enum element's end tag.
pub fn deserialize_enum(d: &mut Deserializer, s: &EnumSchema) -> (r: Result<EnumValue, XmlError>)
    requires
        old(d).wf(),
        enum_schema_wf(enum_schema_view(*s)),
    ensures
        final(d).wf(),
        final(d).stream() == old(d).stream(),
        final(d).pos >= old(d).pos,
        match r {
            Result::Ok(v) => dec_enum_elem(old(d).stream(), old(d).pos as int, enum_schema_view(*s))
                == Option::Some((enum_value_view(v), final(d).pos as int)),
            Result::Err(e) => {
                &&& dec_enum_elem(
                    old(d).stream(),
                    old(d).pos as int,
                    enum_schema_view(*s),
                ) is None
                &&& !(error_view(e) is WriteFailure)
            },
        },
        ({
            let events = old(d).stream();
            let pos = old(d).pos as int;
            if !(pos < events.len() && events[pos] is StartElement) {
                r matches Result::Err(e) && error_view(e) == XmlErrorView::MissingStartElement
            } else if !(pos + 1 < events.len()) {
                r matches Result::Err(e) && error_view(e) == XmlErrorView::MissingStartElement
            } else {
                match events[pos + 1] {
                    EventView::EndElement => r matches Result::Err(e) && error_view(e)
                        == XmlErrorView::AmbiguousOrUnmatchedVariant,
                    EventView::Characters { text } => match parse_u(text, u32::MAX as nat) {
                        Option::Some(n) => find_unit_variant(enum_schema_view(*s), n) is None
                            ==> (r matches Result::Err(e) && error_view(e)
                            == XmlErrorView::UnknownDiscriminant),
                        Option::None => r matches Result::Err(e) && error_view(e)
                            == XmlErrorView::PrimitiveParseFailure(text),
                    },
                    EventView::StartElement { name } => find_variant(enum_schema_view(*s), name)
                        is None ==> (r matches Result::Err(e) && error_view(e)
                        == XmlErrorView::AmbiguousOrUnmatchedVariant),
                }
            }
        }),
{
    let ghost s0 = old(d).stream();
    let ghost p0 = old(d).pos as int;
    let ghost sv = enum_schema_view(*s);
    let is_start = match d.peek() {
        Option::Some(Event::StartElement { .. }) => true,
        _ => false,
    };
    if !is_start {
        return Result::Err(XmlError::MissingStartElement);
    }
    let _start = d.next_event();
    let kind: u8 = match d.peek() {
        Option::None => 0,
        Option::Some(Event::EndElement) => 1,
        Option::Some(Event::Characters { .. }) => 2,
        Option::Some(Event::StartElement { .. }) => 3,
    };
    if kind == 0 {
        return Result::Err(XmlError::MissingStartElement);
    }
    if kind == 1 {
        return Result::Err(XmlError::AmbiguousOrUnmatchedVariant);
    }
    if kind == 2 {
        let e = d.next_event();
        let text: String = match e {
            Option::Some(Event::Characters { text }) => text,
            _ => {
                proof {
                    assert(false);
                }
                String::new()
            },
        };
        let n: u32 = match parse_scalar(text.as_str(), Prim::PU32) {
            Option::Some(Scalar::U32(n)) => n,
            Option::Some(_) => {
                proof {
                    assert(false);
                }
                0
            },
            Option::None => {
                return Result::Err(XmlError::PrimitiveParseFailure(text));
            },
        };
        match find_unit_variant_exec(s, n) {
            Option::Some(i) => {
                let is_end = match d.peek() {
                    Option::Some(Event::EndElement) => true,
                    _ => false,
                };
                if !is_end {
                    return Result::Err(XmlError::MissingStartElement);
                }
                let _end = d.next_event();
                let v = EnumValue { variant: i, payload: VariantPayload::Unit };
                proof {
                    assert(dec_enum_elem(s0, p0, sv) == Option::Some(
                        (enum_value_view(v), d.pos as int),
                    ));
                }
                return Result::Ok(v);
            },
            Option::None => {
                return Result::Err(XmlError::UnknownDiscriminant);
            },
        }
    }
    // A nested start element: the variant is selected by its label.
    let name: String = match d.peek() {
        Option::Some(Event::StartElement { name }) => name.clone(),
        _ => {
            proof {
                assert(false);
            }
            String::new()
        },
    };
    let i: usize = match find_variant_exec(s, &name) {
        Option::Some(i) => i,
        Option::None => {
            return Result::Err(XmlError::AmbiguousOrUnmatchedVariant);
        },
    };
    match deserialize_variant_payload(d, s, i) {
        Result::Ok(v) => {
            proof {
                assert(dec_enum_elem(s0, p0, sv) == Option::Some(
                    (enum_value_view(v), d.pos as int),
                ));
            }
            Result::Ok(v)
        },
        Result::Err(e) => Result::Err(e),
    }
}

/// Decode the payload of the selected non-unit variant, starting at the
/// variant-labeled start element, then consume the enum element's own
/// end tag.
#[verifier::rlimit(60)]
fn deserialize_variant_payload(d: &mut Deserializer, s: &EnumSchema, i: usize) -> (r: Result<
    EnumValue,
    XmlError,
>)
    requires
        old(d).wf(),
        enum_schema_wf(enum_schema_view(*s)),
        i < s.variants@.len(),
        !(enum_schema_view(*s).variants[i as int].shape matches VariantShapeView::Unit(_)),
    ensures
        final(d).wf(),
        final(d).stream() == old(d).stream(),
        final(d).pos >= old(d).pos,
        match r {
            Result::Ok(v) => dec_variant_payload(
                old(d).stream(),
                old(d).pos as int,
                enum_schema_view(*s),
                i as int,
            ) == Option::Some((enum_value_view(v), final(d).pos as int)),
            Result::Err(e) => {
                &&& dec_variant_payload(
                    old(d).stream(),
                    old(d).pos as int,
                    enum_schema_view(*s),
                    i as int,
                ) is None
                &&& (error_view(e) is MissingStartElement || error_view(e)
                    is PrimitiveParseFailure)
            },
        },
{
    let ghost s0 = old(d).stream();
    let ghost ip = old(d).pos as int;
    let ghost sv = enum_schema_view(*s);
    let vd = &s.variants[i];
    proof {
        assert(sv.variants[i as int] == variant_desc_view(s.variants@[i as int]));
        assert(variant_desc_wf(sv.variants[i as int]));
    }
    match &vd.shape {
        VariantShape::Unit(_) => {
            proof {
                assert(false);
            }
            Result::Err(XmlError::AmbiguousOrUnmatchedVariant)
        },
        VariantShape::Named(fds) => {
            let ghost vsv = StructSchemaView {
                name: sv.variants[i as int].label,
                default_namespace: sv.default_namespace,
                fields: sv.variants[i as int].shape->Named_0,
            };
            proof {
                assert(struct_schema_wf(vsv));
            }
            let is_start = match d.peek() {
                Option::Some(Event::StartElement { .. }) => true,
                _ => false,
            };
            if !is_start {
                return Result::Err(XmlError::MissingStartElement);
            }
            let _vstart = d.next_event();
            let v = match deserialize_body(d, fds, &s.default_namespace, Ghost(vsv)) {
                Result::Ok(v) => v,
                Result::Err(e) => {
                    return Result::Err(e);
                },
            };
            let _end = d.next_event();
            let is_end = match d.peek() {
                Option::Some(Event::EndElement) => true,
                _ => false,
            };
            if !is_end {
                return Result::Err(XmlError::MissingStartElement);
            }
            let _outer_end = d.next_event();
            let ev = EnumValue { variant: i, payload: VariantPayload::Named(v.fields) };
            proof {
                assert(variant_payload_view(ev.payload)->Named_0 =~= struct_value_view(v).fields);
                assert(dec_variant_payload(s0, ip, sv, i as int) == Option::Some(
                    (enum_value_view(ev), d.pos as int),
                ));
            }
            Result::Ok(ev)
        },
        VariantShape::Unnamed(sh) => {
            let vl = crate::ser::resolve_label_exec(&vd.label, &vd.renamed, &s.default_namespace);
            match sh {
                FieldShape::Plain(t) => {
                    let item = match decode_item(d, t) {
                        Result::Ok(item) => item,
                        Result::Err(e) => {
                            return Result::Err(e);
                        },
                    };
                    let is_end = match d.peek() {
                        Option::Some(Event::EndElement) => true,
                        _ => false,
                    };
                    if !is_end {
                        return Result::Err(XmlError::MissingStartElement);
                    }
                    let _end = d.next_event();
                    let ev = EnumValue {
                        variant: i,
                        payload: VariantPayload::Unnamed(FieldValue::One(item)),
                    };
                    proof {
                        assert(dec_variant_payload(s0, ip, sv, i as int) == Option::Some(
                            (enum_value_view(ev), d.pos as int),
                        ));
                    }
                    Result::Ok(ev)
                },
                FieldShape::Optional(t) => {
                    let item = match decode_item(d, t) {
                        Result::Ok(item) => item,
                        Result::Err(e) => {
                            return Result::Err(e);
                        },
                    };
                    let is_end = match d.peek() {
                        Option::Some(Event::EndElement) => true,
                        _ => false,
                    };
                    if !is_end {
                        return Result::Err(XmlError::MissingStartElement);
                    }
                    let _end = d.next_event();
                    let ev = EnumValue {
                        variant: i,
                        payload: VariantPayload::Unnamed(FieldValue::Opt(Option::Some(item))),
                    };
                    proof {
                        assert(dec_variant_payload(s0, ip, sv, i as int) == Option::Some(
                            (enum_value_view(ev), d.pos as int),
                        ));
                    }
                    Result::Ok(ev)
                },
                FieldShape::Repeated(t) => {
                    let items = match decode_unnamed_items(d, t, &vl) {
                        Result::Ok(items) => items,
                        Result::Err(e) => {
                            return Result::Err(e);
                        },
                    };
                    let is_end = match d.peek() {
                        Option::Some(Event::EndElement) => true,
                        _ => false,
                    };
                    if !is_end {
                        return Result::Err(XmlError::MissingStartElement);
                    }
                    let _end = d.next_event();
                    let ev = EnumValue {
                        variant: i,
                        payload: VariantPayload::Unnamed(FieldValue::Many(items)),
                    };
                    proof {
                        assert(field_value_view(ev.payload->Unnamed_0)->Many_0 =~= Seq::new(
                            items@.len(),
                            |j: int|
                                if 0 <= j < items@.len() {
                                    item_view(items@[j])
                                } else {
                                    arbitrary()
                                },
                        ));
                        assert(dec_variant_payload(s0, ip, sv, i as int) == Option::Some(
                            (enum_value_view(ev), d.pos as int),
                        ));
                    }
                    Result::Ok(ev)
                },
            }
        },
    }
}

/// Decode the repeated items of a tuple-like variant, as long as start
/// elements carrying the variant's label keep arriving.
fn decode_unnamed_items(d: &mut Deserializer, t: &FieldType, vl: &String) -> (r: Result<
    Vec<Item>,
    XmlError,
>)
    requires
        old(d).wf(),
        crate::schema::field_type_wf(crate::schema::field_type_view(*t)),
    ensures
        final(d).wf(),
        final(d).stream() == old(d).stream(),
        final(d).pos >= old(d).pos,
        match r {
            Result::Ok(items) => dec_unnamed_items(
                old(d).stream(),
                old(d).pos as int,
                crate::schema::field_type_view(*t),
                vl@,
                Seq::empty(),
            ) == Option::Some(
                (
                    Seq::new(
                        items@.len(),
                        |j: int|
                            if 0 <= j < items@.len() {
                                item_view(items@[j])
                            } else {
                                arbitrary()
                            },
                    ),
                    final(d).pos as int,
                ),
            ),
            Result::Err(e) => {
                &&& dec_unnamed_items(
                    old(d).stream(),
                    old(d).pos as int,
                    crate::schema::field_type_view(*t),
                    vl@,
                    Seq::empty(),
                ) is None
                &&& (error_view(e) is MissingStartElement || error_view(e)
                    is PrimitiveParseFailure)
            },
        },
{
    let ghost s0 = old(d).stream();
    let ghost p0 = old(d).pos as int;
    let ghost tv = crate::schema::field_type_view(*t);
    let mut items: Vec<Item> = Vec::new();
    proof {
        assert(Seq::new(
            items@.len(),
            |j: int|
                if 0 <= j < items@.len() {
                    item_view(items@[j])
                } else {
                    arbitrary()
                },
        ) =~= Seq::<ItemView>::empty());
    }
    loop
        invariant
            old(d).stream() == s0,
            old(d).pos as int == p0,
            d.wf(),
            d.stream() == s0,
            p0 <= d.pos <= s0.len(),
            crate::schema::field_type_wf(tv),
            tv == crate::schema::field_type_view(*t),
            dec_unnamed_items(
                s0,
                d.pos as int,
                tv,
                vl@,
                Seq::new(
                    items@.len(),
                    |j: int|
                        if 0 <= j < items@.len() {
                            item_view(items@[j])
                        } else {
                            arbitrary()
                        },
                ),
            ) == dec_unnamed_items(s0, p0, tv, vl@, Seq::<ItemView>::empty()),
        ensures
            !(d.pos < s0.len() && (s0[d.pos as int] matches EventView::StartElement { name }
                && name == vl@)),
        decreases s0.len() - d.pos,
    {
        let more = match d.peek() {
            Option::Some(Event::StartElement { name }) => name.eq(vl),
            _ => false,
        };
        if !more {
            break;
        }
        let ghost pos_here = d.pos as int;
        let ghost iv_here = Seq::new(
            items@.len(),
            |j: int|
                if 0 <= j < items@.len() {
                    item_view(items@[j])
                } else {
                    arbitrary()
                },
        );
        let item = match decode_item(d, t) {
            Result::Ok(item) => item,
            Result::Err(e) => {
                return Result::Err(e);
            },
        };
        items.push(item);
        proof {
            let iv_new = Seq::new(
                items@.len(),
                |j: int|
                    if 0 <= j < items@.len() {
                        item_view(items@[j])
                    } else {
                        arbitrary()
                    },
            );
            assert(iv_new =~= iv_here.push(item_view(item)));
            assert(dec_unnamed_items(s0, pos_here, tv, vl@, iv_here) == dec_unnamed_items(
                s0,
                d.pos as int,
                tv,
                vl@,
                iv_new,
            ));
        }
    }
    Result::Ok(items)
}

#[via_fn]
proof fn dec_struct_body_decreases(

    events: Seq<EventView>,
    pos: int,
    s: StructSchemaView,
    acc: StructValueView,
) {
    if 0 <= pos < events.len() {
        match events[pos] {
            EventView::StartElement { name } => match find_field(s, name) {
                Option::Some(fi) => {},
                Option::None => {
                    lemma_skip_depth_advances(events, pos + 1, 1);
                },
            },
            _ => {},
        }
    }
}

} // verus!
