//! The engine's laws: properties that relate encoding and decoding,
//! proved over the spec functions that the executable functions are
//! verified against.

use vstd::prelude::*;

use crate::events::{EventView, events_wf, open_depth};
use crate::schema::{
    EnumSchemaView, FieldDescView, FieldShapeView, FieldTypeView, Prim, StructSchemaView,
    VariantShapeView, struct_schema_wf,
};
use crate::ser::{
    encode_enum, encode_field, encode_fields, encode_item, encode_items, encode_struct,
    encode_unnamed_item, lemma_encode_fields_wf, lemma_never_overclosed_nonneg,
    lemma_open_depth_concat, prim_events,
};
use crate::de::{
    dec_enum_elem, dec_scalar_elem, dec_struct_body, dec_struct_elem, default_struct, find_field,
    find_unit_variant, peek_text, spec_skip_depth, spec_skip_element, text_field,
};
use crate::text::{fmt_scalar, fmt_u, lemma_fmt_u_round_trip, lemma_scalar_text_round_trip,
    parse_u, scalar_kind, spec_parse_scalar};
use crate::value::{
    EnumValueView, FieldValueView, ItemView, ScalarView, StructValueView, VariantPayloadView,
};

verus! {

/// Round trip for every scalar kind: a scalar encoded as one element —
/// under any name, followed by anything — decodes back to the very same
/// value, at its own kind, consuming exactly that element.
pub proof fn scalar_round_trip(v: ScalarView, name: Seq<char>, rest: Seq<EventView>)
    ensures
        dec_scalar_elem(
            prim_events(fmt_scalar(v), name, false) + rest,
            0,
            scalar_kind(v),
        ) == Option::Some((v, 3int)),
{
    let events = prim_events(fmt_scalar(v), name, false) + rest;
    assert(events[0] == EventView::StartElement { name });
    assert(events[1] == EventView::Characters { text: fmt_scalar(v) });
    assert(events[2] == EventView::EndElement);
    assert(spec_skip_depth(events, 2, 1) == Option::Some(3int));
    assert(spec_skip_depth(events, 1, 1) == Option::Some(3int));
    assert(spec_skip_element(events, 0) == Option::Some(3int));
    assert(peek_text(events, 1) == fmt_scalar(v));
    lemma_scalar_text_round_trip(v);
}

/// An absent optional field produces no events at all, whatever the
/// descriptor says otherwise.
pub proof fn optional_absent_emits_nothing(d: FieldDescView, ns: Option<Seq<char>>)
    ensures
        encode_field(FieldValueView::Opt(Option::None), d, ns) == Seq::<EventView>::empty(),
{
}

/// A struct whose element body is empty decodes every optional field to
/// absent — absence of the element is not an error.
pub proof fn optional_missing_decodes_absent(s: StructSchemaView, name: Seq<char>, fi: int)
    requires
        0 <= fi < s.fields.len(),
        s.fields[fi].shape matches FieldShapeView::Optional(_),
    ensures
        dec_struct_elem(
            seq![EventView::StartElement { name }, EventView::EndElement],
            0,
            s,
        ) == Option::Some((default_struct(s), 2int)),
        default_struct(s).fields[fi] == FieldValueView::Opt(Option::<ItemView>::None),
{
    let events = seq![EventView::StartElement { name }, EventView::EndElement];
    assert(events[0] == EventView::StartElement { name });
    assert(events[1] == EventView::EndElement);
    assert(dec_struct_body(events, 1, s, default_struct(s)) == Option::Some(
        (default_struct(s), 1int),
    ));
}

/// An optional field whose element never arrives decodes to absent even
/// while another field's element is present and recovered.
pub proof fn optional_missing_among_present(
    s: StructSchemaView,
    name: Seq<char>,
    lbl: Seq<char>,
    txt: Seq<char>,
    fi: int,
    fo: int,
    p: Prim,
    sv: ScalarView,
)
    requires
        struct_schema_wf(s),
        find_field(s, lbl) == Option::Some(fi),
        0 <= fi < s.fields.len(),
        0 <= fo < s.fields.len(),
        fo != fi,
        s.fields[fi].shape == FieldShapeView::Plain(FieldTypeView::Scalar(p)),
        s.fields[fo].shape matches FieldShapeView::Optional(_),
        spec_parse_scalar(txt, p) == Option::Some(sv),
    ensures
        ({
            let events = seq![
                EventView::StartElement { name },
                EventView::StartElement { name: lbl },
                EventView::Characters { text: txt },
                EventView::EndElement,
                EventView::EndElement,
            ];
            let decoded = StructValueView {
                fields: default_struct(s).fields.update(
                    fi,
                    FieldValueView::One(ItemView::Scalar(sv)),
                ),
            };
            &&& dec_struct_elem(events, 0, s) == Option::Some((decoded, 5int))
            &&& decoded.fields[fo] == FieldValueView::Opt(Option::<ItemView>::None)
        }),
{
    let events = seq![
        EventView::StartElement { name },
        EventView::StartElement { name: lbl },
        EventView::Characters { text: txt },
        EventView::EndElement,
        EventView::EndElement,
    ];
    let acc0 = default_struct(s);
    assert(spec_skip_depth(events, 3, 1) == Option::Some(4int));
    assert(spec_skip_depth(events, 2, 1) == Option::Some(4int));
    assert(spec_skip_element(events, 1) == Option::Some(4int));
    assert(peek_text(events, 2) == txt);
    assert(dec_scalar_elem(events, 1, p) == Option::Some((sv, 4int)));
    assert(crate::de::dec_item(events, 1, FieldTypeView::Scalar(p)) == Option::Some(
        (ItemView::Scalar(sv), 4int),
    ));
    assert(crate::de::dec_field_occurrence(events, 1, s.fields[fi].shape, acc0.fields[fi])
        == Option::Some((FieldValueView::One(ItemView::Scalar(sv)), 4int)));
    let acc1 = StructValueView {
        fields: acc0.fields.update(fi, FieldValueView::One(ItemView::Scalar(sv))),
    };
    assert(dec_struct_body(events, 1, s, acc0) == dec_struct_body(events, 4, s, acc1));
    assert(dec_struct_body(events, 4, s, acc1) == Option::Some((acc1, 4int)));
    assert(events[4] is EndElement);
}

/// A repeated scalar field with n items produces exactly n sibling
/// elements, all under the field's label, in the items' order: the
/// encoding is 3 events per item, and item j's element stands at
/// positions 3j, 3j+1, 3j+2.
pub proof fn repeated_emits_one_element_per_item(
    items: Seq<ItemView>,
    p: Prim,
    name: Seq<char>,
    j: int,
)
    requires
        0 <= j <= items.len(),
        forall|k: int| 0 <= k < items.len() ==> (#[trigger] items[k]) matches ItemView::Scalar(_),
    ensures
        encode_items(items, FieldTypeView::Scalar(p), name, j).len() == 3 * (items.len() - j),
        forall|k: int|
            j <= k < items.len() ==> {
                let out = encode_items(items, FieldTypeView::Scalar(p), name, j);
                &&& out[3 * (k - j)] == (EventView::StartElement { name })
                &&& out[3 * (k - j) + 1] == (EventView::Characters {
                    text: fmt_scalar((#[trigger] items[k])->Scalar_0),
                })
                &&& out[3 * (k - j) + 2] == EventView::EndElement
            },
    decreases items.len() - j,
{
    if j < items.len() {
        repeated_emits_one_element_per_item(items, p, name, j + 1);
        let head = encode_item(items[j], FieldTypeView::Scalar(p), name);
        assert(head == prim_events(fmt_scalar(items[j]->Scalar_0), name, false));
        assert(head.len() == 3);
    }
}

/// A repeated field of nested structs also emits exactly one sibling
/// element per item: the stream splits into one block per item, each
/// block one well-formed element under the field's label — its first
/// event the element's start tag, its last the matching end tag, and
/// every other start tag inside it nested strictly below the top level.
pub proof fn repeated_nested_one_element_per_item(
    items: Seq<ItemView>,
    ss: StructSchemaView,
    name: Seq<char>,
    j: int,
)
    requires
        0 <= j < items.len(),
        items[j] matches ItemView::Nested(_),
    ensures
        ({
            let t = FieldTypeView::Nested(ss);
            let block = encode_item(items[j], t, name);
            &&& encode_items(items, t, name, j) == block + encode_items(items, t, name, j + 1)
            &&& block.len() >= 2
            &&& block[0] == (EventView::StartElement { name })
            &&& block.last() == EventView::EndElement
            &&& events_wf(block)
            &&& forall|q: int|
                0 < q < block.len() - 1 && (#[trigger] block[q]) is StartElement ==> open_depth(
                    block.take(q),
                ) >= 1
        }),
{
    let t = FieldTypeView::Nested(ss);
    let v = items[j]->Nested_0;
    let body = encode_fields(v.fields, ss.fields, ss.default_namespace, 0);
    let block = encode_item(items[j], t, name);
    crate::ser::lemma_encode_item_wf(items[j], t, name);
    lemma_encode_fields_wf(v.fields, ss.fields, ss.default_namespace, 0);
    let h = seq![EventView::StartElement { name }];
    let e = seq![EventView::EndElement];
    assert(block == h + body + e);
    assert(block[0] == (EventView::StartElement { name }));
    assert(block.last() == EventView::EndElement);
    assert(h.drop_last() =~= Seq::<EventView>::empty());
    assert(open_depth(Seq::<EventView>::empty()) == 0);
    assert(open_depth(h) == 1);
    assert forall|q: int|
        0 < q < block.len() - 1 && (#[trigger] block[q]) is StartElement implies open_depth(
        block.take(q),
    ) >= 1 by {
        assert(block.take(q) =~= h + body.take(q - 1));
        lemma_open_depth_concat(h, body.take(q - 1));
        lemma_never_overclosed_nonneg(body, q - 1);
    }
}

/// A step of the repeated-field round trip: with `k` items already
/// accumulated, decoding from item `k`'s element onward accumulates the
/// rest and stops at the closing tag.
proof fn lemma_repeated_decode_from(
    events: Seq<EventView>,
    s: StructSchemaView,
    lbl: Seq<char>,
    p: Prim,
    iv: Seq<ItemView>,
    k: int,
    acc: StructValueView,
)
    requires
        struct_schema_wf(s),
        s.fields.len() == 1,
        find_field(s, lbl) == Option::Some(0int),
        s.fields[0].shape == FieldShapeView::Repeated(FieldTypeView::Scalar(p)),
        forall|j: int|
            0 <= j < iv.len() ==> ((#[trigger] iv[j]) matches ItemView::Scalar(sc)
                && scalar_kind(sc) == p),
        events.len() == 2 + 3 * iv.len(),
        events[0] is StartElement,
        events[2 + 3 * iv.len() - 1] == EventView::EndElement,
        forall|j: int|
            0 <= j < iv.len() ==> {
                &&& #[trigger] events[1 + 3 * j] == (EventView::StartElement { name: lbl })
                &&& events[1 + 3 * j + 1] == (EventView::Characters {
                    text: fmt_scalar(iv[j]->Scalar_0),
                })
                &&& events[1 + 3 * j + 2] == EventView::EndElement
            },
        0 <= k <= iv.len(),
        acc.fields.len() == 1,
        acc.fields[0] == FieldValueView::Many(iv.take(k)),
    ensures
        dec_struct_body(events, 1 + 3 * k, s, acc) == Option::Some(
            (
                StructValueView { fields: acc.fields.update(0, FieldValueView::Many(iv)) },
                1 + 3 * iv.len() as int,
            ),
        ),
    decreases iv.len() - k,
{
    let n = iv.len() as int;
    if k == n {
        assert(events[1 + 3 * k] == EventView::EndElement);
        assert(iv.take(n) =~= iv);
        assert(acc.fields.update(0, FieldValueView::Many(iv)) =~= acc.fields);
        assert(dec_struct_body(events, 1 + 3 * k, s, acc) == Option::Some((acc, 1 + 3 * n)));
    } else {
        let sc = iv[k]->Scalar_0;
        assert(events[1 + 3 * k] == (EventView::StartElement { name: lbl }));
        assert(events[2 + 3 * k] == (EventView::Characters { text: fmt_scalar(sc) }));
        assert(events[3 + 3 * k] == EventView::EndElement);
        assert(spec_skip_depth(events, 3 + 3 * k, 1) == Option::Some(4 + 3 * k));
        assert(spec_skip_depth(events, 2 + 3 * k, 1) == Option::Some(4 + 3 * k));
        assert(spec_skip_element(events, 1 + 3 * k) == Option::Some(4 + 3 * k));
        assert(peek_text(events, 2 + 3 * k) == fmt_scalar(sc));
        lemma_scalar_text_round_trip(sc);
        assert(dec_scalar_elem(events, 1 + 3 * k, p) == Option::Some((sc, 4 + 3 * k)));
        assert(crate::de::dec_item(events, 1 + 3 * k, FieldTypeView::Scalar(p)) == Option::Some(
            (ItemView::Scalar(sc), 4 + 3 * k),
        ));
        assert(crate::de::dec_field_occurrence(
            events,
            1 + 3 * k,
            s.fields[0].shape,
            acc.fields[0],
        ) == Option::Some(
            (FieldValueView::Many(iv.take(k).push(ItemView::Scalar(sc))), 4 + 3 * k),
        ));
        assert(iv.take(k).push(iv[k]) =~= iv.take(k + 1));
        let acc2 = StructValueView {
            fields: acc.fields.update(0, FieldValueView::Many(iv.take(k + 1))),
        };
        assert(dec_struct_body(events, 1 + 3 * k, s, acc) == dec_struct_body(
            events,
            4 + 3 * k,
            s,
            acc2,
        ));
        lemma_repeated_decode_from(events, s, lbl, p, iv, k + 1, acc2);
        assert(acc2.fields.update(0, FieldValueView::Many(iv)) =~= acc.fields.update(
            0,
            FieldValueView::Many(iv),
        ));
    }
}

/// The repeated-field round trip: a struct whose single field is a
/// repeated scalar encodes as one sibling element per item, and decoding
/// that encoding reconstructs the same ordered sequence of items.
pub proof fn repeated_round_trip(
    items: Seq<ItemView>,
    p: Prim,
    s: StructSchemaView,
    name: Seq<char>,
)
    requires
        struct_schema_wf(s),
        s.fields.len() == 1,
        !s.fields[0].is_attribute,
        !s.fields[0].is_text_content,
        s.fields[0].shape == FieldShapeView::Repeated(FieldTypeView::Scalar(p)),
        forall|j: int|
            0 <= j < items.len() ==> ((#[trigger] items[j]) matches ItemView::Scalar(sc)
                && scalar_kind(sc) == p),
    ensures
        ({
            let v = StructValueView { fields: seq![FieldValueView::Many(items)] };
            let events = encode_struct(v, s, name, false);
            dec_struct_elem(events, 0, s) == Option::Some((v, 2 + 3 * items.len() as int))
        }),
{
    let v = StructValueView { fields: seq![FieldValueView::Many(items)] };
    let lbl = crate::ser::resolved_name(
        s.fields[0].label,
        s.fields[0].renamed,
        s.default_namespace,
    );
    let enc = encode_items(items, FieldTypeView::Scalar(p), name, 0);
    let events = encode_struct(v, s, name, false);
    let body = encode_fields(v.fields, s.fields, s.default_namespace, 0);
    assert(encode_field(v.fields[0], s.fields[0], s.default_namespace) == encode_items(
        items,
        FieldTypeView::Scalar(p),
        lbl,
        0,
    ));
    assert(body =~= encode_items(items, FieldTypeView::Scalar(p), lbl, 0));
    repeated_emits_one_element_per_item(items, p, lbl, 0);
    assert(events.len() == 2 + 3 * items.len());
    assert(events[0] == (EventView::StartElement { name }));
    assert(events[2 + 3 * items.len() - 1] == EventView::EndElement);
    assert forall|j: int| 0 <= j < items.len() implies {
        &&& #[trigger] events[1 + 3 * j] == (EventView::StartElement { name: lbl })
        &&& events[1 + 3 * j + 1] == (EventView::Characters {
            text: fmt_scalar(items[j]->Scalar_0),
        })
        &&& events[1 + 3 * j + 2] == EventView::EndElement
    } by {
        let out = encode_items(items, FieldTypeView::Scalar(p), lbl, 0);
        assert(events[1 + 3 * j] == out[3 * j]);
        assert(events[1 + 3 * j + 1] == out[3 * j + 1]);
        assert(events[1 + 3 * j + 2] == out[3 * j + 2]);
    }
    // the field's resolved label finds the field itself
    assert(find_field(s, lbl) == Option::Some(0int));
    let acc0 = default_struct(s);
    assert(acc0.fields.len() == 1);
    assert(acc0.fields[0] == FieldValueView::Many(Seq::<ItemView>::empty()));
    assert(items.take(0) =~= Seq::<ItemView>::empty());
    lemma_repeated_decode_from(events, s, lbl, p, items, 0, acc0);
    assert(acc0.fields.update(0, FieldValueView::Many(items)) =~= v.fields);
    assert(events[1 + 3 * items.len() as int] == EventView::EndElement);
}

/// Decoding a struct whose XML contains an unrecognized child element —
/// here arriving before a known scalar field — succeeds, ignores the
/// unknown subtree, and still recovers the known field.
pub proof fn unknown_child_is_skipped(
    s: StructSchemaView,
    wrapper: Seq<char>,
    unknown: Seq<char>,
    utext: Seq<char>,
    lbl: Seq<char>,
    txt: Seq<char>,
    fi: int,
    p: Prim,
    sv: ScalarView,
)
    requires
        struct_schema_wf(s),
        find_field(s, unknown) is None,
        find_field(s, lbl) == Option::Some(fi),
        0 <= fi < s.fields.len(),
        s.fields[fi].shape == FieldShapeView::Plain(FieldTypeView::Scalar(p)),
        spec_parse_scalar(txt, p) == Option::Some(sv),
    ensures
        ({
            let events = seq![
                EventView::StartElement { name: wrapper },
                EventView::StartElement { name: unknown },
                EventView::Characters { text: utext },
                EventView::EndElement,
                EventView::StartElement { name: lbl },
                EventView::Characters { text: txt },
                EventView::EndElement,
                EventView::EndElement,
            ];
            dec_struct_elem(events, 0, s) == Option::Some(
                (
                    StructValueView {
                        fields: default_struct(s).fields.update(
                            fi,
                            FieldValueView::One(ItemView::Scalar(sv)),
                        ),
                    },
                    8int,
                ),
            )
        }),
{
    let events = seq![
        EventView::StartElement { name: wrapper },
        EventView::StartElement { name: unknown },
        EventView::Characters { text: utext },
        EventView::EndElement,
        EventView::StartElement { name: lbl },
        EventView::Characters { text: txt },
        EventView::EndElement,
        EventView::EndElement,
    ];
    let acc0 = default_struct(s);
    // the unknown subtree spans positions 1 to 3 and is skipped whole
    assert(spec_skip_depth(events, 3, 1) == Option::Some(4int));
    assert(spec_skip_depth(events, 2, 1) == Option::Some(4int));
    assert(spec_skip_element(events, 1) == Option::Some(4int));
    assert(dec_struct_body(events, 1, s, acc0) == dec_struct_body(events, 4, s, acc0));
    // the known field's element spans positions 4 to 6
    assert(spec_skip_depth(events, 6, 1) == Option::Some(7int));
    assert(spec_skip_depth(events, 5, 1) == Option::Some(7int));
    assert(spec_skip_element(events, 4) == Option::Some(7int));
    assert(peek_text(events, 5) == txt);
    assert(dec_scalar_elem(events, 4, p) == Option::Some((sv, 7int)));
    assert(crate::de::dec_item(events, 4, FieldTypeView::Scalar(p)) == Option::Some(
        (ItemView::Scalar(sv), 7int),
    ));
    assert(crate::de::dec_field_occurrence(events, 4, s.fields[fi].shape, acc0.fields[fi])
        == Option::Some((FieldValueView::One(ItemView::Scalar(sv)), 7int)));
    let acc1 = StructValueView {
        fields: acc0.fields.update(fi, FieldValueView::One(ItemView::Scalar(sv))),
    };
    assert(dec_struct_body(events, 4, s, acc0) == dec_struct_body(events, 7, s, acc1));
    assert(dec_struct_body(events, 7, s, acc1) == Option::Some((acc1, 7int)));
    assert(events[7] is EndElement);
}

/// A unit variant encodes as its discriminant ordinal in decimal, as the
/// bare character text of the enum's element — the variant's name never
/// appears.
pub proof fn unit_variant_encodes_ordinal(
    v: EnumValueView,
    s: EnumSchemaView,
    name: Seq<char>,
    ord: u32,
)
    requires
        0 <= v.variant < s.variants.len(),
        v.payload is Unit,
        s.variants[v.variant].shape == VariantShapeView::Unit(ord),
    ensures
        encode_enum(v, s, name, false) == seq![
            EventView::StartElement { name },
            EventView::Characters { text: fmt_u(ord as nat) },
            EventView::EndElement,
        ],
{
    assert(encode_enum(v, s, name, false) =~= seq![
        EventView::StartElement { name },
        EventView::Characters { text: fmt_u(ord as nat) },
        EventView::EndElement,
    ]);
}

/// Decoding an enum element holding bare decimal text yields the first
/// variant declaring that discriminant, and fails when no variant does
/// (the executable decoder then reports the unmatched discriminant).
pub proof fn unit_ordinal_decode(s: EnumSchemaView, name: Seq<char>, n: u32)
    ensures
        ({
            let events = seq![
                EventView::StartElement { name },
                EventView::Characters { text: fmt_u(n as nat) },
                EventView::EndElement,
            ];
            match find_unit_variant(s, n as nat) {
                Option::Some(i) => dec_enum_elem(events, 0, s) == Option::Some(
                    (EnumValueView { variant: i, payload: VariantPayloadView::Unit }, 3int),
                ),
                Option::None => dec_enum_elem(events, 0, s) is None,
            }
        }),
{
    let events = seq![
        EventView::StartElement { name },
        EventView::Characters { text: fmt_u(n as nat) },
        EventView::EndElement,
    ];
    assert(events[0] == EventView::StartElement { name });
    assert(events[1] == EventView::Characters { text: fmt_u(n as nat) });
    assert(events[2] == EventView::EndElement);
    lemma_fmt_u_round_trip(n as nat, u32::MAX as nat);
    assert(parse_u(fmt_u(n as nat), u32::MAX as nat) == Option::Some(n as nat));
}

/// The unit-variant round trip: encoding a unit variant and decoding the
/// result yields the variant back, provided its discriminant is the
/// first with that ordinal in the schema (a duplicated ordinal decodes
/// to the earlier variant instead).
pub proof fn unit_variant_round_trip(
    v: EnumValueView,
    s: EnumSchemaView,
    name: Seq<char>,
    ord: u32,
)
    requires
        0 <= v.variant < s.variants.len(),
        v.payload is Unit,
        s.variants[v.variant].shape == VariantShapeView::Unit(ord),
        find_unit_variant(s, ord as nat) == Option::Some(v.variant),
    ensures
        dec_enum_elem(encode_enum(v, s, name, false), 0, s) == Option::Some((v, 3int)),
{
    unit_variant_encodes_ordinal(v, s, name, ord);
    unit_ordinal_decode(s, name, ord);
}

/// Transparent delegation: with the wrapping suppressed a struct emits
/// its body alone, and the ordinary encoding is exactly one wrapper pair
/// around that same body — so writes delegated transparently inside an
/// externally supplied wrapper never double the wrapper.
pub proof fn transparent_delegation(v: StructValueView, s: StructSchemaView, name: Seq<char>)
    ensures
        encode_struct(v, s, name, true) == encode_fields(
            v.fields,
            s.fields,
            s.default_namespace,
            0,
        ),
        encode_struct(v, s, name, false) == seq![EventView::StartElement { name }] + encode_struct(
            v,
            s,
            name,
            true,
        ) + seq![EventView::EndElement],
{
}

/// A struct-shaped value wrapped as a tuple-like variant's payload emits
/// exactly one pair of wrapper tags, labeled with the variant's label,
/// around the transparent body.
pub proof fn wrapped_transparent_item(v: StructValueView, ss: StructSchemaView, vlabel: Seq<char>)
    ensures
        encode_unnamed_item(ItemView::Nested(v), FieldTypeView::Nested(ss), vlabel) == seq![
            EventView::StartElement { name: vlabel },
        ] + encode_fields(v.fields, ss.fields, ss.default_namespace, 0) + seq![
            EventView::EndElement,
        ],
{
}

/// A helper for the text-content law: fields that are all attributes,
/// except the one text-content field, produce only that field's bare
/// character data.
proof fn lemma_text_only_fields(
    fvs: Seq<FieldValueView>,
    fds: Seq<FieldDescView>,
    ns: Option<Seq<char>>,
    fi: int,
    sc: ScalarView,
    j: int,
)
    requires
        fvs.len() == fds.len(),
        0 <= j <= fds.len(),
        0 <= fi < fds.len(),
        fds[fi].is_text_content,
        !fds[fi].is_attribute,
        fvs[fi] == FieldValueView::One(ItemView::Scalar(sc)),
        forall|k: int| 0 <= k < fds.len() && k != fi ==> (#[trigger] fds[k]).is_attribute,
    ensures
        encode_fields(fvs, fds, ns, j) == if j <= fi {
            seq![EventView::Characters { text: fmt_scalar(sc) }]
        } else {
            Seq::<EventView>::empty()
        },
    decreases fds.len() - j,
{
    if j < fds.len() {
        lemma_text_only_fields(fvs, fds, ns, fi, sc, j + 1);
        if j == fi {
            assert(encode_field(fvs[j], fds[j], ns) == seq![
                EventView::Characters { text: fmt_scalar(sc) },
            ]);
            assert(encode_fields(fvs, fds, ns, j) =~= seq![
                EventView::Characters { text: fmt_scalar(sc) },
            ]);
        } else {
            assert(fds[j].is_attribute);
            assert(encode_field(fvs[j], fds[j], ns) == Seq::<EventView>::empty());
            assert(encode_fields(fvs, fds, ns, j) =~= encode_fields(fvs, fds, ns, j + 1));
        }
    }
}

/// A struct whose only element-producing field is its text-content field
/// serializes to one element holding bare character data — no nested
/// elements — and that element decodes back to the same struct.
pub proof fn text_content_round_trip(
    v: StructValueView,
    s: StructSchemaView,
    name: Seq<char>,
    fi: int,
    sc: ScalarView,
    p: Prim,
)
    requires
        struct_schema_wf(s),
        v.fields.len() == s.fields.len(),
        0 <= fi < s.fields.len(),
        text_field(s) == Option::Some(fi),
        s.fields[fi].is_text_content,
        !s.fields[fi].is_attribute,
        s.fields[fi].shape == FieldShapeView::Plain(FieldTypeView::Scalar(p)),
        v.fields[fi] == FieldValueView::One(ItemView::Scalar(sc)),
        scalar_kind(sc) == p,
        forall|k: int| 0 <= k < s.fields.len() && k != fi ==> (#[trigger] s.fields[k]).is_attribute,
    ensures
        encode_struct(v, s, name, false) == seq![
            EventView::StartElement { name },
            EventView::Characters { text: fmt_scalar(sc) },
            EventView::EndElement,
        ],
        dec_struct_elem(encode_struct(v, s, name, false), 0, s) == Option::Some(
            (
                StructValueView {
                    fields: default_struct(s).fields.update(
                        fi,
                        FieldValueView::One(ItemView::Scalar(sc)),
                    ),
                },
                3int,
            ),
        ),
{
    assert(s.fields[fi].is_text_content);
    lemma_text_only_fields(v.fields, s.fields, s.default_namespace, fi, sc, 0);
    let events = seq![
        EventView::StartElement { name },
        EventView::Characters { text: fmt_scalar(sc) },
        EventView::EndElement,
    ];
    assert(encode_struct(v, s, name, false) =~= events);
    assert(events[0] == EventView::StartElement { name });
    assert(events[1] == EventView::Characters { text: fmt_scalar(sc) });
    assert(events[2] == EventView::EndElement);
    lemma_scalar_text_round_trip(sc);
    let acc0 = default_struct(s);
    let acc1 = StructValueView {
        fields: acc0.fields.update(fi, FieldValueView::One(ItemView::Scalar(sc))),
    };
    assert(dec_struct_body(events, 1, s, acc0) == dec_struct_body(events, 2, s, acc1));
    assert(dec_struct_body(events, 2, s, acc1) == Option::Some((acc1, 2int)));
    assert(dec_struct_elem(encode_struct(v, s, name, false), 0, s) == Option::Some((acc1, 3int)));
}

} // verus!
