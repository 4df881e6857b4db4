use sepserde::de::{deserialize_enum, deserialize_primitives, deserialize_struct};
use sepserde::errors::{WriteStage, XmlError};
use sepserde::events::Event;
use sepserde::schema::{
    EnumSchema, FieldDesc, FieldShape, FieldType, Prim, StructSchema, VariantDesc, VariantShape,
};
use sepserde::ser::{serialize_enum, serialize_primitives, serialize_struct, struct_to_events};
use sepserde::session::{Deserializer, Serializer};
use sepserde::value::{EnumValue, FieldValue, Item, Scalar, StructValue, VariantPayload};
use sepserde::xmlio::{enum_from_xml, enum_to_xml, events_to_xml, struct_from_xml, struct_to_xml};

fn field(label: &str, shape: FieldShape) -> FieldDesc {
    FieldDesc {
        label: label.to_string(),
        renamed: None,
        is_attribute: false,
        is_text_content: false,
        shape,
    }
}

fn start(name: &str) -> Event {
    Event::StartElement { name: name.to_string() }
}

fn chars(text: &str) -> Event {
    Event::Characters { text: text.to_string() }
}

fn prim_round_trip(v: Scalar, p: Prim) {
    let mut w = Serializer::new();
    serialize_primitives(&v, "leaf", &mut w).unwrap();
    let mut d = Deserializer::new(w.into_events());
    let back = deserialize_primitives(&mut d, p).unwrap();
    assert_eq!(back, v);
}

#[test]
fn scalar_round_trip_strings() {
    prim_round_trip(Scalar::Str(String::new()), Prim::PStr);
    prim_round_trip(Scalar::Str("hello".to_string()), Prim::PStr);
    prim_round_trip(Scalar::Str("a<b&c>\"d\"".to_string()), Prim::PStr);
}

#[test]
fn scalar_round_trip_bools() {
    prim_round_trip(Scalar::Bool(true), Prim::PBool);
    prim_round_trip(Scalar::Bool(false), Prim::PBool);
}

#[test]
fn scalar_round_trip_unsigned() {
    prim_round_trip(Scalar::U8(0), Prim::PU8);
    prim_round_trip(Scalar::U8(u8::MAX), Prim::PU8);
    prim_round_trip(Scalar::U16(u16::MAX), Prim::PU16);
    prim_round_trip(Scalar::U32(u32::MAX), Prim::PU32);
    prim_round_trip(Scalar::U64(0), Prim::PU64);
    prim_round_trip(Scalar::U64(u64::MAX), Prim::PU64);
}

#[test]
fn scalar_round_trip_signed() {
    prim_round_trip(Scalar::I8(i8::MIN), Prim::PI8);
    prim_round_trip(Scalar::I8(i8::MAX), Prim::PI8);
    prim_round_trip(Scalar::I16(-1), Prim::PI16);
    prim_round_trip(Scalar::I32(i32::MIN), Prim::PI32);
    prim_round_trip(Scalar::I64(i64::MIN), Prim::PI64);
    prim_round_trip(Scalar::I64(i64::MAX), Prim::PI64);
    prim_round_trip(Scalar::I64(0), Prim::PI64);
}

#[test]
fn formats_are_canonical() {
    let mut w = Serializer::new();
    serialize_primitives(&Scalar::I64(-42), "n", &mut w).unwrap();
    assert_eq!(w.into_events(), vec![start("n"), chars("-42"), Event::EndElement]);
    let mut w2 = Serializer::new();
    serialize_primitives(&Scalar::Bool(true), "b", &mut w2).unwrap();
    assert_eq!(w2.into_events(), vec![start("b"), chars("true"), Event::EndElement]);
}

#[test]
fn pending_name_overrides_default() {
    let mut w = Serializer::new();
    w.set_start_event_name(Some("other".to_string()));
    serialize_primitives(&Scalar::U8(7), "default", &mut w).unwrap();
    assert_eq!(w.into_events(), vec![start("other"), chars("7"), Event::EndElement]);
}

#[test]
fn skip_start_end_suppresses_wrapping() {
    let mut w = Serializer::new();
    w.set_skip_start_end(true);
    serialize_primitives(&Scalar::U8(7), "leaf", &mut w).unwrap();
    assert_eq!(w.into_events(), vec![chars("7")]);
}

fn person_schema() -> StructSchema {
    StructSchema {
        name: "Person".to_string(),
        default_namespace: None,
        fields: vec![
            field("name", FieldShape::Plain(FieldType::Scalar(Prim::PStr))),
            field("nickname", FieldShape::Optional(FieldType::Scalar(Prim::PStr))),
        ],
    }
}

#[test]
fn optional_absent_produces_no_element() {
    let s = person_schema();
    let v = StructValue {
        fields: vec![
            FieldValue::One(Item::Scalar(Scalar::Str("ada".to_string()))),
            FieldValue::Opt(None),
        ],
    };
    let events = struct_to_events(&v, &s);
    assert_eq!(
        events,
        vec![start("Person"), start("name"), chars("ada"), Event::EndElement, Event::EndElement],
    );
}

#[test]
fn optional_missing_decodes_to_absent() {
    let s = person_schema();
    let events = vec![
        start("Person"),
        start("name"),
        chars("ada"),
        Event::EndElement,
        Event::EndElement,
    ];
    let mut d = Deserializer::new(events);
    let v = deserialize_struct(&mut d, &s).unwrap();
    assert_eq!(v.fields[0], FieldValue::One(Item::Scalar(Scalar::Str("ada".to_string()))));
    assert_eq!(v.fields[1], FieldValue::Opt(None));
}

#[test]
fn optional_present_round_trips() {
    let s = person_schema();
    let v = StructValue {
        fields: vec![
            FieldValue::One(Item::Scalar(Scalar::Str("ada".to_string()))),
            FieldValue::Opt(Some(Item::Scalar(Scalar::Str("al".to_string())))),
        ],
    };
    let events = struct_to_events(&v, &s);
    let mut d = Deserializer::new(events);
    let back = deserialize_struct(&mut d, &s).unwrap();
    assert_eq!(back, v);
}

fn list_schema() -> StructSchema {
    StructSchema {
        name: "List".to_string(),
        default_namespace: None,
        fields: vec![field("item", FieldShape::Repeated(FieldType::Scalar(Prim::PU32)))],
    }
}

fn list_value(ns: &[u32]) -> StructValue {
    StructValue {
        fields: vec![
            FieldValue::Many(ns.iter().map(|n| Item::Scalar(Scalar::U32(*n))).collect()),
        ],
    }
}

#[test]
fn repeated_emits_one_element_per_item() {
    for n in [0usize, 1, 3] {
        let ns: Vec<u32> = (0..n as u32).map(|k| k * 10 + 1).collect();
        let events = struct_to_events(&list_value(&ns), &list_schema());
        let starts = events
            .iter()
            .filter(|e| matches!(e, Event::StartElement { name } if name == "item"))
            .count();
        assert_eq!(starts, n);
    }
}

#[test]
fn repeated_round_trips_in_order() {
    let v = list_value(&[5, 4, 99]);
    let events = struct_to_events(&v, &list_schema());
    let mut d = Deserializer::new(events);
    let back = deserialize_struct(&mut d, &list_schema()).unwrap();
    assert_eq!(back, v);
}

#[test]
fn unknown_children_are_skipped_any_order() {
    let s = person_schema();
    // fields out of declaration order, one unrecognized subtree between them
    let events = vec![
        start("Person"),
        start("nickname"),
        chars("al"),
        Event::EndElement,
        start("mystery"),
        start("inner"),
        chars("zzz"),
        Event::EndElement,
        Event::EndElement,
        start("name"),
        chars("ada"),
        Event::EndElement,
        Event::EndElement,
    ];
    let mut d = Deserializer::new(events);
    let v = deserialize_struct(&mut d, &s).unwrap();
    assert_eq!(v.fields[0], FieldValue::One(Item::Scalar(Scalar::Str("ada".to_string()))));
    assert_eq!(v.fields[1], FieldValue::Opt(Some(Item::Scalar(Scalar::Str("al".to_string())))));
}

fn color_schema() -> EnumSchema {
    EnumSchema {
        name: "Color".to_string(),
        default_namespace: None,
        variants: vec![
            VariantDesc {
                label: "A".to_string(),
                renamed: None,
                shape: VariantShape::Unit(0),
            },
            VariantDesc {
                label: "B".to_string(),
                renamed: None,
                shape: VariantShape::Unit(1),
            },
            VariantDesc {
                label: "C".to_string(),
                renamed: None,
                shape: VariantShape::Unit(2),
            },
        ],
    }
}

#[test]
fn unit_variant_encodes_as_ordinal_text() {
    let v = EnumValue { variant: 1, payload: VariantPayload::Unit };
    let mut w = Serializer::new();
    serialize_enum(&v, &color_schema(), &mut w).unwrap();
    assert_eq!(w.into_events(), vec![start("Color"), chars("1"), Event::EndElement]);
}

#[test]
fn unit_ordinal_decodes_to_variant() {
    let events = vec![start("Color"), chars("1"), Event::EndElement];
    let mut d = Deserializer::new(events);
    let v = deserialize_enum(&mut d, &color_schema()).unwrap();
    assert_eq!(v.variant, 1);
    assert_eq!(v.payload, VariantPayload::Unit);
}

#[test]
fn unknown_ordinal_is_rejected() {
    let events = vec![start("Color"), chars("9"), Event::EndElement];
    let mut d = Deserializer::new(events);
    assert_eq!(deserialize_enum(&mut d, &color_schema()), Err(XmlError::UnknownDiscriminant));
}

#[test]
fn transparent_delegation_single_wrapper() {
    let s = StructSchema {
        name: "Inner".to_string(),
        default_namespace: None,
        fields: vec![field("x", FieldShape::Plain(FieldType::Scalar(Prim::PU8)))],
    };
    let v = StructValue { fields: vec![FieldValue::One(Item::Scalar(Scalar::U8(3)))] };
    let mut w = Serializer::new();
    w.write(start("wrap"));
    for _ in 0..3 {
        w.set_start_event_name(None);
        w.set_skip_start_end(true);
        serialize_struct(&v, &s, &mut w).unwrap();
    }
    w.write(Event::EndElement);
    let events = w.into_events();
    let wrap_starts = events
        .iter()
        .filter(|e| matches!(e, Event::StartElement { name } if name == "wrap"))
        .count();
    let inner_starts = events
        .iter()
        .filter(|e| matches!(e, Event::StartElement { name } if name == "Inner"))
        .count();
    assert_eq!(wrap_starts, 1);
    assert_eq!(inner_starts, 0);
    assert_eq!(events.len(), 11);
}

fn note_schema() -> StructSchema {
    StructSchema {
        name: "Note".to_string(),
        default_namespace: None,
        fields: vec![FieldDesc {
            label: "content".to_string(),
            renamed: None,
            is_attribute: false,
            is_text_content: true,
            shape: FieldShape::Plain(FieldType::Scalar(Prim::PStr)),
        }],
    }
}

#[test]
fn text_content_field_has_no_nested_elements() {
    let v = StructValue {
        fields: vec![FieldValue::One(Item::Scalar(Scalar::Str("remember".to_string())))],
    };
    let events = struct_to_events(&v, &note_schema());
    assert_eq!(events, vec![start("Note"), chars("remember"), Event::EndElement]);
    let mut d = Deserializer::new(events);
    let back = deserialize_struct(&mut d, &note_schema()).unwrap();
    assert_eq!(back, v);
}

#[test]
fn nested_struct_round_trips() {
    let inner = StructSchema {
        name: "Point".to_string(),
        default_namespace: None,
        fields: vec![
            field("x", FieldShape::Plain(FieldType::Scalar(Prim::PI32))),
            field("y", FieldShape::Plain(FieldType::Scalar(Prim::PI32))),
        ],
    };
    let s = StructSchema {
        name: "Shape".to_string(),
        default_namespace: None,
        fields: vec![field("origin", FieldShape::Plain(FieldType::Nested(Box::new(inner))))],
    };
    let v = StructValue {
        fields: vec![FieldValue::One(Item::Nested(Box::new(StructValue {
            fields: vec![
                FieldValue::One(Item::Scalar(Scalar::I32(-4))),
                FieldValue::One(Item::Scalar(Scalar::I32(9))),
            ],
        })))],
    };
    let events = struct_to_events(&v, &s);
    assert_eq!(events[1], start("origin"));
    let mut d = Deserializer::new(events);
    let back = deserialize_struct(&mut d, &s).unwrap();
    assert_eq!(back, v);
}

#[test]
fn renamed_label_and_namespace_prefix() {
    let s = StructSchema {
        name: "Doc".to_string(),
        default_namespace: Some("ns".to_string()),
        fields: vec![FieldDesc {
            label: "title".to_string(),
            renamed: Some("heading".to_string()),
            is_attribute: false,
            is_text_content: false,
            shape: FieldShape::Plain(FieldType::Scalar(Prim::PStr)),
        }],
    };
    let v = StructValue {
        fields: vec![FieldValue::One(Item::Scalar(Scalar::Str("t".to_string())))],
    };
    let events = struct_to_events(&v, &s);
    assert_eq!(events[0], start("ns:Doc"));
    assert_eq!(events[1], start("ns:heading"));
}

#[test]
fn tuple_variant_wraps_scalar_under_variant_label() {
    let s = EnumSchema {
        name: "Msg".to_string(),
        default_namespace: None,
        variants: vec![VariantDesc {
            label: "Text".to_string(),
            renamed: None,
            shape: VariantShape::Unnamed(FieldShape::Plain(FieldType::Scalar(Prim::PStr))),
        }],
    };
    let v = EnumValue {
        variant: 0,
        payload: VariantPayload::Unnamed(FieldValue::One(Item::Scalar(Scalar::Str(
            "hi".to_string(),
        )))),
    };
    let mut w = Serializer::new();
    serialize_enum(&v, &s, &mut w).unwrap();
    let events = w.into_events();
    assert_eq!(
        events,
        vec![
            start("Msg"),
            start("Text"),
            chars("hi"),
            Event::EndElement,
            Event::EndElement,
        ],
    );
    let mut d = Deserializer::new(events);
    let back = deserialize_enum(&mut d, &s).unwrap();
    assert_eq!(back, v);
}

#[test]
fn unmatched_variant_label_is_rejected() {
    let events = vec![start("Color"), start("Mystery"), Event::EndElement, Event::EndElement];
    let mut d = Deserializer::new(events);
    assert_eq!(
        deserialize_enum(&mut d, &color_schema()),
        Err(XmlError::AmbiguousOrUnmatchedVariant),
    );
}

#[test]
fn bad_number_is_a_parse_failure() {
    let s = list_schema();
    let events = vec![
        start("List"),
        start("item"),
        chars("twelve"),
        Event::EndElement,
        Event::EndElement,
    ];
    let mut d = Deserializer::new(events);
    assert_eq!(
        deserialize_struct(&mut d, &s),
        Err(XmlError::PrimitiveParseFailure("twelve".to_string())),
    );
}

#[test]
fn missing_start_element_is_reported() {
    let mut d = Deserializer::new(vec![chars("stray")]);
    assert_eq!(
        deserialize_struct(&mut d, &person_schema()),
        Err(XmlError::MissingStartElement),
    );
}

#[test]
fn unbalanced_write_is_a_write_failure() {
    assert_eq!(
        events_to_xml(&vec![Event::EndElement]),
        Err(XmlError::WriteFailure(WriteStage::EndElement)),
    );
}

#[test]
fn xml_text_round_trip_struct() {
    let s = person_schema();
    let v = StructValue {
        fields: vec![
            FieldValue::One(Item::Scalar(Scalar::Str("a<b&c".to_string()))),
            FieldValue::Opt(Some(Item::Scalar(Scalar::Str("al".to_string())))),
        ],
    };
    let text = struct_to_xml(&v, &s).unwrap();
    assert!(text.contains("Person"));
    let back = struct_from_xml(&text, &s).unwrap();
    assert_eq!(back, v);
}

#[test]
fn namespaced_document_decodes_by_qualified_name() {
    // a document that declares its prefix parses with qualified names,
    // which match the schema's resolved labels
    let s = StructSchema {
        name: "Doc".to_string(),
        default_namespace: Some("ns".to_string()),
        fields: vec![FieldDesc {
            label: "title".to_string(),
            renamed: Some("heading".to_string()),
            is_attribute: false,
            is_text_content: false,
            shape: FieldShape::Plain(FieldType::Scalar(Prim::PStr)),
        }],
    };
    let text = "<ns:Doc xmlns:ns=\"urn:x\"><ns:heading>t</ns:heading></ns:Doc>";
    let v = struct_from_xml(text, &s).unwrap();
    assert_eq!(
        v.fields[0],
        FieldValue::One(Item::Scalar(Scalar::Str("t".to_string()))),
    );
}

#[test]
fn namespaced_output_lacks_declarations() {
    // the engine carries element names only, never attributes, so its
    // prefixed output declares no namespaces and the strict parser
    // rejects it: the decode reports the unusable stream
    let s = StructSchema {
        name: "Doc".to_string(),
        default_namespace: Some("ns".to_string()),
        fields: vec![field("title", FieldShape::Plain(FieldType::Scalar(Prim::PStr)))],
    };
    let v = StructValue {
        fields: vec![FieldValue::One(Item::Scalar(Scalar::Str("t".to_string())))],
    };
    let text = struct_to_xml(&v, &s).unwrap();
    assert_eq!(struct_from_xml(&text, &s), Err(XmlError::MissingStartElement));
}

#[test]
fn xml_text_round_trip_enum() {
    let s = color_schema();
    let v = EnumValue { variant: 2, payload: VariantPayload::Unit };
    let text = enum_to_xml(&v, &s).unwrap();
    assert!(text.contains('2'));
    let back = enum_from_xml(&text, &s).unwrap();
    assert_eq!(back, v);
}
