//! The boundary with the underlying XML tokenizer and writer: the engine
//! works on event streams, and this module turns a finished stream into
//! XML document text and document text back into a stream, through
//! `xml_no_std`'s event writer and pull parser.

use vstd::prelude::*;

use crate::errors::{WriteStage, XmlError, error_view};
use crate::events::{Event, EventView, never_overclosed, open_depth, stream_view};
use crate::schema::{
    EnumSchema, StructSchema, enum_schema_view, enum_schema_wf, opt_string_view,
    struct_schema_view, struct_schema_wf,
};
use crate::ser::{
    encode_enum, encode_struct, enum_to_events, lemma_encode_enum_wf, lemma_encode_struct_wf,
    resolved_name, struct_to_events,
};
use crate::session::Deserializer;
use crate::de::{dec_enum_elem, dec_struct_elem, deserialize_enum, deserialize_struct};
use crate::value::{
    EnumValue, StructValue, enum_conforms, enum_value_view, struct_conforms, struct_value_view,
};

verus! {

#[verifier::external_type_specification]
#[verifier::external_body]
pub struct ExEventWriter(xml_no_std::writer::EventWriter);

/// What the underlying event writer has successfully been fed so far, in
/// order.
pub uninterp spec fn written_events(w: xml_no_std::writer::EventWriter) -> Seq<EventView>;

/// The document text that the underlying writer produces, with its
/// default configuration, for a given stream of events.
pub uninterp spec fn rendering_of(events: Seq<EventView>) -> Seq<char>;

/// Relies on `xml_no_std::writer::EventWriter::new`: a fresh writer over
/// an empty string sink has been fed nothing.
#[verifier::external_body]
fn writer_new() -> (w: xml_no_std::writer::EventWriter)
    ensures
        written_events(w) == Seq::<EventView>::empty(),
{
    xml_no_std::writer::EventWriter::new()
}

/// Relies on `EventWriter::write` with a start-element event: the
/// emitter's start-element path returns no error, so exactly that event
/// is appended.
#[verifier::external_body]
fn writer_write_start(w: &mut xml_no_std::writer::EventWriter, name: &str)
    ensures
        written_events(*final(w)) == written_events(*old(w)).push(
            EventView::StartElement { name: name@ },
        ),
{
    let _ = w.write(xml_no_std::writer::XmlEvent::start_element(name));
}

/// Relies on `EventWriter::write` with a characters event: the emitter's
/// characters path returns no error, so exactly that event is appended.
#[verifier::external_body]
fn writer_write_characters(w: &mut xml_no_std::writer::EventWriter, text: &str)
    ensures
        written_events(*final(w)) == written_events(*old(w)).push(
            EventView::Characters { text: text@ },
        ),
{
    let _ = w.write(xml_no_std::writer::XmlEvent::characters(text));
}

/// Relies on `EventWriter::write` with an end-element event: the emitter
/// fails exactly when no element is open — its element-name stack holds
/// one entry per unclosed start — and then leaves the document untouched;
/// otherwise exactly that event is appended.
#[verifier::external_body]
fn writer_write_end(w: &mut xml_no_std::writer::EventWriter) -> (r: Result<(), ()>)
    ensures
        open_depth(written_events(*old(w))) > 0 ==> {
            &&& r is Ok
            &&& written_events(*final(w)) == written_events(*old(w)).push(EventView::EndElement)
        },
        open_depth(written_events(*old(w))) <= 0 ==> {
            &&& r is Err
            &&& written_events(*final(w)) == written_events(*old(w))
        },
{
    match w.write(xml_no_std::writer::XmlEvent::end_element()) {
        Result::Ok(_) => Result::Ok(()),
        Result::Err(_) => Result::Err(()),
    }
}

/// Relies on `EventWriter::into_inner`: the finished document text,
/// which with the default configuration depends on the written events
/// alone.
#[verifier::external_body]
fn writer_finish(w: xml_no_std::writer::EventWriter) -> (r: String)
    ensures
        r@ == rendering_of(written_events(w)),
{
    w.into_inner()
}

/// Render a finished event stream as XML document text. Rendering
/// succeeds exactly when no prefix of the stream closes an element that
/// is not open; the only write that can fail at the underlying emitter
/// is such an end-element write.
pub fn events_to_xml(events: &Vec<Event>) -> (r: Result<String, XmlError>)
    ensures
        match r {
            Result::Ok(t) => {
                &&& never_overclosed(stream_view(events@))
                &&& t@ == rendering_of(stream_view(events@))
            },
            Result::Err(e) => {
                &&& e == XmlError::WriteFailure(WriteStage::EndElement)
                &&& !never_overclosed(stream_view(events@))
            },
        },
{
    let ghost sv = stream_view(events@);
    let mut w = writer_new();
    let mut i: usize = 0;
    while i < events.len()
        invariant
            sv == stream_view(events@),
            i <= events@.len(),
            written_events(w) == sv.take(i as int),
            forall|j: int|
                0 <= j < i && (#[trigger] sv[j]) is EndElement ==> open_depth(sv.take(j)) > 0,
        decreases events@.len() - i,
    {
        match &events[i] {
            Event::StartElement { name } => writer_write_start(&mut w, name.as_str()),
            Event::Characters { text } => writer_write_characters(&mut w, text.as_str()),
            Event::EndElement => {
                match writer_write_end(&mut w) {
                    Result::Ok(_) => {
                        proof {
                            assert(open_depth(sv.take(i as int)) > 0);
                        }
                    },
                    Result::Err(_) => {
                        proof {
                            assert(open_depth(sv.take(i as int)) <= 0);
                            assert(sv[i as int] is EndElement);
                            assert(!never_overclosed(sv));
                        }
                        return Result::Err(XmlError::WriteFailure(WriteStage::EndElement));
                    },
                }
            },
        }
        proof {
            assert(sv.take(i + 1) =~= sv.take(i as int).push(sv[i as int]));
        }
        i = i + 1;
    }
    proof {
        assert(sv.take(events@.len() as int) =~= sv);
    }
    Result::Ok(writer_finish(w))
}

/// One lexical event as the pull parser hands it over, reduced to what
/// the engine consumes: document edges, comments, processing
/// instructions and whitespace are dressing; parse errors and the
/// document's end both finish the stream.
enum ReadEvent {
    Start(String),
    End,
    Text(String),
    Dressing,
    Finished,
}

#[verifier::external_body]
struct RawReader<'a> {
    inner: xml_no_std::reader::EventReader<'a, core::slice::Iter<'a, u8>>,
}

/// The engine-relevant events the default-configuration pull parser
/// yields for a document text, in order: start elements under their
/// qualified name, end elements, character and CDATA text — up to the
/// document's end or its first parse error. With a fixed configuration
/// the parser is deterministic, so this is a function of the text alone.
pub uninterp spec fn parsed_events_of(text: Seq<char>) -> Seq<EventView>;

/// The engine-relevant events a reader has not yet handed over.
pub uninterp spec fn reader_remaining(r: RawReader<'_>) -> Seq<EventView>;

/// An upper bound on how many more events (of any kind) the reader can
/// yield before finishing: the parser consumes at least one byte of its
/// input per yielded event, besides the two document-edge events.
pub uninterp spec fn reader_budget(r: RawReader<'_>) -> nat;

/// Relies on `xml_no_std::reader::EventReader::from_str`: a pull parser
/// over the document text, which has yielded nothing yet.
#[verifier::external_body]
fn raw_reader_new(text: &str) -> (r: RawReader<'_>)
    ensures
        reader_remaining(r) == parsed_events_of(text@),
        reader_budget(r) <= text@.len() + 2,
{
    RawReader { inner: xml_no_std::reader::EventReader::from_str(text) }
}

/// Relies on `EventReader::next`: the next lexical event of the
/// document. The variants are only told apart and their text moved out;
/// a start element's name is rebuilt in its qualified `prefix:local`
/// form, as the document spells it. After the document's end or an
/// error, the parser keeps returning that terminal event.
#[verifier::external_body]
fn raw_reader_next(r: &mut RawReader<'_>) -> (e: ReadEvent)
    ensures
        match e {
            ReadEvent::Start(n) => {
                &&& reader_remaining(*old(r)).len() > 0
                &&& reader_remaining(*old(r))[0] == (EventView::StartElement { name: n@ })
                &&& reader_remaining(*final(r)) == reader_remaining(*old(r)).drop_first()
                &&& reader_budget(*final(r)) < reader_budget(*old(r))
            },
            ReadEvent::End => {
                &&& reader_remaining(*old(r)).len() > 0
                &&& reader_remaining(*old(r))[0] == EventView::EndElement
                &&& reader_remaining(*final(r)) == reader_remaining(*old(r)).drop_first()
                &&& reader_budget(*final(r)) < reader_budget(*old(r))
            },
            ReadEvent::Text(t) => {
                &&& reader_remaining(*old(r)).len() > 0
                &&& reader_remaining(*old(r))[0] == (EventView::Characters { text: t@ })
                &&& reader_remaining(*final(r)) == reader_remaining(*old(r)).drop_first()
                &&& reader_budget(*final(r)) < reader_budget(*old(r))
            },
            ReadEvent::Dressing => {
                &&& reader_remaining(*final(r)) == reader_remaining(*old(r))
                &&& reader_budget(*final(r)) < reader_budget(*old(r))
            },
            ReadEvent::Finished => {
                &&& reader_remaining(*old(r)).len() == 0
                &&& reader_remaining(*final(r)) == reader_remaining(*old(r))
            },
        },
{
    match r.inner.next() {
        Result::Ok(xml_no_std::reader::XmlEvent::StartElement { name, .. }) => ReadEvent::Start(
            match name.prefix {
                Option::Some(p) => format!("{}:{}", p, name.local_name),
                Option::None => name.local_name,
            },
        ),
        Result::Ok(xml_no_std::reader::XmlEvent::EndElement { .. }) => ReadEvent::End,
        Result::Ok(xml_no_std::reader::XmlEvent::Characters(t)) => ReadEvent::Text(t),
        Result::Ok(xml_no_std::reader::XmlEvent::CData(t)) => ReadEvent::Text(t),
        Result::Ok(xml_no_std::reader::XmlEvent::EndDocument) => ReadEvent::Finished,
        Result::Ok(_) => ReadEvent::Dressing,
        Result::Err(_) => ReadEvent::Finished,
    }
}

/// Pull the document apart into the engine's events: exactly the
/// parser's event stream for this text.
pub fn xml_to_events(text: &str) -> (r: Vec<Event>)
    ensures
        stream_view(r@) == parsed_events_of(text@),
{
    let mut reader = raw_reader_new(text);
    let mut out: Vec<Event> = Vec::new();
    proof {
        assert(stream_view(out@) =~= Seq::<EventView>::empty());
    }
    loop
        invariant
            stream_view(out@) + reader_remaining(reader) == parsed_events_of(text@),
        decreases reader_budget(reader),
    {
        let ghost prev_out = out@;
        let ghost prev_rem = reader_remaining(reader);
        match raw_reader_next(&mut reader) {
            ReadEvent::Start(name) => {
                out.push(Event::StartElement { name });
            },
            ReadEvent::End => {
                out.push(Event::EndElement);
            },
            ReadEvent::Text(text) => {
                out.push(Event::Characters { text });
            },
            ReadEvent::Dressing => {},
            ReadEvent::Finished => {
                proof {
                    assert(stream_view(out@) =~= stream_view(out@) + reader_remaining(reader));
                }
                return out;
            },
        }
        proof {
            if out@.len() > prev_out.len() {
                assert(stream_view(out@) =~= stream_view(prev_out).push(
                    out@[out@.len() - 1]@,
                ));
                assert(stream_view(out@) + reader_remaining(reader) =~= stream_view(prev_out)
                    + prev_rem);
            }
        }
    }
}

// ---------------------------------------------------------------------
// Whole-document entry points.
// ---------------------------------------------------------------------

/// Serialize a struct to XML document text: its verified event stream,
/// rendered by the underlying writer. Encoded streams are well formed,
/// so rendering always succeeds.
pub fn struct_to_xml(v: &StructValue, s: &StructSchema) -> (r: Result<String, XmlError>)
    requires
        struct_conforms(struct_value_view(*v), struct_schema_view(*s)),
        struct_schema_wf(struct_schema_view(*s)),
    ensures
        r matches Result::Ok(t) && t@ == rendering_of(
            encode_struct(
                struct_value_view(*v),
                struct_schema_view(*s),
                resolved_name(s.name@, Option::None, opt_string_view(s.default_namespace)),
                false,
            ),
        ),
{
    let events = struct_to_events(v, s);
    proof {
        lemma_encode_struct_wf(
            struct_value_view(*v),
            struct_schema_view(*s),
            resolved_name(s.name@, Option::None, opt_string_view(s.default_namespace)),
            false,
        );
    }
    match events_to_xml(&events) {
        Result::Ok(t) => Result::Ok(t),
        Result::Err(e) => {
            proof {
                assert(false);
            }
            Result::Err(e)
        },
    }
}

/// Serialize an enum value to XML document text; rendering always
/// succeeds.
pub fn enum_to_xml(v: &EnumValue, s: &EnumSchema) -> (r: Result<String, XmlError>)
    requires
        enum_conforms(enum_value_view(*v), enum_schema_view(*s)),
        enum_schema_wf(enum_schema_view(*s)),
    ensures
        r matches Result::Ok(t) && t@ == rendering_of(
            encode_enum(
                enum_value_view(*v),
                enum_schema_view(*s),
                resolved_name(s.name@, Option::None, opt_string_view(s.default_namespace)),
                false,
            ),
        ),
{
    let events = enum_to_events(v, s);
    proof {
        lemma_encode_enum_wf(
            enum_value_view(*v),
            enum_schema_view(*s),
            resolved_name(s.name@, Option::None, opt_string_view(s.default_namespace)),
            false,
        );
    }
    match events_to_xml(&events) {
        Result::Ok(t) => Result::Ok(t),
        Result::Err(e) => {
            proof {
                assert(false);
            }
            Result::Err(e)
        },
    }
}

/// Deserialize a struct from XML document text: the parser's event
/// stream for this text, decoded by the verified decoder — success and
/// the returned value are exactly what that decode yields.
pub fn struct_from_xml(text: &str, s: &StructSchema) -> (r: Result<StructValue, XmlError>)
    requires
        struct_schema_wf(struct_schema_view(*s)),
    ensures
        match r {
            Result::Ok(v) => dec_struct_elem(
                parsed_events_of(text@),
                0,
                struct_schema_view(*s),
            ) matches Option::Some((vv, _)) && vv == struct_value_view(v),
            Result::Err(e) => {
                &&& dec_struct_elem(parsed_events_of(text@), 0, struct_schema_view(*s)) is None
                &&& (error_view(e) is MissingStartElement || error_view(e)
                    is PrimitiveParseFailure)
            },
        },
{
    let events = xml_to_events(text);
    let mut d = Deserializer::new(events);
    deserialize_struct(&mut d, s)
}

/// Deserialize an enum value from XML document text; success and the
/// returned value are exactly what the verified decoder yields on the
/// parser's event stream.
pub fn enum_from_xml(text: &str, s: &EnumSchema) -> (r: Result<EnumValue, XmlError>)
    requires
        enum_schema_wf(enum_schema_view(*s)),
    ensures
        match r {
            Result::Ok(v) => dec_enum_elem(
                parsed_events_of(text@),
                0,
                enum_schema_view(*s),
            ) matches Option::Some((vv, _)) && vv == enum_value_view(v),
            Result::Err(_) => dec_enum_elem(
                parsed_events_of(text@),
                0,
                enum_schema_view(*s),
            ) is None,
        },
{
    let events = xml_to_events(text);
    let mut d = Deserializer::new(events);
    deserialize_enum(&mut d, s)
}

} // verus!
