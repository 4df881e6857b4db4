//! Lexical XML events: the engine reads and writes streams of these.

use vstd::prelude::*;

verus! {

/// The mathematical form of one lexical XML event.
#[verifier::ext_equal]
pub enum EventView {
    StartElement { name: Seq<char> },
    EndElement,
    Characters { text: Seq<char> },
}

/// One lexical XML event. A serializer emits these in order; a
/// deserializer pulls them one at a time with a single event of lookahead.
#[derive(PartialEq, Eq, Debug)]
pub enum Event {
    StartElement { name: String },
    EndElement,
    Characters { text: String },
}

impl View for Event {
    type V = EventView;

    open spec fn view(&self) -> EventView {
        match self {
            Event::StartElement { name } => EventView::StartElement { name: name@ },
            Event::EndElement => EventView::EndElement,
            Event::Characters { text } => EventView::Characters { text: text@ },
        }
    }
}

impl Clone for Event {
    fn clone(&self) -> (res: Event)
        ensures
            res@ == self@,
    {
        match self {
            Event::StartElement { name } => Event::StartElement { name: name.clone() },
            Event::EndElement => Event::EndElement,
            Event::Characters { text } => Event::Characters { text: text.clone() },
        }
    }
}

/// The views of a whole stream of events, in order.
pub open spec fn stream_view(v: Seq<Event>) -> Seq<EventView> {
    v.map_values(|e: Event| e@)
}

/// How many elements a stream leaves open: one per start element not yet
/// matched by an end element.
pub open spec fn open_depth(events: Seq<EventView>) -> int
    decreases events.len(),
{
    if events.len() == 0 {
        0
    } else {
        open_depth(events.drop_last()) + match events.last() {
            EventView::StartElement { .. } => 1int,
            EventView::EndElement => -1int,
            EventView::Characters { .. } => 0int,
        }
    }
}

/// No prefix of the stream closes an element that is not open.
pub open spec fn never_overclosed(events: Seq<EventView>) -> bool {
    forall|i: int|
        0 <= i < events.len() && (#[trigger] events[i]) is EndElement ==> open_depth(
            events.take(i),
        ) > 0
}

/// A well-formed stream: balanced overall, and never closing early. Every
/// stream the engine's encoders emit is of this form.
pub open spec fn events_wf(events: Seq<EventView>) -> bool {
    &&& open_depth(events) == 0
    &&& never_overclosed(events)
}

} // verus!
