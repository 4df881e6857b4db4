//! Session state: the serializer owns the outgoing event stream together
//! with the small caller/callee protocol fields (`pending_start_name`,
//! `skip_start_end`); the deserializer owns the incoming event stream and
//! a cursor giving one event of lookahead.

use vstd::prelude::*;

use crate::events::{Event, EventView, stream_view};
use crate::schema::opt_string_view;

verus! {

/// Mutable cursor state for one serialize call tree. Created once per
/// top-level invocation and threaded through every recursive step; it
/// must never be shared across concurrent call trees.
pub struct Serializer {
    /// The events emitted so far, in order.
    pub out: Vec<Event>,
    /// Overrides the element name the next nested value must use instead
    /// of its own default name. Consumed (cleared) by the next callee.
    pub pending_start_name: Option<String>,
    /// When set, the next callee must not emit its own wrapping start and
    /// end element, because the caller already did.
    pub skip_start_end: bool,
}

impl Serializer {
    /// The views of the events written so far.
    pub open spec fn written(&self) -> Seq<EventView> {
        stream_view(self.out@)
    }

    pub open spec fn pending_view(&self) -> Option<Seq<char>> {
        opt_string_view(self.pending_start_name)
    }

    pub fn new() -> (w: Serializer)
        ensures
            w.written() == Seq::<EventView>::empty(),
            w.pending_start_name is None,
            w.skip_start_end == false,
    {
        let w = Serializer {
            out: Vec::new(),
            pending_start_name: Option::None,
            skip_start_end: false,
        };
        proof {
            assert(w.written() =~= Seq::<EventView>::empty());
        }
        w
    }

    /// Emit one event to the output stream.
    pub fn write(&mut self, e: Event)
        ensures
            final(self).written() == old(self).written().push(e@),
            final(self).pending_start_name == old(self).pending_start_name,
            final(self).skip_start_end == old(self).skip_start_end,
    {
        let ghost prev = self.out@;
        self.out.push(e);
        proof {
            assert(stream_view(self.out@) =~= stream_view(prev).push(e@));
        }
    }

    /// Read and clear the pending start-name override: the override binds
    /// the immediate callee only, never transitively.
    pub fn take_start_event_name(&mut self) -> (r: Option<String>)
        ensures
            r == old(self).pending_start_name,
            final(self).pending_start_name is None,
            final(self).out == old(self).out,
            final(self).skip_start_end == old(self).skip_start_end,
    {
        let r = match &self.pending_start_name {
            Option::Some(n) => Option::Some(n.clone()),
            Option::None => Option::None,
        };
        self.pending_start_name = Option::None;
        r
    }

    pub fn set_start_event_name(&mut self, name: Option<String>)
        ensures
            final(self).pending_start_name == name,
            final(self).out == old(self).out,
            final(self).skip_start_end == old(self).skip_start_end,
    {
        self.pending_start_name = name;
    }

    pub fn set_skip_start_end(&mut self, skip: bool)
        ensures
            final(self).skip_start_end == skip,
            final(self).out == old(self).out,
            final(self).pending_start_name == old(self).pending_start_name,
    {
        self.skip_start_end = skip;
    }

    pub fn skip_start_end(&self) -> (r: bool)
        ensures
            r == self.skip_start_end,
    {
        self.skip_start_end
    }

    /// Hand out the finished event stream.
    pub fn into_events(self) -> (r: Vec<Event>)
        ensures
            stream_view(r@) == self.written(),
    {
        self.out
    }
}

/// Mutable cursor state for one deserialize call tree: the event stream
/// and the position of the next event. `peek` looks at the next event
/// without consuming it; `next_event` consumes it.
pub struct Deserializer {
    pub events: Vec<Event>,
    pub pos: usize,
}

impl Deserializer {
    /// The views of the whole event stream.
    pub open spec fn stream(&self) -> Seq<EventView> {
        stream_view(self.events@)
    }

    pub open spec fn wf(&self) -> bool {
        self.pos <= self.events@.len()
    }

    pub fn new(events: Vec<Event>) -> (d: Deserializer)
        ensures
            d.wf(),
            d.stream() == stream_view(events@),
            d.pos == 0,
    {
        Deserializer { events, pos: 0 }
    }

    /// The next event, without consuming it; idempotent until
    /// `next_event` is called. Returns nothing at end of stream.
    pub fn peek(&self) -> (r: Option<&Event>)
        requires
            self.wf(),
        ensures
            match r {
                Option::Some(e) => self.pos < self.stream().len()
                    && e@ == self.stream()[self.pos as int],
                Option::None => self.pos == self.stream().len(),
            },
    {
        if self.pos < self.events.len() {
            Option::Some(&self.events[self.pos])
        } else {
            Option::None
        }
    }

    /// Consume and return the next event; returns nothing at end of
    /// stream.
    pub fn next_event(&mut self) -> (r: Option<Event>)
        requires
            old(self).wf(),
        ensures
            final(self).wf(),
            final(self).stream() == old(self).stream(),
            match r {
                Option::Some(e) => {
                    &&& old(self).pos < old(self).stream().len()
                    &&& e@ == old(self).stream()[old(self).pos as int]
                    &&& final(self).pos == old(self).pos + 1
                },
                Option::None => {
                    &&& old(self).pos == old(self).stream().len()
                    &&& final(self).pos == old(self).pos
                },
            },
    {
        if self.pos < self.events.len() {
            let e = self.events[self.pos].clone();
            self.pos = self.pos + 1;
            Option::Some(e)
        } else {
            Option::None
        }
    }
}

} // verus!
