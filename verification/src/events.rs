//! The ring of recent events that the console shows.

use crate::text;
use std::collections::VecDeque;
use vstd::prelude::*;

verus! {

/// An event, with the start of its payload.
#[derive(Debug)]
pub struct ConsoleEvent {
    pub session_id: String,
    pub event_type: String,
    pub payload_preview: String,
    /// Unix time in milliseconds.
    pub at_epoch_ms: i64,
}

/// What a [`ConsoleEvent`] says.
#[verifier::ext_equal]
pub struct EventView {
    pub session_id: Seq<char>,
    pub event_type: Seq<char>,
    pub payload_preview: Seq<char>,
    pub at_epoch_ms: i64,
}

impl View for ConsoleEvent {
    type V = EventView;

    open spec fn view(&self) -> EventView {
        EventView {
            session_id: self.session_id@,
            event_type: self.event_type@,
            payload_preview: self.payload_preview@,
            at_epoch_ms: self.at_epoch_ms,
        }
    }
}

impl Clone for ConsoleEvent {
    fn clone(&self) -> (copy: Self)
        ensures
            copy@ == self@,
    {
        ConsoleEvent {
            session_id: self.session_id.clone(),
            event_type: self.event_type.clone(),
            payload_preview: self.payload_preview.clone(),
            at_epoch_ms: self.at_epoch_ms,
        }
    }
}

/// Characters of a payload that its preview keeps.
pub const PREVIEW_MAX: usize = 120;

/// Events that the ring keeps.
pub const RING_CAPACITY: usize = 200;

/// The first characters of a payload.
pub open spec fn preview_of(payload: Seq<char>) -> Seq<char> {
    if payload.len() > PREVIEW_MAX {
        payload.take(PREVIEW_MAX as int)
    } else {
        payload
    }
}

/// The first characters of a payload.
pub fn preview(payload: &str) -> (start: String)
    ensures
        start@ == preview_of(payload@),
{
    let len: usize = payload.unicode_len();
    if len > PREVIEW_MAX {
        payload.substring_char(0, PREVIEW_MAX).to_owned()
    } else {
        payload.to_owned()
    }
}

/// `ring` after `item` was appended: of what was there, the newest stay that leave room for it in
/// `capacity`.
pub open spec fn ring_pushed<A>(ring: Seq<A>, capacity: nat, item: A) -> Seq<A> {
    if ring.len() >= capacity {
        ring.skip(ring.len() - capacity + 1).push(item)
    } else {
        ring.push(item)
    }
}

/// The newest `limit` items of `ring`, newest first.
pub open spec fn newest_first<A>(ring: Seq<A>, limit: nat) -> Seq<A> {
    Seq::new(
        if limit < ring.len() {
            limit
        } else {
            ring.len()
        },
        |i: int| ring[ring.len() - 1 - i],
    )
}

/// The views of a list of events.
pub open spec fn event_views(events: Seq<ConsoleEvent>) -> Seq<EventView> {
    events.map_values(|event: ConsoleEvent| event@)
}

/// The most recent events, oldest first.
pub struct EventRing {
    events: VecDeque<ConsoleEvent>,
}

impl View for EventRing {
    type V = Seq<EventView>;

    closed spec fn view(&self) -> Seq<EventView> {
        event_views(self.events@)
    }
}

impl EventRing {
    /// The ring holds no more events than it keeps.
    pub open spec fn wf(&self) -> bool {
        self@.len() <= RING_CAPACITY
    }

    pub fn new() -> (ring: Self)
        ensures
            ring.wf(),
            ring@ == Seq::<EventView>::empty(),
    {
        EventRing { events: VecDeque::with_capacity(RING_CAPACITY) }
    }

    /// Appends an event; a full ring first drops its oldest.
    pub fn push(&mut self, session_id: &str, event: &str, payload: &str, at_epoch_ms: i64)
        requires
            old(self).wf(),
        ensures
            final(self).wf(),
            final(self)@ == ring_pushed(
                old(self)@,
                RING_CAPACITY as nat,
                EventView {
                    session_id: session_id@,
                    event_type: event@,
                    payload_preview: preview_of(payload@),
                    at_epoch_ms,
                },
            ),
    {
        if self.events.len() >= RING_CAPACITY {
            let _ = self.events.pop_front();
        }
        self.events.push_back(
            ConsoleEvent {
                session_id: session_id.to_owned(),
                event_type: event.to_owned(),
                payload_preview: preview(payload),
                at_epoch_ms,
            },
        );
    }

    /// The newest `limit` events, newest first.
    pub fn recent(&self, limit: usize) -> (events: Vec<ConsoleEvent>)
        ensures
            event_views(events@) == newest_first(self@, limit as nat),
    {
        let len: usize = self.events.len();
        let wanted: usize = if limit < len {
            limit
        } else {
            len
        };
        let mut events: Vec<ConsoleEvent> = Vec::new();
        for i in 0..wanted
            invariant
                len == self.events@.len(),
                wanted <= len,
                event_views(events@) == newest_first(self@, limit as nat).take(i as int),
                wanted == newest_first(self@, limit as nat).len(),
        {
            let ghost before = events@;
            events.push(self.events[len - 1 - i].clone());
            assert(event_views(events@) == event_views(before).push(self@[len - 1 - i]));
        }
        events
    }
}

} // verus!
