//! Edge capture: accumulates the edge events seen on the data line during one
//! bounded sampling window.
//!
//! The caller polls the line level in a tight loop and reports each observed
//! level here together with the instant it was read. A poll that repeats the
//! last recorded level records nothing; a changed level is recorded as a
//! rising or falling edge. The event list never grows past its configured
//! maximum, however long or noisy the capture runs.

use vstd::prelude::*;

use crate::edge::EdgeKind;
use crate::edge::Event;

verus! {

/// The ghost model of a capture in progress.
pub ghost struct CaptureView {
    /// The edge events recorded so far, in capture order.
    pub events: Seq<Event>,
    /// The level the line last held, `0` or `1`.
    pub last_level: u8,
    /// The hard cap on the number of recorded events.
    pub max_events: nat,
}

/// Accumulator of edge events for one reading attempt.
pub struct Capture {
    events: Vec<Event>,
    last_level: u8,
    max_events: usize,
}

impl View for Capture {
    type V = CaptureView;

    closed spec fn view(&self) -> CaptureView {
        CaptureView {
            events: self.events@,
            last_level: self.last_level,
            max_events: self.max_events as nat,
        }
    }
}

impl Capture {
    #[verifier::type_invariant]
    closed spec fn wf(self) -> bool {
        self.events@.len() <= self.max_events && self.last_level <= 1
    }

    /// Start a capture from the level the line held when sampling began,
    /// with a hard cap on how many events may be recorded.
    pub fn new(initial_level: u8, max_events: usize) -> (c: Self)
        requires
            initial_level <= 1,
        ensures
            c@.events == Seq::<Event>::empty(),
            c@.last_level == initial_level,
            c@.max_events == max_events,
    {
        Capture { events: Vec::new(), last_level: initial_level, max_events }
    }

    /// Report one polled level. A level equal to the last recorded one
    /// records nothing; a change records one edge, timestamped with the
    /// instant of the poll, unless the capture already holds its maximum.
    /// Returns whether the capture is full and polling should stop.
    pub fn poll(&mut self, level: u8, timestamp_micros: u64) -> (full: bool)
        requires
            level <= 1,
        ensures
            final(self)@.max_events == old(self)@.max_events,
            level == old(self)@.last_level ==> final(self)@ == old(self)@,
            old(self)@.events.len() >= old(self)@.max_events ==> final(self)@ == old(self)@,
            level != old(self)@.last_level && old(self)@.events.len() < old(self)@.max_events
                ==> final(self)@.last_level == level && final(self)@.events == old(
                self,
            )@.events.push(
                (Event {
                    timestamp_micros,
                    kind: if level == 1 {
                        EdgeKind::RisingEdge
                    } else {
                        EdgeKind::FallingEdge
                    },
                }),
            ),
            final(self)@.events.len() <= final(self)@.max_events,
            full == (final(self)@.events.len() >= final(self)@.max_events),
    {
        proof {
            use_type_invariant(&*self);
        }
        if level != self.last_level && self.events.len() < self.max_events {
            let kind = if self.last_level == 0 && level == 1 {
                EdgeKind::RisingEdge
            } else {
                EdgeKind::FallingEdge
            };
            let mut events: Vec<Event> = Vec::new();
            std::mem::swap(&mut events, &mut self.events);
            events.push(Event { timestamp_micros, kind });
            self.events = events;
            self.last_level = level;
        }
        self.events.len() >= self.max_events
    }

    /// The events recorded so far, in capture order. However a capture was
    /// built up, it never holds more events than the maximum it was
    /// configured with.
    pub fn recorded_events(&self) -> (r: &Vec<Event>)
        ensures
            r@ == self@.events,
            r@.len() <= self@.max_events,
    {
        proof {
            use_type_invariant(&*self);
        }
        &self.events
    }

    /// How many events have been recorded: never more than the configured
    /// maximum.
    pub fn event_count(&self) -> (n: usize)
        ensures
            n == self@.events.len(),
            n <= self@.max_events,
    {
        proof {
            use_type_invariant(&*self);
        }
        self.events.len()
    }
}

} // verus!
