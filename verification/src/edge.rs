//! Edge events observed on the sensor's data line.
//!
//! An edge is a transition of the line's digital level: rising (low to high)
//! or falling (high to low). Each event carries the instant it was detected,
//! as microseconds on a monotonic clock.

use vstd::prelude::*;

verus! {

/// The direction of a level transition on the data line.
#[derive(Clone, Copy, Debug, PartialEq, Eq, Structural)]
pub enum EdgeKind {
    RisingEdge,
    FallingEdge,
}

/// One observed transition: when it happened and in which direction.
#[derive(Clone, Copy, Debug, PartialEq, Eq, Structural)]
pub struct Event {
    pub timestamp_micros: u64,
    pub kind: EdgeKind,
}

impl Event {
    pub fn new(timestamp_micros: u64, kind: EdgeKind) -> (e: Self)
        ensures
            e == (Event { timestamp_micros, kind }),
    {
        Event { timestamp_micros, kind }
    }
}

} // verus!
