//! Reading session: the decision core of one read attempt.
//!
//! After the host start signal and the capture window — both line I/O, owned
//! by the caller — an attempt reduces to a pure computation: classify the
//! captured edges into bits, then scan the bits for the first checksum-valid
//! frame. Any decode failure is reported as the absence of a reading.

use vstd::prelude::*;

use crate::classify::bits_of;
use crate::classify::events_to_data;
use crate::edge::Event;
use crate::frame::FRAME_BITS;
use crate::frame::Reading;
use crate::frame::decoded_reading;
use crate::frame::first_valid_from;
use crate::frame::first_valid_reading;

verus! {

/// The reading that one attempt's edge sequence decodes to, if any: the
/// decoded first checksum-valid 40-bit window of the classified bits.
pub open spec fn attempt_outcome(events: Seq<Event>) -> Option<Reading> {
    match first_valid_from(bits_of(events), 0) {
        Some(i) => Some(decoded_reading(bits_of(events).subrange(i, i + FRAME_BITS))),
        None => None,
    }
}

/// Decode one attempt's captured edge sequence: classify the edges into bits
/// and decode the first checksum-valid frame. Too few bits, or no valid
/// window, yield `None`.
pub fn decode_events(events: &[Event]) -> (r: Option<Reading>)
    ensures
        r == attempt_outcome(events@),
{
    let bits = events_to_data(events);
    match first_valid_reading(bits.as_slice()) {
        Ok(reading) => Some(reading),
        Err(_) => None,
    }
}

} // verus!
