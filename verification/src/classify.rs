//! Bit classifier: turns an ordered sequence of edge events into bits.
//!
//! Consecutive events are considered pairwise. A pair whose second event is a
//! falling edge closes a high pulse; the pulse's width picks the bit: strictly
//! more than the threshold decodes to `1`, at or below it decodes to `0`.
//! Pairs whose second event is a rising edge close a low pulse and yield no
//! bit. Output order follows pair order.

use vstd::prelude::*;
use vstd::slice::slice_index_get;

use crate::edge::EdgeKind;
use crate::edge::Event;

verus! {

/// High pulses strictly longer than this many microseconds decode to `1`;
/// pulses at or below it decode to `0`.
pub const PULSE_ONE_THRESHOLD_MICROS: u64 = 35;

/// Whether a value is a binary digit.
pub open spec fn is_bit(b: u8) -> bool {
    b == 0 || b == 1
}

/// Whether every element of a sequence is a binary digit.
pub open spec fn is_bit_seq(s: Seq<u8>) -> bool {
    forall|i: int| 0 <= i < s.len() ==> is_bit(#[trigger] s[i])
}

/// The bit encoded by a pulse that started at `start` and ended at `end`
/// (both in microseconds).
pub open spec fn classify_pulse(start: int, end: int) -> u8 {
    if end - start > PULSE_ONE_THRESHOLD_MICROS {
        1u8
    } else {
        0u8
    }
}

/// The bits contributed by one consecutive pair of events: one bit when the
/// pair ends in a falling edge, none otherwise.
pub open spec fn pair_bits(prev: Event, next: Event) -> Seq<u8> {
    if next.kind is FallingEdge {
        seq![classify_pulse(prev.timestamp_micros as int, next.timestamp_micros as int)]
    } else {
        Seq::empty()
    }
}

/// The bits produced by the pairs starting at index `i` and later.
pub open spec fn bits_from(events: Seq<Event>, i: int) -> Seq<u8>
    decreases events.len() - i,
{
    if i < 0 || i + 1 >= events.len() {
        Seq::empty()
    } else {
        pair_bits(events[i], events[i + 1]) + bits_from(events, i + 1)
    }
}

/// The bit sequence an edge sequence classifies to.
pub open spec fn bits_of(events: Seq<Event>) -> Seq<u8> {
    bits_from(events, 0)
}

/// The number of consecutive pairs at index `i` or later whose second event
/// is a falling edge.
pub open spec fn falling_pair_count(events: Seq<Event>, i: int) -> nat
    decreases events.len() - i,
{
    if i < 0 || i + 1 >= events.len() {
        0
    } else {
        (if events[i + 1].kind is FallingEdge {
            1nat
        } else {
            0nat
        }) + falling_pair_count(events, i + 1)
    }
}

/// Classify an edge sequence into its bit sequence.
pub fn events_to_data(events: &[Event]) -> (r: Vec<u8>)
    ensures
        r@ == bits_of(events@),
        is_bit_seq(r@),
{
    let mut r: Vec<u8> = Vec::new();
    let n = events.len();
    proof {
        assert(r@ + bits_from(events@, 0) =~= bits_from(events@, 0));
    }
    let mut i: usize = 0;
    while i + 1 < n
        invariant
            n == events@.len(),
            i <= n,
            n > 0 ==> i + 1 <= n,
            r@ + bits_from(events@, i as int) == bits_of(events@),
            is_bit_seq(r@),
        decreases n - i,
    {
        let ghost r_prev = r@;
        let prev = *slice_index_get(events, i);
        let next = *slice_index_get(events, i + 1);
        match next.kind {
            EdgeKind::FallingEdge => {
                let bit: u8 = if next.timestamp_micros > PULSE_ONE_THRESHOLD_MICROS
                    && next.timestamp_micros - PULSE_ONE_THRESHOLD_MICROS > prev.timestamp_micros {
                    1
                } else {
                    0
                };
                proof {
                    assert(bit == classify_pulse(
                        prev.timestamp_micros as int,
                        next.timestamp_micros as int,
                    ));
                }
                r.push(bit);
            },
            EdgeKind::RisingEdge => {},
        }
        proof {
            assert(r@ + bits_from(events@, i as int + 1) =~= r_prev + bits_from(
                events@,
                i as int,
            ));
        }
        i = i + 1;
    }
    proof {
        assert(bits_from(events@, i as int) =~= Seq::<u8>::empty());
        assert(r@ + Seq::<u8>::empty() =~= r@);
    }
    r
}

/// A sequence of fewer than two events yields no bits: there is no pair to
/// measure a pulse with.
pub proof fn lemma_short_sequence_yields_no_bits(events: Seq<Event>)
    requires
        events.len() < 2,
    ensures
        bits_of(events) == Seq::<u8>::empty(),
{
}

proof fn lemma_bit_count_from(events: Seq<Event>, i: int)
    requires
        0 <= i,
    ensures
        bits_from(events, i).len() == falling_pair_count(events, i),
        i < events.len() ==> bits_from(events, i).len() <= events.len() - 1 - i,
    decreases events.len() - i,
{
    if i + 1 < events.len() {
        lemma_bit_count_from(events, i + 1);
    }
}

/// The classifier never yields more bits than there are consecutive pairs
/// (one fewer than the number of events), and yields exactly one bit per
/// pair whose second event is a falling edge.
pub proof fn lemma_bit_count(events: Seq<Event>)
    ensures
        bits_of(events).len() == falling_pair_count(events, 0),
        events.len() >= 1 ==> bits_of(events).len() <= events.len() - 1,
{
    lemma_bit_count_from(events, 0);
}

/// The threshold is exclusive on the `1` side: a pulse exactly at the
/// threshold classifies as `0`, and only strictly longer pulses as `1`.
pub proof fn lemma_threshold_is_exclusive(prev: Event, next: Event)
    requires
        next.kind is FallingEdge,
    ensures
        next.timestamp_micros - prev.timestamp_micros
            <= PULSE_ONE_THRESHOLD_MICROS ==> bits_of(seq![prev, next]) == seq![0u8],
        next.timestamp_micros - prev.timestamp_micros
            > PULSE_ONE_THRESHOLD_MICROS ==> bits_of(seq![prev, next]) == seq![1u8],
{
    let s = seq![prev, next];
    let b = classify_pulse(prev.timestamp_micros as int, next.timestamp_micros as int);
    assert(bits_from(s, 1) =~= Seq::<u8>::empty());
    assert(pair_bits(s[0], s[1]) =~= seq![b]);
    assert(bits_of(s) =~= pair_bits(s[0], s[1]) + bits_from(s, 1));
    assert(bits_of(s) =~= seq![b]);
}

} // verus!
