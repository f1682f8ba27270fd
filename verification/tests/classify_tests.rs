use am2302::classify::events_to_data;
use am2302::edge::EdgeKind;
use am2302::edge::Event;

#[test]
fn classifier_empty_events_yield_no_bits() {
    let events: Vec<Event> = Vec::new();
    let bits = events_to_data(&events);
    assert!(bits.is_empty());
}

#[test]
fn classifier_single_event_yields_no_bits() {
    let events = vec![Event::new(100, EdgeKind::RisingEdge)];
    let bits = events_to_data(&events);
    assert!(bits.is_empty());
}

#[test]
fn pulse_at_threshold_classifies_as_zero() {
    let events = vec![
        Event::new(100, EdgeKind::RisingEdge),
        Event::new(135, EdgeKind::FallingEdge),
    ];
    assert_eq!(events_to_data(&events), vec![0]);
}

#[test]
fn pulse_above_threshold_classifies_as_one() {
    let events = vec![
        Event::new(100, EdgeKind::RisingEdge),
        Event::new(136, EdgeKind::FallingEdge),
    ];
    assert_eq!(events_to_data(&events), vec![1]);
}

#[test]
fn short_pulse_classifies_as_zero() {
    let events = vec![
        Event::new(100, EdgeKind::RisingEdge),
        Event::new(126, EdgeKind::FallingEdge),
    ];
    assert_eq!(events_to_data(&events), vec![0]);
}

#[test]
fn pair_ending_in_rising_edge_yields_no_bit() {
    let events = vec![
        Event::new(100, EdgeKind::FallingEdge),
        Event::new(200, EdgeKind::RisingEdge),
    ];
    assert!(events_to_data(&events).is_empty());
}

#[test]
fn classifier_preserves_pair_order() {
    // rising/falling pulses of widths 70, 26, 70 with low gaps between:
    // expect bits 1, 0, 1.
    let events = vec![
        Event::new(0, EdgeKind::RisingEdge),
        Event::new(70, EdgeKind::FallingEdge),
        Event::new(120, EdgeKind::RisingEdge),
        Event::new(146, EdgeKind::FallingEdge),
        Event::new(200, EdgeKind::RisingEdge),
        Event::new(270, EdgeKind::FallingEdge),
    ];
    assert_eq!(events_to_data(&events), vec![1, 0, 1]);
}

#[test]
fn bit_count_never_exceeds_pair_count() {
    let mut events = Vec::new();
    for i in 0..50u64 {
        let kind = if i % 2 == 0 {
            EdgeKind::RisingEdge
        } else {
            EdgeKind::FallingEdge
        };
        events.push(Event::new(i * 40, kind));
    }
    let bits = events_to_data(&events);
    assert!(bits.len() <= events.len() - 1);
    // every pair ending in a falling edge contributes exactly one bit
    assert_eq!(bits.len(), 25);
}
