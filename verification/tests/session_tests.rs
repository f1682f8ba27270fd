use am2302::edge::EdgeKind;
use am2302::edge::Event;
use am2302::session::decode_events;

/// Synthesize the edge train the sensor would produce for the given bits:
/// each bit is a high pulse (rising then falling edge) whose width encodes
/// the bit, separated by low gaps.
fn edges_for_bits(bits: &[u8]) -> Vec<Event> {
    let mut events = Vec::new();
    let mut t = 0u64;
    for &b in bits {
        events.push(Event::new(t, EdgeKind::RisingEdge));
        let width = if b == 1 { 70 } else { 26 };
        t += width;
        events.push(Event::new(t, EdgeKind::FallingEdge));
        t += 50; // low gap before the next pulse
    }
    events
}

fn frame_to_bits(bytes: [u8; 5]) -> Vec<u8> {
    let mut bits = Vec::new();
    for b in bytes {
        let mut k = 8u32;
        while k > 0 {
            k -= 1;
            bits.push((b >> k) & 1);
        }
    }
    bits
}

#[test]
fn full_attempt_decodes_synthesized_signal() {
    let bits = frame_to_bits([0x02, 0x8C, 0x01, 0x5D, 0xEC]);
    let events = edges_for_bits(&bits);
    let reading = decode_events(&events).unwrap();
    assert_eq!(reading.humidity_tenths, 652);
    assert_eq!(reading.temperature_tenths, 349);
}

#[test]
fn attempt_with_too_few_edges_yields_none() {
    let events = edges_for_bits(&[1, 0, 1, 1, 0]);
    assert_eq!(decode_events(&events), None);
}

#[test]
fn attempt_with_no_edges_yields_none() {
    assert_eq!(decode_events(&[]), None);
}

#[test]
fn attempt_with_corrupt_frame_yields_none() {
    // the checksum byte does not match the four data bytes
    let bits = frame_to_bits([0x02, 0x8C, 0x01, 0x5D, 0xE6]);
    let events = edges_for_bits(&bits);
    assert_eq!(decode_events(&events), None);
}

#[test]
fn attempt_tolerates_response_preamble_edges() {
    // the sensor's start-response pulse shows up as extra leading edges;
    // the frame after them still decodes
    let mut events = vec![
        Event::new(0, EdgeKind::FallingEdge),
        Event::new(80, EdgeKind::RisingEdge),
    ];
    let bits = frame_to_bits([0x02, 0x8C, 0x81, 0x5D, 0x6C]);
    for e in edges_for_bits(&bits) {
        events.push(Event::new(e.timestamp_micros + 160, e.kind));
    }
    let reading = decode_events(&events).unwrap();
    assert_eq!(reading.humidity_tenths, 652);
    assert_eq!(reading.temperature_tenths, -349);
}
