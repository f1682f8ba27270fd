use am2302::frame::DecodeError;
use am2302::frame::Reading;
use am2302::frame::first_valid_reading;

fn push_byte_bits(bits: &mut Vec<u8>, byte: u8) {
    let mut k = 8u32;
    while k > 0 {
        k -= 1;
        bits.push((byte >> k) & 1);
    }
}

fn frame_to_bits(bytes: [u8; 5]) -> Vec<u8> {
    let mut bits = Vec::new();
    for b in bytes {
        push_byte_bits(&mut bits, b);
    }
    bits
}

fn checksum_of(bytes: [u8; 4]) -> u8 {
    bytes
        .iter()
        .fold(0u16, |acc, b| acc + *b as u16)
        .rem_euclid(256) as u8
}

#[test]
fn example_frame_decodes() {
    // humidity 0x028C = 652 tenths (65.2 %RH), temperature 0x015D = 349
    // tenths (34.9 degrees); checksum = (0x02 + 0x8C + 0x01 + 0x5D) mod 256.
    let c = checksum_of([0x02, 0x8C, 0x01, 0x5D]);
    assert_eq!(c, 0xEC);
    let bits = frame_to_bits([0x02, 0x8C, 0x01, 0x5D, c]);
    let r = Reading::from_binary_vector(&bits).unwrap();
    assert_eq!(r.humidity_tenths, 652);
    assert_eq!(r.temperature_tenths, 349);
}

#[test]
fn wrong_checksum_byte_is_rejected() {
    // 0xE6 is not the byte sum of these four bytes (0xEC is), so the window
    // must be rejected.
    let bits = frame_to_bits([0x02, 0x8C, 0x01, 0x5D, 0xE6]);
    assert_eq!(
        Reading::from_binary_vector(&bits),
        Err(DecodeError::ChecksumMismatch)
    );
}

#[test]
fn negative_temperature_decodes() {
    // top bit of the third byte set: magnitude 0x015D = 349, sign negative.
    let c = checksum_of([0x02, 0x8C, 0x81, 0x5D]);
    let bits = frame_to_bits([0x02, 0x8C, 0x81, 0x5D, c]);
    let r = Reading::from_binary_vector(&bits).unwrap();
    assert_eq!(r.humidity_tenths, 652);
    assert_eq!(r.temperature_tenths, -349);
}

#[test]
fn reported_values_scale_by_ten() {
    let c = checksum_of([0x02, 0x8C, 0x01, 0x5D]);
    let bits = frame_to_bits([0x02, 0x8C, 0x01, 0x5D, c]);
    let r = Reading::from_binary_vector(&bits).unwrap();
    assert_eq!(r.humidity_tenths as f32 / 10.0, 65.2);
    assert_eq!(r.temperature_tenths as f32 / 10.0, 34.9);
}

#[test]
fn corrupting_any_single_byte_fails_checksum() {
    let good = [0x02u8, 0x8C, 0x01, 0x5D, 0xEC];
    for i in 0..5 {
        for delta in [1u8, 0x80, 0xFF] {
            let mut bad = good;
            bad[i] = bad[i].wrapping_add(delta);
            let bits = frame_to_bits(bad);
            assert_eq!(
                Reading::from_binary_vector(&bits),
                Err(DecodeError::ChecksumMismatch),
                "corrupted byte was not rejected"
            );
        }
    }
}

#[test]
fn fewer_than_forty_bits_is_insufficient_data() {
    let bits = vec![1u8; 39];
    assert_eq!(
        first_valid_reading(&bits),
        Err(DecodeError::InsufficientData)
    );
}

#[test]
fn empty_bit_sequence_is_insufficient_data() {
    let bits: Vec<u8> = Vec::new();
    assert_eq!(
        first_valid_reading(&bits),
        Err(DecodeError::InsufficientData)
    );
}

#[test]
fn no_window_validating_is_no_valid_frame() {
    // every 40-bit window of an all-ones sequence sums to 0xFC != 0xFF
    let bits = vec![1u8; 45];
    assert_eq!(first_valid_reading(&bits), Err(DecodeError::NoValidFrame));
}

#[test]
fn noise_prefix_before_valid_frame_still_decodes() {
    let mut bits = vec![1u8, 1, 0, 1, 1, 0, 1];
    bits.extend(frame_to_bits([0x02, 0x8C, 0x81, 0x5D, 0x6C]));
    let r = first_valid_reading(&bits).unwrap();
    assert_eq!(r.humidity_tenths, 652);
    assert_eq!(r.temperature_tenths, -349);
}

#[test]
fn first_valid_window_wins() {
    // two valid frames back to back: the earlier one is returned
    let mut bits = frame_to_bits([0x01, 0x02, 0x03, 0x04, 0x0A]);
    bits.extend(frame_to_bits([0x02, 0x8C, 0x01, 0x5D, 0xEC]));
    let r = first_valid_reading(&bits).unwrap();
    assert_eq!(r.humidity_tenths, 0x0102);
    assert_eq!(r.temperature_tenths, 0x0304);
}

#[test]
fn all_zero_frame_is_checksum_valid() {
    let bits = vec![0u8; 40];
    let r = Reading::from_binary_vector(&bits).unwrap();
    assert_eq!(r.humidity_tenths, 0);
    assert_eq!(r.temperature_tenths, 0);
}

#[test]
fn exactly_forty_bits_decodes_without_noise() {
    let bits = frame_to_bits([0x00, 0x64, 0x00, 0xC8, 0x2C]);
    let r = first_valid_reading(&bits).unwrap();
    assert_eq!(r.humidity_tenths, 100);
    assert_eq!(r.temperature_tenths, 200);
}
