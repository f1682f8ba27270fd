//! Frame decoder: finds and decodes a checksum-valid 40-bit frame.
//!
//! A frame is 40 bits read as 5 bytes, most-significant bit first:
//! `[humidity_high, humidity_low, temperature_high, temperature_low,
//! checksum]`. The checksum byte must equal the low 8 bits of the sum of the
//! first four bytes. Humidity is the 16-bit big-endian value of the first two
//! bytes, in tenths of a percent. The top bit of `temperature_high` is a sign
//! flag; the remaining 15 bits, big-endian with `temperature_low`, give the
//! magnitude in tenths of a degree.

use vstd::prelude::*;
use vstd::slice::slice_index_get;
use vstd::slice::slice_subrange;

use crate::classify::is_bit;
use crate::classify::is_bit_seq;

verus! {

/// A frame is this many bits long.
pub const FRAME_BITS: usize = 40;

/// A decoded sensor reading, in fixed-point tenths.
#[derive(Clone, Copy, Debug, PartialEq, Eq, Structural)]
pub struct Reading {
    /// Relative humidity, in tenths of a percent.
    pub humidity_tenths: u16,
    /// Temperature, in tenths of a degree Celsius.
    pub temperature_tenths: i16,
}

/// Why a bit sequence did not yield a reading.
#[derive(Clone, Copy, Debug, PartialEq, Eq, Structural)]
pub enum DecodeError {
    /// Fewer than `FRAME_BITS` bits were available; no decode was attempted.
    InsufficientData,
    /// A candidate window's checksum byte did not match the byte sum.
    ChecksumMismatch,
    /// Every window was scanned and none validated.
    NoValidFrame,
}

/// The value of the 8 bits starting at `start`, most-significant bit first.
pub open spec fn byte_at(bits: Seq<u8>, start: int) -> int {
    bits[start] * 128 + bits[start + 1] * 64 + bits[start + 2] * 32 + bits[start + 3] * 16
        + bits[start + 4] * 8 + bits[start + 5] * 4 + bits[start + 6] * 2 + bits[start + 7]
}

/// Whether a checksum byte `c` validates the four data bytes.
pub open spec fn checksum_matches(b0: int, b1: int, b2: int, b3: int, c: int) -> bool {
    (b0 + b1 + b2 + b3) % 256 == c
}

/// Whether a 40-bit window's fifth byte validates its first four.
pub open spec fn checksum_ok(w: Seq<u8>) -> bool {
    checksum_matches(byte_at(w, 0), byte_at(w, 8), byte_at(w, 16), byte_at(w, 24), byte_at(w, 32))
}

/// The humidity a 40-bit window encodes, in tenths of a percent.
pub open spec fn humidity_tenths_of(w: Seq<u8>) -> int {
    byte_at(w, 0) * 256 + byte_at(w, 8)
}

/// The temperature a 40-bit window encodes, in tenths of a degree: the top
/// bit of the third byte is the sign flag, the remaining 15 bits the
/// magnitude.
pub open spec fn temperature_tenths_of(w: Seq<u8>) -> int {
    let th = byte_at(w, 16);
    let tl = byte_at(w, 24);
    if th >= 128 {
        -((th % 128) * 256 + tl)
    } else {
        th * 256 + tl
    }
}

/// The reading a checksum-valid 40-bit window decodes to.
pub open spec fn decoded_reading(w: Seq<u8>) -> Reading {
    Reading {
        humidity_tenths: humidity_tenths_of(w) as u16,
        temperature_tenths: temperature_tenths_of(w) as i16,
    }
}

/// Each of a byte's 8 bits is a binary digit, so the byte it reassembles to
/// lies within a byte's range.
pub proof fn lemma_byte_at_bounds(bits: Seq<u8>, start: int)
    requires
        is_bit_seq(bits),
        0 <= start,
        start + 8 <= bits.len(),
    ensures
        0 <= byte_at(bits, start) <= 255,
{
    assert(is_bit(bits[start]));
    assert(is_bit(bits[start + 1]));
    assert(is_bit(bits[start + 2]));
    assert(is_bit(bits[start + 3]));
    assert(is_bit(bits[start + 4]));
    assert(is_bit(bits[start + 5]));
    assert(is_bit(bits[start + 6]));
    assert(is_bit(bits[start + 7]));
}

/// Pack the 8 bits starting at `start` into one byte, most-significant bit
/// first.
fn pack_byte(bits: &[u8], start: usize) -> (b: u8)
    requires
        is_bit_seq(bits@),
        start + 8 <= bits@.len(),
    ensures
        b == byte_at(bits@, start as int),
{
    proof {
        lemma_byte_at_bounds(bits@, start as int);
    }
    let n: usize = bits.len();
    proof {
        assert(start + 8 <= n);
    }
    let b0 = *slice_index_get(bits, start);
    let b1 = *slice_index_get(bits, start + 1);
    let b2 = *slice_index_get(bits, start + 2);
    let b3 = *slice_index_get(bits, start + 3);
    let b4 = *slice_index_get(bits, start + 4);
    let b5 = *slice_index_get(bits, start + 5);
    let b6 = *slice_index_get(bits, start + 6);
    let b7 = *slice_index_get(bits, start + 7);
    b0 * 128 + b1 * 64 + b2 * 32 + b3 * 16 + b4 * 8 + b5 * 4 + b6 * 2 + b7
}

impl Reading {
    /// Decode exactly one 40-bit window: pack it into 5 bytes, validate the
    /// checksum, and extract the humidity and temperature values.
    pub fn from_binary_vector(data: &[u8]) -> (r: Result<Reading, DecodeError>)
        requires
            data@.len() == FRAME_BITS,
            is_bit_seq(data@),
        ensures
            r == (if checksum_ok(data@) {
                Ok::<Reading, DecodeError>(decoded_reading(data@))
            } else {
                Err::<Reading, DecodeError>(DecodeError::ChecksumMismatch)
            }),
    {
        let b0 = pack_byte(data, 0);
        let b1 = pack_byte(data, 8);
        let b2 = pack_byte(data, 16);
        let b3 = pack_byte(data, 24);
        let b4 = pack_byte(data, 32);
        let sum: u16 = b0 as u16 + b1 as u16 + b2 as u16 + b3 as u16;
        if sum % 256 == b4 as u16 {
            let humidity_tenths: u16 = (b0 as u16) * 256 + (b1 as u16);
            let magnitude: u16 = if b2 >= 128 {
                ((b2 - 128) as u16) * 256 + (b3 as u16)
            } else {
                (b2 as u16) * 256 + (b3 as u16)
            };
            proof {
                assert(b2 >= 128 ==> (b2 - 128) as int == byte_at(data@, 16) % 128);
                assert(magnitude <= 32767);
            }
            let temperature_tenths: i16 = if b2 >= 128 {
                -(magnitude as i16)
            } else {
                magnitude as i16
            };
            Ok(Reading { humidity_tenths, temperature_tenths })
        } else {
            Err(DecodeError::ChecksumMismatch)
        }
    }
}

/// Whether the 40 bits starting at offset `i` form a checksum-valid window.
pub open spec fn valid_window_at(bits: Seq<u8>, i: int) -> bool {
    &&& 0 <= i
    &&& i + FRAME_BITS <= bits.len()
    &&& checksum_ok(bits.subrange(i, i + FRAME_BITS))
}

/// The offset of the first checksum-valid window at `i` or later, if any.
pub open spec fn first_valid_from(bits: Seq<u8>, i: int) -> Option<int>
    decreases bits.len() - i,
{
    if i < 0 || i + FRAME_BITS > bits.len() {
        None
    } else if valid_window_at(bits, i) {
        Some(i)
    } else {
        first_valid_from(bits, i + 1)
    }
}

/// Scan the bit sequence for the first checksum-valid 40-bit window and
/// decode it. Fewer than 40 bits yield `InsufficientData` without any decode
/// attempt; with enough bits, the first valid window wins (leading noise bits
/// are skipped), and `NoValidFrame` is returned only once every offset has
/// been rejected.
pub fn first_valid_reading(bits: &[u8]) -> (r: Result<Reading, DecodeError>)
    requires
        is_bit_seq(bits@),
    ensures
        bits@.len() < FRAME_BITS ==> r == Err::<Reading, DecodeError>(DecodeError::InsufficientData),
        bits@.len() >= FRAME_BITS ==> r == (match first_valid_from(bits@, 0) {
            Some(i) => Ok::<Reading, DecodeError>(decoded_reading(bits@.subrange(i, i + FRAME_BITS))),
            None => Err::<Reading, DecodeError>(DecodeError::NoValidFrame),
        }),
{
    let n: usize = bits.len();
    if n < FRAME_BITS {
        return Err(DecodeError::InsufficientData);
    }
    let mut i: usize = 0;
    while i <= n - FRAME_BITS
        invariant
            n == bits@.len(),
            n >= FRAME_BITS,
            is_bit_seq(bits@),
            i <= n - FRAME_BITS + 1,
            first_valid_from(bits@, 0) == first_valid_from(bits@, i as int),
        decreases n - i,
    {
        let window = slice_subrange(bits, i, i + FRAME_BITS);
        proof {
            assert forall|k: int| 0 <= k < window@.len() implies is_bit(#[trigger] window@[k]) by {
                assert(window@[k] == bits@[i + k]);
            }
        }
        match Reading::from_binary_vector(window) {
            Ok(reading) => {
                proof {
                    assert(valid_window_at(bits@, i as int));
                    assert(first_valid_from(bits@, i as int) == Some(i as int));
                }
                return Ok(reading);
            },
            Err(_) => {
                proof {
                    assert(!valid_window_at(bits@, i as int));
                    assert(first_valid_from(bits@, i as int) == first_valid_from(
                        bits@,
                        i as int + 1,
                    ));
                }
            },
        }
        i = i + 1;
    }
    proof {
        assert(first_valid_from(bits@, i as int) is None);
    }
    Err(DecodeError::NoValidFrame)
}

/// The 8 bits of a byte, most-significant first: the encoding that `byte_at`
/// reverses.
pub open spec fn byte_bits(b: u8) -> Seq<u8> {
    seq![
        ((b / 128) % 2) as u8,
        ((b / 64) % 2) as u8,
        ((b / 32) % 2) as u8,
        ((b / 16) % 2) as u8,
        ((b / 8) % 2) as u8,
        ((b / 4) % 2) as u8,
        ((b / 2) % 2) as u8,
        (b % 2) as u8,
    ]
}

/// The 40-bit encoding of a frame's five bytes.
pub open spec fn frame_bits(b0: u8, b1: u8, b2: u8, b3: u8, b4: u8) -> Seq<u8> {
    byte_bits(b0) + byte_bits(b1) + byte_bits(b2) + byte_bits(b3) + byte_bits(b4)
}

/// A byte's bit expansion is 8 binary digits that reassemble to the byte.
pub proof fn lemma_byte_bits_reassemble(b: u8)
    ensures
        byte_bits(b).len() == 8,
        is_bit_seq(byte_bits(b)),
        byte_at(byte_bits(b), 0) == b,
{
    let s = byte_bits(b);
    assert(is_bit(s[0]));
    assert(is_bit(s[1]));
    assert(is_bit(s[2]));
    assert(is_bit(s[3]));
    assert(is_bit(s[4]));
    assert(is_bit(s[5]));
    assert(is_bit(s[6]));
    assert(is_bit(s[7]));
    assert(((b / 128) % 2) * 128 + ((b / 64) % 2) * 64 + ((b / 32) % 2) * 32 + ((b / 16) % 2) * 16
        + ((b / 8) % 2) * 8 + ((b / 4) % 2) * 4 + ((b / 2) % 2) * 2 + (b % 2) == b) by (bit_vector);
}

/// A frame's 40-bit encoding is a valid bit sequence whose five bytes
/// reassemble to the bytes it was built from.
pub proof fn lemma_frame_bits_reassemble(b0: u8, b1: u8, b2: u8, b3: u8, b4: u8)
    ensures
        frame_bits(b0, b1, b2, b3, b4).len() == FRAME_BITS,
        is_bit_seq(frame_bits(b0, b1, b2, b3, b4)),
        byte_at(frame_bits(b0, b1, b2, b3, b4), 0) == b0,
        byte_at(frame_bits(b0, b1, b2, b3, b4), 8) == b1,
        byte_at(frame_bits(b0, b1, b2, b3, b4), 16) == b2,
        byte_at(frame_bits(b0, b1, b2, b3, b4), 24) == b3,
        byte_at(frame_bits(b0, b1, b2, b3, b4), 32) == b4,
{
    lemma_byte_bits_reassemble(b0);
    lemma_byte_bits_reassemble(b1);
    lemma_byte_bits_reassemble(b2);
    lemma_byte_bits_reassemble(b3);
    lemma_byte_bits_reassemble(b4);
    let w = frame_bits(b0, b1, b2, b3, b4);
    assert(w.subrange(0, 8) =~= byte_bits(b0));
    assert(w.subrange(8, 16) =~= byte_bits(b1));
    assert(w.subrange(16, 24) =~= byte_bits(b2));
    assert(w.subrange(24, 32) =~= byte_bits(b3));
    assert(w.subrange(32, 40) =~= byte_bits(b4));
    lemma_byte_at_subrange(w, 0);
    lemma_byte_at_subrange(w, 8);
    lemma_byte_at_subrange(w, 16);
    lemma_byte_at_subrange(w, 24);
    lemma_byte_at_subrange(w, 32);
}

/// Reading a byte at an offset equals reading it at the front of the
/// corresponding 8-bit subrange.
pub proof fn lemma_byte_at_subrange(bits: Seq<u8>, start: int)
    requires
        0 <= start,
        start + 8 <= bits.len(),
    ensures
        byte_at(bits.subrange(start, start + 8), 0) == byte_at(bits, start),
{
}

/// Round trip: a frame encoded from four data bytes and their matching
/// checksum byte decodes back to exactly those values — the window is
/// checksum-valid, its humidity is the big-endian value of the first two
/// bytes, and its temperature carries the sign flag of the third byte's top
/// bit and the magnitude of the remaining 15 bits.
proof fn lemma_valid_window_whole(w: Seq<u8>)
    requires
        w.len() == FRAME_BITS,
        checksum_ok(w),
    ensures
        valid_window_at(w, 0),
{
    assert(w.subrange(0, FRAME_BITS as int) =~= w);
}

proof fn lemma_decoded_values(w: Seq<u8>, b0: u8, b1: u8, b2: u8, b3: u8)
    requires
        byte_at(w, 0) == b0,
        byte_at(w, 8) == b1,
        byte_at(w, 16) == b2,
        byte_at(w, 24) == b3,
    ensures
        decoded_reading(w).humidity_tenths == b0 * 256 + b1,
        b2 < 128 ==> decoded_reading(w).temperature_tenths == b2 * 256 + b3,
        b2 >= 128 ==> decoded_reading(w).temperature_tenths == -((b2 - 128) * 256 + b3),
{
    assert(b2 >= 128 ==> (b2 as int) % 128 == b2 - 128);
}

pub proof fn lemma_frame_round_trip(b0: u8, b1: u8, b2: u8, b3: u8, c: u8)
    requires
        checksum_matches(b0 as int, b1 as int, b2 as int, b3 as int, c as int),
    ensures
        ({
            let w = frame_bits(b0, b1, b2, b3, c);
            &&& w.len() == FRAME_BITS
            &&& is_bit_seq(w)
            &&& checksum_ok(w)
            &&& valid_window_at(w, 0)
            &&& decoded_reading(w).humidity_tenths == b0 * 256 + b1
            &&& (b2 < 128 ==> decoded_reading(w).temperature_tenths == b2 * 256 + b3)
            &&& (b2 >= 128 ==> decoded_reading(w).temperature_tenths == -((b2 - 128) * 256 + b3))
        }),
{
    lemma_frame_bits_reassemble(b0, b1, b2, b3, c);
    let w = frame_bits(b0, b1, b2, b3, c);
    assert(checksum_ok(w));
    lemma_valid_window_whole(w);
    lemma_decoded_values(w, b0, b1, b2, b3);
}

proof fn lemma_mod_256_distinct(s: int, t: int)
    requires
        0 <= s,
        0 <= t,
        s != t,
        -256 < s - t < 256,
    ensures
        s % 256 != t % 256,
{
    vstd::arithmetic::div_mod::lemma_fundamental_div_mod(s, 256);
    vstd::arithmetic::div_mod::lemma_fundamental_div_mod(t, 256);
    if s % 256 == t % 256 {
        assert(s - t == 256 * (s / 256) - 256 * (t / 256));
        assert(256 * (s / 256) - 256 * (t / 256) == 256 * (s / 256 - t / 256)) by (nonlinear_arith);
        assert(s / 256 - t / 256 == 0);
    }
}

/// Corrupting exactly one byte of a checksum-valid frame always breaks the
/// checksum: there is no single-byte false positive.
pub proof fn lemma_corruption_detected(
    b0: u8,
    b1: u8,
    b2: u8,
    b3: u8,
    c: u8,
    d0: u8,
    d1: u8,
    d2: u8,
    d3: u8,
    d4: u8,
)
    requires
        checksum_matches(b0 as int, b1 as int, b2 as int, b3 as int, c as int),
        (if d0 == b0 {
            0int
        } else {
            1int
        }) + (if d1 == b1 {
            0int
        } else {
            1int
        }) + (if d2 == b2 {
            0int
        } else {
            1int
        }) + (if d3 == b3 {
            0int
        } else {
            1int
        }) + (if d4 == c {
            0int
        } else {
            1int
        }) == 1,
    ensures
        !checksum_matches(d0 as int, d1 as int, d2 as int, d3 as int, d4 as int),
        !checksum_ok(frame_bits(d0, d1, d2, d3, d4)),
{
    let s = b0 + b1 + b2 + b3;
    let t = d0 + d1 + d2 + d3;
    if d4 == c {
        assert(s != t);
        lemma_mod_256_distinct(s as int, t as int);
    } else {
        assert(t == s);
        assert(0 <= c < 256);
    }
    lemma_frame_bits_reassemble(d0, d1, d2, d3, d4);
}

proof fn lemma_first_valid_from_finds(bits: Seq<u8>, lo: int, i: int)
    requires
        0 <= lo <= i,
        valid_window_at(bits, i),
    ensures
        first_valid_from(bits, lo) is Some,
        lo <= first_valid_from(bits, lo)->Some_0 <= i,
        valid_window_at(bits, first_valid_from(bits, lo)->Some_0),
    decreases i - lo,
{
    if !valid_window_at(bits, lo) {
        lemma_first_valid_from_finds(bits, lo + 1, i);
    }
}

proof fn lemma_first_valid_from_minimal(bits: Seq<u8>, lo: int, k: int)
    requires
        0 <= lo <= k,
        first_valid_from(bits, lo) is Some,
        k < first_valid_from(bits, lo)->Some_0,
    ensures
        !valid_window_at(bits, k),
    decreases k - lo,
{
    if k > lo {
        lemma_first_valid_from_minimal(bits, lo + 1, k);
    }
}

/// Noise tolerance: if any checksum-valid window stands at offset `i`, the
/// scan finds a valid window no later than `i` — arbitrary noise bits before
/// a valid frame never prevent a decode, and every offset before the found
/// one is invalid.
pub proof fn lemma_noise_prefix_tolerated(bits: Seq<u8>, i: int)
    requires
        valid_window_at(bits, i),
    ensures
        ({
            let r = first_valid_from(bits, 0);
            &&& r is Some
            &&& 0 <= r->Some_0 <= i
            &&& valid_window_at(bits, r->Some_0)
            &&& forall|k: int| 0 <= k < r->Some_0 ==> !valid_window_at(bits, k)
        }),
{
    lemma_first_valid_from_finds(bits, 0, i);
    let r = first_valid_from(bits, 0);
    assert forall|k: int| 0 <= k < r->Some_0 implies !valid_window_at(bits, k) by {
        lemma_first_valid_from_minimal(bits, 0, k);
    }
}

} // verus!
