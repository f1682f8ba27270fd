//! Reader for an AM2302/DHT22-class single-wire humidity and temperature
//! sensor. The sensor answers a host start signal with a pulse-width-encoded
//! 40-bit frame; this crate turns the observed line transitions into bits,
//! scans the bit stream for a checksum-valid frame, and decodes it into
//! fixed-point humidity and temperature readings.

pub mod capture;
pub mod classify;
pub mod edge;
pub mod frame;
pub mod session;

pub use edge::EdgeKind;
pub use edge::Event;
