//! Capability traits the radio driver is parametric over, and the radio
//! capability trait that both the hardware driver and the simulated radio
//! satisfy.
//!
//! The transport capabilities mirror what the chip needs from its caller: a
//! duplex two-byte transfer, two fallible digital output lines, and a
//! millisecond-granularity delay. They are consumed, not implemented, by the
//! driver; an adapter over any concrete hardware layer supplies them.

use vstd::prelude::*;

verus! {

/// A duplex byte-transfer capability. One call is one bus transaction body:
/// two bytes shifted out, and (for `transfer`) the two simultaneously
/// shifted-in bytes returned. Nothing is promised of the returned bytes: the
/// chip on the other end answers as it pleases.
pub trait DuplexTransfer {
    type BusError;

    /// Shifts `tx0` then `tx1` out and returns the two bytes shifted in.
    fn transfer(&mut self, tx0: u8, tx1: u8) -> Result<(u8, u8), Self::BusError>;

    /// Shifts `tx0` then `tx1` out, discarding whatever comes back.
    fn write(&mut self, tx0: u8, tx1: u8) -> Result<(), Self::BusError>;
}

/// A fallible digital output line. `is_high` is the level the line was last
/// successfully driven to; a successful call pins it, a failed call leaves
/// the line in an unknown state and promises nothing.
pub trait OutputPin {
    type PinError;

    /// The level the line was last driven to: true for high. An abstract
    /// state; implementations outside the verifier's view inherit the opaque
    /// default.
    closed spec fn is_high(&self) -> bool {
        arbitrary()
    }

    fn set_low(&mut self) -> (r: Result<(), Self::PinError>)
        ensures
            r is Ok ==> !final(self).is_high(),
    ;

    fn set_high(&mut self) -> (r: Result<(), Self::PinError>)
        ensures
            r is Ok ==> final(self).is_high(),
    ;
}

/// A millisecond-granularity delay capability. `ticks` is the total simulated
/// time this provider has slept, in milliseconds; each call adds exactly the
/// requested amount, which is what makes timeout budgets provable.
pub trait DelayMs {
    /// Total milliseconds slept so far. An abstract clock; implementations
    /// outside the verifier's view inherit the opaque default.
    closed spec fn ticks(&self) -> nat {
        arbitrary()
    }

    fn delay_ms(&mut self, ms: u8)
        ensures
            final(self).ticks() == old(self).ticks() + ms,
    ;
}

/// A payload is sent as at most 255 bytes: anything longer is silently cut to
/// its first 255 bytes. This truncation is deliberate and shared by every
/// radio implementation.
pub open spec fn spec_payload_trunc(p: Seq<u8>) -> Seq<u8> {
    if p.len() <= 255 {
        p
    } else {
        p.take(255)
    }
}

/// The radio capability: packet transmit and receive over any radio. The
/// contract here is the part every implementation honors: a missing packet is
/// not an error, and a received packet never exceeds 255 bytes. Each
/// implementation refines these with its own exact semantics.
///
/// Configuration is deliberately excluded: register layout is chip-specific.
pub trait EmbeddedRadio {
    type Error;

    /// Attempts to send a payload; only its first 255 bytes are sent.
    fn transmit_payload(&mut self, payload: &[u8]) -> Result<(), Self::Error>;

    /// Sends a payload, then blocks until the transmitter reports idle.
    fn transmit_payload_busy(&mut self, payload: &[u8]) -> Result<(), Self::Error>;

    /// Reports whether the radio is still transmitting a packet.
    fn transmitting(&mut self) -> Result<bool, Self::Error>;

    /// Non-blocking poll for an arrived packet; absence is `Ok(None)`.
    fn read_packet(&mut self) -> (r: Result<Option<Vec<u8>>, Self::Error>)
        ensures
            (r matches Ok(Some(p)) ==> p@.len() <= 255),
    ;

    /// Polls `read_packet` once per millisecond until a packet arrives or
    /// `timeout_ms` delay ticks have elapsed.
    fn read_packet_timeout<D: DelayMs>(&mut self, timeout_ms: i32, delay: &mut D) -> (r: Result<
        Option<Vec<u8>>,
        Self::Error,
    >)
        ensures
            (r matches Ok(Some(p)) ==> p@.len() <= 255),
    ;
}

} // verus!
