//! Driver for Semtech SX1276/77/78/79 LoRa transceivers, together with the
//! radio capability trait it satisfies and an in-process simulated radio for
//! tests without hardware.
//!
//! The driver talks to the chip over a duplex byte-transfer capability plus
//! two digital output lines (chip select and reset) and a millisecond delay,
//! all supplied by the caller through the traits in [`radio_traits`].

pub mod radio_mock;
pub mod radio_traits;
pub mod sx127x_lora;

pub use radio_mock::{LoraError, MockLora};
pub use radio_traits::{DelayMs, DuplexTransfer, EmbeddedRadio, OutputPin};
pub use sx127x_lora::{Error, LoRa, RadioMode};
