//! Relay of decoded SAME/EAS alert headers onto a low-bandwidth mesh radio
//! network.
//!
//! The crate holds the alert-processing pipeline: resolving geographic codes
//! to county/state names, classifying an alert's significance tier into a
//! presentation prefix and target channel, composing the outbound alert text,
//! splitting it into transport-sized fragments, and deciding the delivery
//! engine's waits and retries. All text is handled as UTF-8 bytes. The audio
//! demodulator, the mesh transport, and all I/O live outside this crate and
//! hand it plain values.

pub mod bytes;
pub mod chunk;
pub mod classify;
pub mod compose;
pub mod dataset;
pub mod location;
pub mod node;
pub mod pipeline;
pub mod sender;
pub mod text;
