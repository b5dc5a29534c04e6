//! Verified core of an audio-to-haptics bridge.
//!
//! A captured block is split into a low and a high band, each band is reduced
//! to one magnitude, the magnitudes are normalised against decaying peaks,
//! and the resulting intensities are sent to a haptic device, one block at a
//! time. This crate holds what is decided and computed on the way: which
//! filters may be designed for a sample rate, the envelope of a band, the
//! normalisation, the rendering of debug bars, and the consumer's reaction to
//! every delivery from the channel and every answer of the device.
//!
//! All levels are fixed-point numbers: see [`level`]. Running the filters and
//! talking to the audio server and the device is left to the caller.

pub mod band;
pub mod bar;
pub mod config;
pub mod consumer;
pub mod envelope;
pub mod filter;
pub mod level;
pub mod message;
pub mod normalizer;
pub mod tracker;
