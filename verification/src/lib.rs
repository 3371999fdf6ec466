//! A software-defined composite-video decoder core.
//!
//! The pipeline turns a stream of raw analog-to-digital samples into a raster
//! image: raw samples are decoded to fixed-point voltages, smoothed over
//! fixed-length windows, segmented into scanlines at horizontal-sync edges,
//! demodulated against a known color carrier into Y/I/Q, converted to RGB,
//! and painted as pixel blocks into a flat pixel surface.
//!
//! All signal arithmetic is exact fixed-point integer arithmetic, so every
//! stage carries a contract that pins its result down to the bit.

pub mod bandpass;
pub mod color;
pub mod config;
pub mod demod;
pub mod fixed;
pub mod pipeline;
pub mod queue;
pub mod raster;
pub mod reconstruct;
pub mod trig;
pub mod volt;
pub mod window;
