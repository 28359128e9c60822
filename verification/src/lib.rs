//! Noise-triggered audio capture: a bounded history of recent samples, an
//! adaptive noise floor, and the debounced trigger that decides when a
//! recording is opened, fed and closed.
//!
//! Loudness is carried as a whole number of millibels (hundredths of a
//! decibel); times are milliseconds on a clock that the caller supplies.

pub mod ring;
pub mod circular_buffer;
pub mod cir_buf;
pub mod circular_buffer_stack;
pub mod noise_floor;
pub mod trigger;
pub mod recorder;
pub mod monitor;
