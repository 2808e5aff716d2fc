//! Core of a pixel-based presentation runtime.
//!
//! A program supplies a logical pixel buffer, shader sources and an optional
//! audio synthesizer; this crate decides, frame by frame, exactly which
//! backend operations realize that program on a window and an audio device:
//! which shaders to compile (each source at most once), which off-screen
//! passes to draw and in which order, how the logical buffer is sized, and
//! how many audio samples have been played.  The operations are emitted as
//! plain values, so every decision is verified; a thin unverified shell
//! executes them against the real window, GPU and audio device.

use vstd::prelude::*;

pub mod display;
pub mod error;
pub mod events;
pub mod pixels;
pub mod resources;
pub mod runtime;
pub mod shader_cache;
pub mod speaker;

verus! {

/// The number of audio samples in a second.  Synthesizer implementations
/// need this to compute the current time from the number of samples played.
pub const SAMPLES_PER_SECOND: u32 = 48_000;

} // verus!
