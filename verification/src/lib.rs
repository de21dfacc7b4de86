//! Verified core of a two-deck DJ engine.
//!
//! The audio side turns control events into commands for the audio thread,
//! keeps the decoder slot table and pages remote media; the bridge side
//! answers JSON-RPC requests. Values of floating point pass through as bit
//! patterns (see [`f32_bits`]): the library moves them, the application
//! computes with them.
use vstd::prelude::*;

pub mod audio;
pub mod bridge;
pub mod channel;
pub mod f32_bits;
pub mod state;
pub mod text;

verus! {

} // verus!
