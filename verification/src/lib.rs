//! Verified core of a real-time noise-suppression audio tool: the decisions
//! and index arithmetic of its audio threads, stream setup, playback cursor,
//! spectrum views and editor state machine.
use vstd::prelude::*;

pub mod audio;
pub mod editor;
pub mod filter;
pub mod frames;
pub mod playback;
pub mod stream_config;
pub mod transfer;
pub mod views;
pub mod worker;

verus! {

/// Number of samples per analysis frame of the spectrum view.
pub const N_FFT: usize = 512;

/// Frame size used by the spectrum view.
pub fn get_frame_size() -> (r: usize)
    ensures
        r == N_FFT,
{
    N_FFT
}

} // verus!
