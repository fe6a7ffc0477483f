//! Decisions of the real-time denoising worker.
//!
//! The worker thread reads fixed-size steps of audio from an input ring
//! buffer, resamples them to the model's rate when the stream runs at another
//! rate, runs the model, and writes the result to an output ring buffer. This
//! module holds its sizing and its per-iteration decision; the thread itself,
//! the ring buffers and the model run around it.
use vstd::prelude::*;
use std::sync::Arc;
use std::sync::atomic::AtomicBool;

verus! {

/// Capacity of each ring buffer, in model frames.
pub const RING_FRAMES: usize = 100;

/// A setting of the model that the editor can change while audio runs.
#[derive(Clone, Copy, PartialEq, Eq, Structural, Debug)]
pub enum DfControl {
    AttenLim,
    PostFilterBeta,
    MinThreshDb,
    MaxErbThreshDb,
    MaxDfThreshDb,
}

/// The flags shared between the thread that starts the worker and the worker:
/// set once the model is ready, and set to ask the worker to stop.
pub struct AtomicControls {
    has_init: Arc<AtomicBool>,
    should_stop: Arc<AtomicBool>,
}

impl AtomicControls {
    /// The flag set once the model is ready.
    pub closed spec fn init_flag(self) -> Arc<AtomicBool> {
        self.has_init
    }

    /// The flag set to ask the worker to stop.
    pub closed spec fn stop_flag(self) -> Arc<AtomicBool> {
        self.should_stop
    }

    /// Bundles the two flags.
    pub fn new(has_init: Arc<AtomicBool>, should_stop: Arc<AtomicBool>) -> (c: AtomicControls)
        ensures
            c.init_flag() == has_init,
            c.stop_flag() == should_stop,
    {
        AtomicControls { has_init, should_stop }
    }

    /// Hands out the two flags: the init flag, then the stop flag.
    pub fn into_inner(self) -> (r: (Arc<AtomicBool>, Arc<AtomicBool>))
        ensures
            r.0 == self.init_flag(),
            r.1 == self.stop_flag(),
    {
        (self.has_init, self.should_stop)
    }
}

/// Capacity of a ring buffer holding `RING_FRAMES` frames of `frame_size`.
pub fn ring_capacity(frame_size: usize) -> (r: usize)
    requires
        frame_size * RING_FRAMES <= usize::MAX,
    ensures
        r == frame_size * RING_FRAMES,
{
    frame_size * RING_FRAMES
}

/// Whether a stream at `stream_sr` needs a resampler to meet a model at
/// `model_sr`.
pub fn needs_resampler(stream_sr: usize, model_sr: usize) -> (r: bool)
    ensures
        r == (stream_sr != model_sr),
{
    stream_sr != model_sr
}

/// Samples of the stream that one model step consumes (or produces): one hop
/// of the model when the rates agree, otherwise what the resampler needs (or
/// gives) per hop.
pub fn frames_per_step(stream_sr: usize, model_sr: usize, hop_size: usize, resampler_frames: usize) -> (r:
    usize)
    ensures
        r == if stream_sr != model_sr {
            resampler_frames
        } else {
            hop_size
        },
{
    if needs_resampler(stream_sr, model_sr) {
        resampler_frames
    } else {
        hop_size
    }
}

/// What the worker does on one turn of its loop.
#[derive(Clone, Copy, PartialEq, Eq, Structural, Debug)]
pub enum WorkerAction {
    /// Leave the loop.
    Stop,
    /// Not enough input yet: sleep half a hop and look again.
    Wait,
    /// Take one step of input, run the model, write the output.
    Process,
}

/// The worker's decision for one turn: stop when asked to, otherwise process
/// a step as soon as a whole step of input is waiting, and wait until then.
pub open spec fn step_decision(stop_requested: bool, available: usize, n_in: usize) -> WorkerAction {
    if stop_requested {
        WorkerAction::Stop
    } else if available < n_in {
        WorkerAction::Wait
    } else {
        WorkerAction::Process
    }
}

/// The worker's decision for one turn, given whether it was asked to stop,
/// how many samples wait in the input ring buffer, and how many one step
/// takes.
pub fn worker_step(stop_requested: bool, available: usize, n_in: usize) -> (r: WorkerAction)
    ensures
        r == step_decision(stop_requested, available, n_in),
{
    if stop_requested {
        WorkerAction::Stop
    } else if available < n_in {
        WorkerAction::Wait
    } else {
        WorkerAction::Process
    }
}

/// Whether a model already loaded for `cached_channels` channels can serve a
/// request for `channels` channels.
pub fn reuse_model(cached_channels: Option<usize>, channels: usize) -> (r: bool)
    ensures
        r == (cached_channels == Some(channels)),
{
    match cached_channels {
        Some(c) => c == channels,
        None => false,
    }
}

/// The worker only runs the model on a full step of input and never after a
/// stop request; a stop request always ends the loop; and with no stop
/// request it never both waits and has a full step.
pub proof fn lemma_process_has_full_step(stop_requested: bool, available: usize, n_in: usize)
    ensures
        step_decision(stop_requested, available, n_in) == WorkerAction::Process ==> !stop_requested
            && available >= n_in,
        step_decision(stop_requested, available, n_in) == WorkerAction::Stop <==> stop_requested,
        step_decision(stop_requested, available, n_in) == WorkerAction::Wait ==> available < n_in,
{
}

/// The frame of silence written ahead of the audio always fits in an empty
/// ring buffer, so priming the input never waits for the worker.
pub proof fn lemma_padding_fits(frame_size: usize)
    requires
        frame_size * RING_FRAMES <= usize::MAX,
    ensures
        frame_size <= frame_size * RING_FRAMES,
{
}

} // verus!
