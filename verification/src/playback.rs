//! The playback cursor of the output stream.
//!
//! Each time the device asks for `n` output frames, the stream reads the next
//! `n` input frames of the loaded audio (padding with silence past its end),
//! reports the playback position, and moves on; a seek from the editor moves
//! the cursor to a given input frame. Controls and status messages are only
//! taken from their queues once more than one is waiting.
use vstd::prelude::*;

verus! {

/// Control sent from the editor to the playing stream.
#[derive(Clone, Copy, PartialEq, Eq, Structural, Debug)]
pub enum SinkControl {
    /// Continue playback at the given input frame.
    ChangeTimestamp(usize),
}

/// Status sent from the playing stream to the editor.
#[derive(Clone, Copy, PartialEq, Eq, Structural, Debug)]
pub enum SinkEvent {
    /// The cursor is past the end of the audio.
    FileEnded,
    /// Playback is at the given input frame.
    Duration(usize),
}

/// What the stream does for one request of the device.
#[derive(Clone, Copy, PartialEq, Eq, Structural, Debug)]
pub enum CallbackAction {
    /// The audio has ended: report it and leave the output untouched.
    Ended,
    /// Report `position`, then read `count` samples of the audio from index
    /// `start` on (silence past the end) and play them.
    Render { position: usize, start: usize, count: usize },
}

/// Whether a queue holding `pending` messages is drained now.
pub open spec fn drains(pending: usize) -> bool {
    pending > 1
}

/// Whether a queue holding `pending` messages is drained now: only when more
/// than one message is waiting.
pub fn drains_pending(pending: usize) -> (r: bool)
    ensures
        r == drains(pending),
{
    pending > 1
}

/// Where the stream reads in the interleaved audio.
pub struct PlaybackCursor {
    current: usize,
    in_channels: usize,
    n_samples: usize,
}

impl PlaybackCursor {
    #[verifier::type_invariant]
    spec fn inv(self) -> bool {
        self.in_channels > 0
    }

    /// Index of the next sample to play.
    pub closed spec fn current(self) -> nat {
        self.current as nat
    }

    /// Channels of the audio.
    pub closed spec fn in_channels(self) -> nat {
        self.in_channels as nat
    }

    /// Number of samples of the audio, all channels together.
    pub closed spec fn n_samples(self) -> nat {
        self.n_samples as nat
    }

    /// A cursor at the start of audio of `n_samples` samples with
    /// `in_channels` interleaved channels.
    pub fn new(n_samples: usize, in_channels: usize) -> (c: PlaybackCursor)
        requires
            in_channels > 0,
        ensures
            c.current() == 0,
            c.in_channels() == in_channels,
            c.n_samples() == n_samples,
    {
        PlaybackCursor { current: 0, in_channels, n_samples }
    }

    /// Index of the next sample to play.
    pub fn current_sample(&self) -> (r: usize)
        ensures
            r == self.current(),
    {
        self.current
    }

    /// Moves the cursor to input frame `timestamp`.
    pub fn seek(&mut self, timestamp: usize)
        requires
            timestamp * old(self).in_channels() <= usize::MAX,
        ensures
            final(self).current() == timestamp * old(self).in_channels(),
            final(self).in_channels() == old(self).in_channels(),
            final(self).n_samples() == old(self).n_samples(),
    {
        proof { use_type_invariant(&*self); }
        self.current = timestamp * self.in_channels;
    }

    /// Applies the drained controls in order: the last seek wins.
    pub fn apply_controls(&mut self, controls: &Vec<SinkControl>)
        requires
            forall|k: int|
                0 <= k < controls@.len() ==> match #[trigger] controls@[k] {
                    SinkControl::ChangeTimestamp(t) => t * old(self).in_channels() <= usize::MAX,
                },
        ensures
            final(self).in_channels() == old(self).in_channels(),
            final(self).n_samples() == old(self).n_samples(),
            controls@.len() == 0 ==> final(self).current() == old(self).current(),
            controls@.len() > 0 ==> match controls@.last() {
                SinkControl::ChangeTimestamp(t) => final(self).current() == t * old(
                    self,
                ).in_channels(),
            },
    {
        let n = controls.len();
        let ghost ic = self.in_channels();
        let mut i: usize = 0;
        while i < n
            invariant
                i <= n,
                n == controls@.len(),
                self.in_channels() == ic,
                self.n_samples() == old(self).n_samples(),
                ic == old(self).in_channels(),
                forall|k: int|
                    0 <= k < controls@.len() ==> match #[trigger] controls@[k] {
                        SinkControl::ChangeTimestamp(t) => t * ic <= usize::MAX,
                    },
                i == 0 ==> self.current() == old(self).current(),
                i > 0 ==> match controls@[i - 1] {
                    SinkControl::ChangeTimestamp(t) => self.current() == t * ic,
                },
            decreases n - i,
        {
            match controls[i] {
                SinkControl::ChangeTimestamp(t) => {
                    self.seek(t);
                },
            }
            i = i + 1;
        }
    }

    /// Handles one request of the device for `out_len` interleaved samples
    /// of `out_channels` channels: one output frame is played per input frame.
    pub fn on_callback(&mut self, out_len: usize, out_channels: usize) -> (r: CallbackAction)
        requires
            out_channels > 0,
            old(self).current() < old(self).n_samples() ==> old(self).current() + (out_len
                / out_channels) * old(self).in_channels() <= usize::MAX,
        ensures
            callback_step(*old(self), out_len, out_channels, r, *final(self)),
    {
        proof { use_type_invariant(&*self); }
        if self.current >= self.n_samples {
            return CallbackAction::Ended;
        }
        let position = self.current / self.in_channels;
        let frames = out_len / out_channels;
        proof {
            assert(frames * self.in_channels <= usize::MAX) by (nonlinear_arith)
                requires
                    self.current + frames * self.in_channels <= usize::MAX,
                    self.current >= 0,
            ;
        }
        let count = frames * self.in_channels;
        let start = self.current;
        self.current = self.current + count;
        CallbackAction::Render { position, start, count }
    }
}

/// The effect of one request of the device for `out_len` samples of
/// `out_channels` channels on a cursor `c`, giving action `r` and cursor `c2`.
pub open spec fn callback_step(
    c: PlaybackCursor,
    out_len: usize,
    out_channels: usize,
    r: CallbackAction,
    c2: PlaybackCursor,
) -> bool {
    &&& c2.in_channels() == c.in_channels()
    &&& c2.n_samples() == c.n_samples()
    &&& if c.current() >= c.n_samples() {
        r == CallbackAction::Ended && c2.current() == c.current()
    } else {
        let count = (out_len / out_channels) * c.in_channels();
        &&& r == (CallbackAction::Render {
            position: (c.current() / c.in_channels()) as usize,
            start: c.current() as usize,
            count: count as usize,
        })
        &&& c2.current() == c.current() + count
    }
}

/// A seek followed by a request of the device reports the frame sought and
/// plays from it, as long as it lies within the audio.
pub proof fn lemma_seek_then_report(
    sought: PlaybackCursor,
    timestamp: usize,
    out_len: usize,
    out_channels: usize,
    r: CallbackAction,
    after: PlaybackCursor,
)
    requires
        sought.in_channels() > 0,
        sought.current() == timestamp * sought.in_channels(),
        sought.current() < sought.n_samples(),
        callback_step(sought, out_len, out_channels, r, after),
    ensures
        r matches CallbackAction::Render { position, start, .. } && position == timestamp && start
            == timestamp * sought.in_channels(),
{
    let ic = sought.in_channels();
    assert((timestamp * ic) / ic as int == timestamp) by (nonlinear_arith)
        requires
            ic > 0,
    ;
}

/// Successive requests read the audio contiguously: each one starts where the
/// samples of the previous one end, so nothing is skipped or played twice.
pub proof fn lemma_requests_contiguous(
    c0: PlaybackCursor,
    len0: usize,
    ch0: usize,
    r0: CallbackAction,
    c1: PlaybackCursor,
    len1: usize,
    ch1: usize,
    r1: CallbackAction,
    c2: PlaybackCursor,
)
    requires
        ch0 > 0,
        callback_step(c0, len0, ch0, r0, c1),
        callback_step(c1, len1, ch1, r1, c2),
        r0 is Render,
        r1 is Render,
    ensures
        r1->start == r0->start + r0->count,
{
    let a: int = (len0 / ch0) as int;
    let b: int = c0.in_channels() as int;
    let count = (len0 / ch0) * c0.in_channels();
    assert(a * b >= 0) by (nonlinear_arith)
        requires
            a >= 0,
            b >= 0,
    ;
    assert(c1.current() <= usize::MAX);
    assert(count <= usize::MAX);
}

} // verus!
