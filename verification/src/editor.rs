//! The editor's state machine: how each message of the user interface or of
//! the playing stream changes the editor, and what it asks the outside world
//! (file dialogs, the output stream, the model, the views) to do.
use vstd::prelude::*;
use crate::playback::{
    CallbackAction, PlaybackCursor, SinkEvent, callback_step, drains, lemma_seek_then_report,
};

verus! {

/// Which picture the spectrum view shows.
#[derive(Clone, Copy, PartialEq, Eq, Structural, Debug)]
pub enum AudioVisualizer {
    FFT,
    Spec,
}

impl AudioVisualizer {
    /// The name shown in the picker.
    pub fn label(&self) -> (r: &'static str)
        ensures
            r@ == (match *self {
                AudioVisualizer::FFT => "FFT View"@,
                AudioVisualizer::Spec => "Spec View"@,
            }),
    {
        match self {
            AudioVisualizer::FFT => "FFT View",
            AudioVisualizer::Spec => "Spec View",
        }
    }
}

/// The editor's state, as far as its decisions go.
#[derive(Clone, Copy, PartialEq, Eq, Structural, Debug)]
pub struct EditorState {
    /// A file has been loaded.
    pub has_samples: bool,
    /// An output stream for the loaded file exists and takes seeks.
    pub has_audio_ctl: bool,
    /// Playback position, in input frames.
    pub timestamp: usize,
    /// The pointer is held down on the spectrum view.
    pub on_change_freq: bool,
    /// The picture shown.
    pub visualizer: AudioVisualizer,
}

/// A message to the editor.
#[derive(Clone, Debug)]
pub enum EditorMessage {
    /// A message that changes nothing.
    NoOp,
    /// Decoding of the chosen file ended, successfully or not.
    FileLoaded(bool),
    /// Building the output stream for the loaded file ended, successfully or
    /// not.
    SinkLoaded(bool),
    /// The user chose a file to load.
    LoadFile,
    PickFile,
    Play,
    Pause,
    /// The pointer moved over the spectrum view.
    MouseAudioView,
    /// The periodic timer fired; `sink_messages_ready` tells whether the
    /// stream's status queue is to be drained.
    Tick { sink_messages_ready: bool },
    /// The model delivered `received` new spectra since the last tick.
    ProcessTick { received: usize },
    /// Status messages drained from the stream.
    AudioSinkMessage(Vec<SinkEvent>),
    PickVisualizer(AudioVisualizer),
    /// The attenuation slider moved.
    AttenChange,
    /// The post-filter slider moved.
    PostFilterBeta,
    /// A slider was released: send the model settings.
    UpdateModel,
    /// The user dragged the position slider to an input frame.
    ChangeTimestamp(usize),
    MouseAudioViewPress,
    MouseAudioViewRelease,
}

/// Work the editor asks for.
#[derive(Clone, Copy, PartialEq, Eq, Structural, Debug)]
pub enum EditorEffect {
    /// Decode the chosen file in the background.
    StartLoad,
    /// Show the file dialog in the background.
    OpenFilePicker,
    /// Tell the model the sample rate of the loaded file.
    SendInputSampleRate,
    /// Build the output stream for the loaded file and keep the file.
    LoadSink,
    Pause,
    Play,
    /// Ask the stream to continue at an input frame.
    Seek(usize),
    /// Schedule the processing tick.
    ScheduleProcessTick,
    /// Schedule draining the stream's status messages.
    ScheduleSinkMessages,
    /// Add the last `n` spectra to the spectrogram.
    RedrawSpectrogram(usize),
    /// Draw the latest spectrum as bars.
    RedrawSpectrum,
    /// Keep the attenuation shown on the slider.
    StoreAttenuation,
    /// Keep the post-filter beta shown on the slider.
    StorePostFilterBeta,
    /// Send the kept attenuation to the model.
    SendAttenLim,
    /// Send the kept post-filter beta to the model.
    SendPostFilterBeta,
}

/// The editor after a run of stream status messages, with the effects they
/// ask for: an end of file pauses playback, a position moves the cursor.
pub open spec fn apply_sink_events(s: EditorState, evs: Seq<SinkEvent>) -> (EditorState, Seq<EditorEffect>)
    decreases evs.len(),
{
    if evs.len() == 0 {
        (s, Seq::empty())
    } else {
        let (s1, e1) = apply_sink_events(s, evs.drop_last());
        match evs.last() {
            SinkEvent::FileEnded => (s1, e1.push(EditorEffect::Pause)),
            SinkEvent::Duration(t) => (EditorState { timestamp: t, ..s1 }, e1),
        }
    }
}

/// The editor after message `m`, with the effects it asks for.
pub open spec fn step_spec(s: EditorState, m: EditorMessage) -> (EditorState, Seq<EditorEffect>) {
    match m {
        EditorMessage::NoOp => (s, Seq::empty()),
        EditorMessage::FileLoaded(ok) => if ok {
            (
                EditorState { has_samples: true, ..s },
                seq![EditorEffect::SendInputSampleRate, EditorEffect::LoadSink],
            )
        } else {
            (s, Seq::empty())
        },
        EditorMessage::SinkLoaded(ok) => (EditorState { has_audio_ctl: ok, ..s }, Seq::empty()),
        EditorMessage::LoadFile => (s, seq![EditorEffect::StartLoad]),
        EditorMessage::PickFile => (s, seq![EditorEffect::OpenFilePicker]),
        EditorMessage::Play => (s, seq![EditorEffect::Play]),
        EditorMessage::Pause => (s, seq![EditorEffect::Pause]),
        EditorMessage::MouseAudioView => (s, Seq::empty()),
        EditorMessage::Tick { sink_messages_ready } => if sink_messages_ready {
            (s, seq![EditorEffect::ScheduleProcessTick, EditorEffect::ScheduleSinkMessages])
        } else {
            (s, seq![EditorEffect::ScheduleProcessTick])
        },
        EditorMessage::ProcessTick { received } => if received > 0 {
            (s, seq![EditorEffect::RedrawSpectrogram(received), EditorEffect::RedrawSpectrum])
        } else {
            (s, Seq::empty())
        },
        EditorMessage::AudioSinkMessage(evs) => apply_sink_events(s, evs@),
        EditorMessage::PickVisualizer(v) => (EditorState { visualizer: v, ..s }, Seq::empty()),
        EditorMessage::AttenChange => (s, seq![EditorEffect::StoreAttenuation]),
        EditorMessage::PostFilterBeta => (s, seq![EditorEffect::StorePostFilterBeta]),
        EditorMessage::UpdateModel => (
            s,
            seq![EditorEffect::SendAttenLim, EditorEffect::SendPostFilterBeta],
        ),
        EditorMessage::ChangeTimestamp(t) => if s.has_audio_ctl {
            (EditorState { timestamp: t, ..s }, seq![EditorEffect::Pause, EditorEffect::Seek(t)])
        } else {
            (s, Seq::empty())
        },
        EditorMessage::MouseAudioViewPress => (
            EditorState { on_change_freq: true, ..s },
            Seq::empty(),
        ),
        EditorMessage::MouseAudioViewRelease => (
            EditorState { on_change_freq: false, ..s },
            Seq::empty(),
        ),
    }
}

/// Whether the stream's status queue is to be drained on a tick: only while a
/// stream exists and more than one message waits.
pub fn sink_messages_ready(stream_present: bool, pending: usize) -> (r: bool)
    ensures
        r == (stream_present && drains(pending)),
{
    stream_present && pending > 1
}

impl EditorState {
    /// The editor as it starts: nothing loaded, at position 0, showing the
    /// bar graph.
    pub fn new() -> (s: EditorState)
        ensures
            s == (EditorState {
                has_samples: false,
                has_audio_ctl: false,
                timestamp: 0,
                on_change_freq: false,
                visualizer: AudioVisualizer::FFT,
            }),
    {
        EditorState {
            has_samples: false,
            has_audio_ctl: false,
            timestamp: 0,
            on_change_freq: false,
            visualizer: AudioVisualizer::FFT,
        }
    }

    fn apply_sink_events(&mut self, evs: &Vec<SinkEvent>, effects: &mut Vec<EditorEffect>)
        ensures
            (*final(self), final(effects)@) == ({
                let (s1, e1) = apply_sink_events(*old(self), evs@);
                (s1, old(effects)@ + e1)
            }),
    {
        let n = evs.len();
        let mut i: usize = 0;
        while i < n
            invariant
                i <= n,
                n == evs@.len(),
                (*self, effects@) == ({
                    let (s1, e1) = apply_sink_events(*old(self), evs@.take(i as int));
                    (s1, old(effects)@ + e1)
                }),
            decreases n - i,
        {
            proof {
                assert(evs@.take(i + 1).drop_last() =~= evs@.take(i as int));
                assert(evs@.take(i + 1).last() == evs@[i as int]);
            }
            match evs[i] {
                SinkEvent::FileEnded => {
                    effects.push(EditorEffect::Pause);
                },
                SinkEvent::Duration(t) => {
                    self.timestamp = t;
                },
            }
            proof {
                let (s1, e1) = apply_sink_events(*old(self), evs@.take(i as int));
                assert(old(effects)@ + e1.push(EditorEffect::Pause) =~= (old(effects)@ + e1).push(
                    EditorEffect::Pause,
                ));
            }
            i = i + 1;
        }
        proof {
            assert(evs@.take(n as int) =~= evs@);
        }
    }

    /// Handles message `m` and returns the effects it asks for, in order.
    pub fn update(&mut self, m: &EditorMessage) -> (r: Vec<EditorEffect>)
        ensures
            (*final(self), r@) == step_spec(*old(self), *m),
    {
        let mut effects: Vec<EditorEffect> = Vec::new();
        match m {
            EditorMessage::NoOp => {},
            EditorMessage::FileLoaded(ok) => {
                if *ok {
                    effects.push(EditorEffect::SendInputSampleRate);
                    effects.push(EditorEffect::LoadSink);
                    self.has_samples = true;
                }
            },
            EditorMessage::SinkLoaded(ok) => {
                self.has_audio_ctl = *ok;
            },
            EditorMessage::LoadFile => {
                effects.push(EditorEffect::StartLoad);
            },
            EditorMessage::PickFile => {
                effects.push(EditorEffect::OpenFilePicker);
            },
            EditorMessage::Play => {
                effects.push(EditorEffect::Play);
            },
            EditorMessage::Pause => {
                effects.push(EditorEffect::Pause);
            },
            EditorMessage::MouseAudioView => {},
            EditorMessage::Tick { sink_messages_ready } => {
                effects.push(EditorEffect::ScheduleProcessTick);
                if *sink_messages_ready {
                    effects.push(EditorEffect::ScheduleSinkMessages);
                }
            },
            EditorMessage::ProcessTick { received } => {
                if *received > 0 {
                    effects.push(EditorEffect::RedrawSpectrogram(*received));
                    effects.push(EditorEffect::RedrawSpectrum);
                }
            },
            EditorMessage::AudioSinkMessage(evs) => {
                self.apply_sink_events(evs, &mut effects);
                proof {
                    let (s1, e1) = apply_sink_events(*old(self), evs@);
                    assert(Seq::<EditorEffect>::empty() + e1 =~= e1);
                }
            },
            EditorMessage::PickVisualizer(v) => {
                self.visualizer = *v;
            },
            EditorMessage::AttenChange => {
                effects.push(EditorEffect::StoreAttenuation);
            },
            EditorMessage::PostFilterBeta => {
                effects.push(EditorEffect::StorePostFilterBeta);
            },
            EditorMessage::UpdateModel => {
                effects.push(EditorEffect::SendAttenLim);
                effects.push(EditorEffect::SendPostFilterBeta);
            },
            EditorMessage::ChangeTimestamp(t) => {
                if self.has_audio_ctl {
                    effects.push(EditorEffect::Pause);
                    self.timestamp = *t;
                    effects.push(EditorEffect::Seek(*t));
                }
            },
            EditorMessage::MouseAudioViewPress => {
                self.on_change_freq = true;
            },
            EditorMessage::MouseAudioViewRelease => {
                self.on_change_freq = false;
            },
        }
        proof {
            assert(effects@ =~= step_spec(*old(self), *m).1);
        }
        effects
    }
}

/// Position reported last among `evs`, or `t` when none is.
pub open spec fn last_position(evs: Seq<SinkEvent>, t: usize) -> usize
    decreases evs.len(),
{
    if evs.len() == 0 {
        t
    } else {
        match evs.last() {
            SinkEvent::Duration(p) => p,
            SinkEvent::FileEnded => last_position(evs.drop_last(), t),
        }
    }
}

/// Number of end-of-file reports among `evs`.
pub open spec fn count_ended(evs: Seq<SinkEvent>) -> nat
    decreases evs.len(),
{
    if evs.len() == 0 {
        0
    } else {
        count_ended(evs.drop_last()) + if evs.last() == SinkEvent::FileEnded {
            1nat
        } else {
            0nat
        }
    }
}

/// Releasing the pointer always ends a drag on the spectrum view, and a press
/// followed by a release leaves the editor as it was apart from that.
pub proof fn lemma_press_release(s: EditorState)
    ensures
        step_spec(s, EditorMessage::MouseAudioViewRelease).0.on_change_freq == false,
        step_spec(step_spec(s, EditorMessage::MouseAudioViewPress).0, EditorMessage::MouseAudioViewRelease).0
            == (EditorState { on_change_freq: false, ..s }),
        step_spec(s, EditorMessage::MouseAudioViewPress).1.len() == 0,
        step_spec(s, EditorMessage::MouseAudioViewRelease).1.len() == 0,
{
}

/// Without an output stream a seek is ignored: the editor keeps its state
/// and asks for nothing.
pub proof fn lemma_seek_needs_stream(s: EditorState, t: usize)
    requires
        !s.has_audio_ctl,
    ensures
        step_spec(s, EditorMessage::ChangeTimestamp(t)) == (s, Seq::<EditorEffect>::empty()),
{
}

/// A run of stream status messages leaves the editor at the last position
/// reported (or where it was, if none is), asks for one pause per end of
/// file and for nothing else, and changes nothing else.
pub proof fn lemma_sink_events(s: EditorState, evs: Seq<SinkEvent>)
    ensures
        apply_sink_events(s, evs).0 == (EditorState { timestamp: last_position(evs, s.timestamp), ..s }),
        apply_sink_events(s, evs).1.len() == count_ended(evs),
        forall|k: int|
            0 <= k < apply_sink_events(s, evs).1.len() ==> #[trigger] apply_sink_events(s, evs).1[k]
                == EditorEffect::Pause,
    decreases evs.len(),
{
    if evs.len() > 0 {
        lemma_sink_events(s, evs.drop_last());
    }
}

/// Seeking shows the position sought: when the editor with an output stream
/// takes a seek to frame `t`, it asks the stream to seek to `t`, and when the
/// stream then reports playing at `t` the editor is at `t`.
pub proof fn lemma_seek_round_trip(s: EditorState, t: usize)
    requires
        s.has_audio_ctl,
    ensures
        step_spec(s, EditorMessage::ChangeTimestamp(t)).1.contains(EditorEffect::Seek(t)),
        step_spec(s, EditorMessage::ChangeTimestamp(t)).0.timestamp == t,
        apply_sink_events(step_spec(s, EditorMessage::ChangeTimestamp(t)).0, seq![SinkEvent::Duration(t)]).0.timestamp
            == t,
{
    let e = step_spec(s, EditorMessage::ChangeTimestamp(t)).1;
    assert(e[1] == EditorEffect::Seek(t));
    let evs = seq![SinkEvent::Duration(t)];
    assert(evs.drop_last() =~= Seq::<SinkEvent>::empty());
}

/// Seeking through the whole loop: the editor asks the stream to seek to
/// frame `t`; once the stream's cursor is at `t` (within the audio), its next
/// request reports playing at `t`, and the editor, taking that report, shows
/// position `t`.
pub proof fn lemma_seek_shown_after_playback(
    s: EditorState,
    t: usize,
    sought: PlaybackCursor,
    out_len: usize,
    out_channels: usize,
    r: CallbackAction,
    after: PlaybackCursor,
)
    requires
        s.has_audio_ctl,
        sought.in_channels() > 0,
        sought.current() == t * sought.in_channels(),
        sought.current() < sought.n_samples(),
        callback_step(sought, out_len, out_channels, r, after),
    ensures
        step_spec(s, EditorMessage::ChangeTimestamp(t)).1.contains(EditorEffect::Seek(t)),
        r is Render,
        apply_sink_events(
            step_spec(s, EditorMessage::ChangeTimestamp(t)).0,
            seq![SinkEvent::Duration(r->position)],
        ).0.timestamp == t,
{
    lemma_seek_round_trip(s, t);
    lemma_seek_then_report(sought, t, out_len, out_channels, r, after);
    let evs = seq![SinkEvent::Duration(r->position)];
    assert(evs.drop_last() =~= Seq::<SinkEvent>::empty());
}

/// Picking a view shows that view: whatever the state, `PickVisualizer(v)`
/// sets the picture to `v`, keeps everything else, and asks for nothing; so
/// the last pick wins over any earlier one.
pub proof fn lemma_pick_visualizer(s: EditorState, v: AudioVisualizer, u: AudioVisualizer)
    ensures
        step_spec(s, EditorMessage::PickVisualizer(v)).0.visualizer == v,
        step_spec(s, EditorMessage::PickVisualizer(v)).0.has_samples == s.has_samples,
        step_spec(s, EditorMessage::PickVisualizer(v)).0.has_audio_ctl == s.has_audio_ctl,
        step_spec(s, EditorMessage::PickVisualizer(v)).0.timestamp == s.timestamp,
        step_spec(s, EditorMessage::PickVisualizer(v)).0.on_change_freq == s.on_change_freq,
        step_spec(s, EditorMessage::PickVisualizer(v)).1.len() == 0,
        step_spec(
            step_spec(s, EditorMessage::PickVisualizer(u)).0,
            EditorMessage::PickVisualizer(v),
        ).0.visualizer == v,
{
}

} // verus!
