use audio_filter::editor::{
    sink_messages_ready, AudioVisualizer, EditorEffect, EditorMessage, EditorState,
};
use audio_filter::playback::{CallbackAction, PlaybackCursor, SinkControl, SinkEvent};

#[test]
fn editor_starts_empty() {
    let s = EditorState::new();
    assert!(!s.has_samples && !s.has_audio_ctl && !s.on_change_freq);
    assert_eq!(s.timestamp, 0);
    assert_eq!(s.visualizer, AudioVisualizer::FFT);
}

#[test]
fn load_then_seek() {
    let mut s = EditorState::new();
    assert!(s.update(&EditorMessage::ChangeTimestamp(50)).is_empty());
    assert_eq!(s.timestamp, 0);
    assert_eq!(
        s.update(&EditorMessage::FileLoaded(true)),
        vec![EditorEffect::SendInputSampleRate, EditorEffect::LoadSink]
    );
    assert!(s.has_samples);
    assert!(s.update(&EditorMessage::SinkLoaded(true)).is_empty());
    assert_eq!(
        s.update(&EditorMessage::ChangeTimestamp(50)),
        vec![EditorEffect::Pause, EditorEffect::Seek(50)]
    );
    assert_eq!(s.timestamp, 50);
}

#[test]
fn failed_load_changes_nothing() {
    let mut s = EditorState::new();
    assert!(s.update(&EditorMessage::FileLoaded(false)).is_empty());
    assert_eq!(s, EditorState::new());
}

#[test]
fn sink_messages_move_and_pause() {
    let mut s = EditorState::new();
    let fx = s.update(&EditorMessage::AudioSinkMessage(vec![
        SinkEvent::Duration(10),
        SinkEvent::FileEnded,
        SinkEvent::Duration(12),
    ]));
    assert_eq!(fx, vec![EditorEffect::Pause]);
    assert_eq!(s.timestamp, 12);
}

#[test]
fn press_release_and_picker() {
    let mut s = EditorState::new();
    s.update(&EditorMessage::MouseAudioViewPress);
    assert!(s.on_change_freq);
    s.update(&EditorMessage::MouseAudioView);
    assert!(s.on_change_freq);
    s.update(&EditorMessage::MouseAudioViewRelease);
    assert!(!s.on_change_freq);
    s.update(&EditorMessage::PickVisualizer(AudioVisualizer::Spec));
    assert_eq!(s.visualizer, AudioVisualizer::Spec);
    assert_eq!(AudioVisualizer::Spec.label(), "Spec View");
    assert_eq!(AudioVisualizer::FFT.label(), "FFT View");
}

#[test]
fn ticks_and_model_updates() {
    let mut s = EditorState::new();
    assert_eq!(
        s.update(&EditorMessage::Tick { sink_messages_ready: false }),
        vec![EditorEffect::ScheduleProcessTick]
    );
    assert_eq!(
        s.update(&EditorMessage::Tick { sink_messages_ready: true }),
        vec![EditorEffect::ScheduleProcessTick, EditorEffect::ScheduleSinkMessages]
    );
    assert!(s.update(&EditorMessage::ProcessTick { received: 0 }).is_empty());
    assert_eq!(
        s.update(&EditorMessage::ProcessTick { received: 3 }),
        vec![EditorEffect::RedrawSpectrogram(3), EditorEffect::RedrawSpectrum]
    );
    assert_eq!(s.update(&EditorMessage::AttenChange), vec![EditorEffect::StoreAttenuation]);
    assert_eq!(
        s.update(&EditorMessage::PostFilterBeta),
        vec![EditorEffect::StorePostFilterBeta]
    );
    assert_eq!(
        s.update(&EditorMessage::UpdateModel),
        vec![EditorEffect::SendAttenLim, EditorEffect::SendPostFilterBeta]
    );
    assert_eq!(s.update(&EditorMessage::PickFile), vec![EditorEffect::OpenFilePicker]);
    assert_eq!(s.update(&EditorMessage::LoadFile), vec![EditorEffect::StartLoad]);
    assert_eq!(s.update(&EditorMessage::Play), vec![EditorEffect::Play]);
    assert_eq!(s.update(&EditorMessage::Pause), vec![EditorEffect::Pause]);
    assert!(s.update(&EditorMessage::NoOp).is_empty());
    assert_eq!(s, EditorState::new());
}

#[test]
fn sink_ready_needs_stream_and_two_messages() {
    assert!(!sink_messages_ready(false, 5));
    assert!(!sink_messages_ready(true, 1));
    assert!(sink_messages_ready(true, 2));
}

#[test]
fn seek_shown_after_playback_reports() {
    let mut s = EditorState::new();
    s.update(&EditorMessage::FileLoaded(true));
    s.update(&EditorMessage::SinkLoaded(true));
    let effects = s.update(&EditorMessage::ChangeTimestamp(7));
    let mut cursor = PlaybackCursor::new(100, 2);
    for e in effects {
        if let EditorEffect::Seek(t) = e {
            cursor.apply_controls(&vec![SinkControl::ChangeTimestamp(t)]);
        }
    }
    let position = match cursor.on_callback(4, 2) {
        CallbackAction::Render { position, .. } => position,
        CallbackAction::Ended => panic!("audio ended"),
    };
    s.update(&EditorMessage::AudioSinkMessage(vec![SinkEvent::Duration(position)]));
    assert_eq!(s.timestamp, 7);
}
