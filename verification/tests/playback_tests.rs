use audio_filter::playback::{drains_pending, CallbackAction, PlaybackCursor, SinkControl};

#[test]
fn callback_reads_frames_and_advances() {
    // stereo input of 10 frames
    let mut c = PlaybackCursor::new(20, 2);
    // device asks for 8 samples of a 2-channel output: 4 frames
    let a = c.on_callback(8, 2);
    assert_eq!(a, CallbackAction::Render { position: 0, start: 0, count: 8 });
    assert_eq!(c.current_sample(), 8);
    let b = c.on_callback(8, 2);
    assert_eq!(b, CallbackAction::Render { position: 4, start: 8, count: 8 });
    let d = c.on_callback(8, 2);
    assert_eq!(d, CallbackAction::Render { position: 8, start: 16, count: 8 });
    assert_eq!(c.on_callback(8, 2), CallbackAction::Ended);
    assert_eq!(c.current_sample(), 24);
}

#[test]
fn seek_then_report_position() {
    let mut c = PlaybackCursor::new(300, 3);
    c.seek(40);
    assert_eq!(c.current_sample(), 120);
    assert_eq!(
        c.on_callback(6, 1),
        CallbackAction::Render { position: 40, start: 120, count: 18 }
    );
}

#[test]
fn controls_last_seek_wins() {
    let mut c = PlaybackCursor::new(100, 2);
    c.apply_controls(&vec![SinkControl::ChangeTimestamp(5), SinkControl::ChangeTimestamp(9)]);
    assert_eq!(c.current_sample(), 18);
    c.apply_controls(&vec![]);
    assert_eq!(c.current_sample(), 18);
}

#[test]
fn seek_past_end_ends() {
    let mut c = PlaybackCursor::new(10, 1);
    c.seek(10);
    assert_eq!(c.on_callback(4, 1), CallbackAction::Ended);
    assert_eq!(c.current_sample(), 10);
}

#[test]
fn queues_drained_only_above_one() {
    assert!(!drains_pending(0));
    assert!(!drains_pending(1));
    assert!(drains_pending(2));
}
