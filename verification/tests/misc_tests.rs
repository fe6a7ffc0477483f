use std::sync::atomic::{AtomicBool, Ordering};
use std::sync::Arc;

use audio_filter::audio::{
    format_of_extension, frames_in, load_format, mp3_duration, wav_duration, AudioFormat,
    LoadError,
};
use audio_filter::filter::FilterType;
use audio_filter::get_frame_size;
use audio_filter::worker::{
    frames_per_step, needs_resampler, reuse_model, ring_capacity, worker_step, AtomicControls,
    DfControl, WorkerAction,
};

#[test]
fn formats_from_extension() {
    assert_eq!(format_of_extension(b"wav"), Some(AudioFormat::Wav));
    assert_eq!(format_of_extension(b"mp3"), Some(AudioFormat::Mp3));
    assert_eq!(format_of_extension(b"WAV"), None);
    assert_eq!(format_of_extension(b"flac"), None);
    assert_eq!(load_format(Some(b"mp3")), Ok(AudioFormat::Mp3));
    assert_eq!(load_format(Some(b"ogg")), Err(LoadError::FileNotFound));
    assert_eq!(load_format(None), Err(LoadError::FileNotFound));
}

#[test]
fn durations() {
    assert_eq!(wav_duration(88200, 2), 44100);
    assert_eq!(wav_duration(7, 2), 3);
    assert_eq!(mp3_duration(96000, 2), 48000);
    assert_eq!(frames_in(9, 2), 4);
}

#[test]
fn worker_sizing_and_steps() {
    assert_eq!(ring_capacity(480), 48000);
    assert!(needs_resampler(16000, 48000));
    assert!(!needs_resampler(48000, 48000));
    assert_eq!(frames_per_step(48000, 48000, 480, 161), 480);
    assert_eq!(frames_per_step(16000, 48000, 480, 161), 161);
    assert_eq!(worker_step(true, 1000, 480), WorkerAction::Stop);
    assert_eq!(worker_step(false, 479, 480), WorkerAction::Wait);
    assert_eq!(worker_step(false, 480, 480), WorkerAction::Process);
    assert!(reuse_model(Some(1), 1));
    assert!(!reuse_model(Some(2), 1));
    assert!(!reuse_model(None, 1));
}

#[test]
fn atomic_controls_hand_back_flags() {
    let init = Arc::new(AtomicBool::new(false));
    let stop = Arc::new(AtomicBool::new(false));
    let c = AtomicControls::new(init.clone(), stop.clone());
    let (i, s) = c.into_inner();
    i.store(true, Ordering::Relaxed);
    assert!(init.load(Ordering::Relaxed));
    assert!(!stop.load(Ordering::Relaxed));
    assert!(Arc::ptr_eq(&s, &stop));
}

#[test]
fn names_and_constants() {
    assert_eq!(FilterType::Lowpass.name(), "lowpass");
    assert_eq!(get_frame_size(), 512);
    assert_ne!(DfControl::AttenLim, DfControl::PostFilterBeta);
}
