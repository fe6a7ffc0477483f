use audio_filter::stream_config::{
    candidate_configs, config_choice_possible, get_stream_config, ConfigRange, SampleFormat,
    StreamDirection, StreamSettings,
};

fn range(channels: u16, fmt: SampleFormat, min: u32, max: u32) -> ConfigRange {
    ConfigRange { channels, sample_format: fmt, min_sample_rate: min, max_sample_rate: max }
}

#[test]
fn candidates_mono_first_then_multichannel_float_only() {
    let all = vec![
        range(2, SampleFormat::F32, 8000, 48000),
        range(1, SampleFormat::I16, 8000, 48000),
        range(1, SampleFormat::F32, 44100, 44100),
        range(6, SampleFormat::F32, 48000, 96000),
        range(0, SampleFormat::F32, 8000, 48000),
    ];
    let c = candidate_configs(&all);
    assert_eq!(c, vec![all[2], all[0], all[3]]);
}

#[test]
fn requested_rate_kept_with_one_frame_buffer() {
    let all = vec![
        range(2, SampleFormat::F32, 8000, 48000),
        range(1, SampleFormat::F32, 8000, 48000),
    ];
    assert!(config_choice_possible(&all, 16000, 480));
    let s = get_stream_config(&all, 16000, 480);
    assert_eq!(s, StreamSettings { channels: 1, sample_rate: 16000, buffer_size: 1920 });
}

#[test]
fn mono_not_supporting_rate_falls_to_stereo() {
    let all = vec![
        range(1, SampleFormat::F32, 44100, 44100),
        range(2, SampleFormat::F32, 8000, 48000),
    ];
    let s = get_stream_config(&all, 16000, 512);
    assert_eq!(s, StreamSettings { channels: 2, sample_rate: 16000, buffer_size: 2048 });
}

#[test]
fn no_rate_match_uses_first_at_max_rate_scaled() {
    let all = vec![
        range(2, SampleFormat::F32, 44100, 48000),
        range(1, SampleFormat::F32, 44100, 44100),
    ];
    // mono 44100 comes first among the candidates
    let s = get_stream_config(&all, 16000, 480);
    // 480 * 44100 / 16000 = 1323 frames, 4 bytes each
    assert_eq!(s, StreamSettings { channels: 1, sample_rate: 44100, buffer_size: 5292 });
}

#[test]
fn no_candidate_or_zero_rate_not_possible() {
    let all = vec![range(2, SampleFormat::I16, 8000, 48000)];
    assert!(candidate_configs(&all).is_empty());
    assert!(!config_choice_possible(&all, 16000, 480));
    let float = vec![range(1, SampleFormat::F32, 8000, 48000)];
    assert!(!config_choice_possible(&float, 0, 480));
    assert!(config_choice_possible(&float, 8000, 480));
    // the scaled buffer would not fit in 32 bits
    assert!(!config_choice_possible(&float, 4000, 1 << 20));
}

#[test]
fn direction_names() {
    assert_eq!(StreamDirection::Input.as_str(), "input");
    assert_eq!(StreamDirection::Output.as_str(), "output");
}
