use audio_filter::frames::{fan_out, padded_window, split_frames};

#[test]
fn split_frames_full_and_partial() {
    let s = [1, 2, 3, 4, 5, 6, 7];
    let f = split_frames(&s, 3);
    assert_eq!(f, vec![vec![1, 2, 3], vec![4, 5, 6], vec![7]]);
}

#[test]
fn split_frames_exact_and_empty() {
    let s = [1.0f32, -1.0, 0.5, -0.5];
    assert_eq!(split_frames(&s, 2), vec![vec![1.0, -1.0], vec![0.5, -0.5]]);
    let e: [f32; 0] = [];
    assert!(split_frames(&e, 2).is_empty());
}

#[test]
fn split_frames_concatenate_back() {
    let s: Vec<u32> = (0..23).collect();
    for size in 1..6usize {
        let joined: Vec<u32> = split_frames(&s, size).concat();
        assert_eq!(joined, s);
    }
}

#[test]
fn padded_window_pads_past_end() {
    let s = [1.0f32, 2.0, 3.0];
    assert_eq!(padded_window(&s, 1, 4, 0.0), vec![2.0, 3.0, 0.0, 0.0]);
    assert_eq!(padded_window(&s, 5, 2, 0.0), vec![0.0, 0.0]);
    assert_eq!(padded_window(&s, 0, 0, 0.0), Vec::<f32>::new());
}

#[test]
fn fan_out_copies_to_each_channel() {
    let mono = [0.25f32, -0.75];
    assert_eq!(fan_out(&mono, 3), vec![0.25, 0.25, 0.25, -0.75, -0.75, -0.75]);
    assert_eq!(fan_out(&mono, 1), vec![0.25, -0.75]);
    assert!(fan_out(&mono, 0).is_empty());
}

#[test]
fn fan_out_frames_hold_one_sample() {
    let mono = [3u8, 1, 4, 1, 5];
    let out = fan_out(&mono, 4);
    let frames = split_frames(&out, 4);
    assert_eq!(frames.len(), mono.len());
    for (f, m) in frames.iter().zip(mono.iter()) {
        assert_eq!(f, &vec![*m; 4]);
    }
}
