use audio_filter::views::{FtAudio, SpecImage};

fn px(v: u8) -> [u8; 4] {
    [v, v, v, 255]
}

#[test]
fn spec_image_dimensions_and_zero() {
    let s = SpecImage::new(3, 2);
    assert_eq!(s.w(), 3);
    assert_eq!(s.h(), 2);
    assert_eq!(s.display_bytes(), vec![0u8; 24]);
}

#[test]
fn spec_update_zero_is_noop() {
    let mut s = SpecImage::new(3, 2);
    let before = s.display_bytes();
    s.update(&vec![vec![px(9), px(9)]], 0);
    assert_eq!(s.display_bytes(), before);
}

#[test]
fn spec_update_writes_and_rotates() {
    // 3 frames of 2 bins; add one frame [a, b]
    let mut s = SpecImage::new(3, 2);
    s.update(&vec![vec![px(1), px(2), px(7)]], 1);
    // written row 0 = [1, 2], then rotated left by 2 rows: row 1 holds it
    // shown picture: width 3 (frames), height 2 (bins); rotate270 puts
    // stored (col j, row r) at (col r, row 1 - j)
    let shown = s.display_bytes();
    let pixel = |x: usize, y: usize| shown[(y * 3 + x) * 4];
    assert_eq!(pixel(1, 1), 1);
    assert_eq!(pixel(1, 0), 2);
    assert_eq!(pixel(0, 0), 0);
    assert_eq!(pixel(2, 1), 0);
}

#[test]
fn spec_update_clamps_to_frames_minus_one() {
    let mut s = SpecImage::new(2, 1);
    s.update(&vec![vec![px(5)], vec![px(6)], vec![px(7)]], 3);
    // only one frame taken (frames - 1), rotated by one row: row 1 = [5]
    let shown = s.display_bytes();
    assert_eq!(shown, vec![0, 0, 0, 0, 5, 5, 5, 255]);
}

#[test]
fn ft_bars_and_rotation() {
    let mut f = FtAudio::new(200, 300, 3);
    assert_eq!(f.width(), 200);
    assert_eq!(f.height(), 300);
    f.update(&vec![2, 0], px(100), px(1));
    let shown = f.display_bytes();
    // stored row r = bar r; shown pixel (x, y) is stored (col 2 - y, row x)
    let pixel = |x: usize, y: usize| shown[(y * 3 + x) * 4];
    // bar 0 (shown column 0): stored cols 0, 1 lit, col 2 dark
    assert_eq!(pixel(0, 2), 100);
    assert_eq!(pixel(0, 1), 100);
    assert_eq!(pixel(0, 0), 1);
    // bar 1 (shown column 1): all dark
    assert_eq!(pixel(1, 2), 1);
    // no bar 2: untouched
    assert_eq!(pixel(2, 2), 0);
}

#[test]
fn ft_update_twice_same_picture() {
    let mut f = FtAudio::new(10, 10, 4);
    f.update(&vec![1, 3, 4], px(100), px(1));
    let once = f.display_bytes();
    f.update(&vec![1, 3, 4], px(100), px(1));
    assert_eq!(f.display_bytes(), once);
}
