use audio_filter::transfer::Transfer;

#[test]
fn transfer_moves_block_in_order() {
    let block: Vec<f32> = vec![0.5, 1.0, 1.5, 2.0, 2.5];
    let mut t = Transfer::new(block.len());
    let mut received: Vec<f32> = Vec::new();
    // a ring buffer that takes two items at a time, then one
    for take in [2usize, 1, 2] {
        assert!(!t.is_complete());
        let pending = t.pending(&block);
        let n = take.min(pending.len());
        received.extend_from_slice(&pending[..n]);
        t.record(n);
    }
    assert!(t.is_complete());
    assert_eq!(t.offset(), 5);
    assert_eq!(t.remaining(), 0);
    assert_eq!(received, block);
}

#[test]
fn transfer_empty_block_is_complete() {
    let t = Transfer::new(0);
    assert!(t.is_complete());
    assert_eq!(t.remaining(), 0);
}

#[test]
fn transfer_zero_progress_keeps_pending() {
    let block = [1i16, 2, 3];
    let mut t = Transfer::new(3);
    t.record(0);
    assert_eq!(t.pending(&block), &[1, 2, 3]);
    t.record(1);
    assert_eq!(t.pending(&block), &[2, 3]);
    assert_eq!(t.offset(), 1);
    assert_eq!(t.remaining(), 2);
}
