//! Interleaved multi-channel sample layout: splitting a stream into frames,
//! reading a padded window of it, and copying a mono signal to every channel.
//!
//! These are the index computations of playback and export; the sample values
//! themselves are carried through unchanged, whatever their type.
use vstd::prelude::*;

verus! {

/// Number of frames of `size` samples that cover `len` samples, the last one
/// possibly shorter.
pub open spec fn frame_count(len: nat, size: nat) -> nat
    recommends
        size > 0,
{
    if len == 0 {
        0
    } else {
        ((len - 1) as nat / size + 1) as nat
    }
}

/// The `i`-th frame of `size` samples of `s`; the last frame holds what is left.
pub open spec fn frame_of<T>(s: Seq<T>, size: nat, i: int) -> Seq<T> {
    let start = i * size;
    let end = if (i + 1) * size <= s.len() { (i + 1) * size } else { s.len() as int };
    s.subrange(start, end)
}

/// `count` samples of `s` starting at `start`, with `pad` where `s` has ended.
pub open spec fn padded_window_spec<T>(s: Seq<T>, start: int, count: nat, pad: T) -> Seq<T> {
    Seq::new(count, |k: int| if start + k < s.len() { s[start + k] } else { pad })
}

/// A mono signal copied to `channels` interleaved channels.
pub open spec fn fan_out_spec<T>(mono: Seq<T>, channels: nat) -> Seq<T> {
    Seq::new(mono.len() * channels, |k: int| mono[k / channels as int])
}

proof fn lemma_frame_count_bounds(len: nat, size: nat, n: nat)
    requires
        size > 0,
        n > 0,
        (n - 1) * size < len,
        len <= n * size,
    ensures
        frame_count(len, size) == n,
{
    let q = ((len - 1) as nat / size) as int;
    let r = ((len - 1) as nat % size) as int;
    vstd::arithmetic::div_mod::lemma_fundamental_div_mod((len - 1) as int, size as int);
    vstd::arithmetic::div_mod::lemma_mod_bound((len - 1) as int, size as int);
    assert(q == n - 1) by (nonlinear_arith)
        requires
            (len - 1) as int == size * q + r,
            0 <= r < size,
            (n - 1) * size < len,
            len <= n * size,
            size > 0,
            n > 0,
    ;
}

/// Splits `samples` into consecutive frames of `channels` samples, as
/// `chunks(channels)` does; the last frame holds what is left over.
pub fn split_frames<T: Copy>(samples: &[T], channels: usize) -> (r: Vec<Vec<T>>)
    requires
        channels > 0,
    ensures
        r@.len() == frame_count(samples@.len(), channels as nat),
        forall|i: int|
            0 <= i < r@.len() ==> #[trigger] r@[i]@ == frame_of(samples@, channels as nat, i),
{
    let len = samples.len();
    let mut out: Vec<Vec<T>> = Vec::new();
    let mut start: usize = 0;
    assert(out@.len() * channels == 0) by (nonlinear_arith)
        requires
            out@.len() == 0,
    ;
    while start < len
        invariant
            len == samples@.len(),
            channels > 0,
            start <= len,
            start < len ==> start == out@.len() * channels,
            start == len ==> (out@.len() > 0 ==> (out@.len() - 1) * channels < len) && len
                <= out@.len() * channels,
            out@.len() * channels <= start + channels,
            forall|i: int|
                0 <= i < out@.len() ==> #[trigger] out@[i]@ == frame_of(
                    samples@,
                    channels as nat,
                    i,
                ),
        decreases len - start,
    {
        let end = if len - start < channels {
            len
        } else {
            start + channels
        };
        let mut frame: Vec<T> = Vec::new();
        let mut j: usize = start;
        while j < end
            invariant
                start <= j <= end,
                end <= len,
                len == samples@.len(),
                frame@ == samples@.subrange(start as int, j as int),
            decreases end - j,
        {
            frame.push(samples[j]);
            j = j + 1;
        }
        let ghost i = out@.len() as int;
        proof {
            assert((i + 1) * channels == i * channels + channels) by (nonlinear_arith);
            assert(frame@ == frame_of(samples@, channels as nat, i));
        }
        out.push(frame);
        start = end;
        proof {
            assert(out@.len() * channels == i * channels + channels) by (nonlinear_arith)
                requires
                    out@.len() == i + 1,
            ;
        }
    }
    proof {
        if len > 0 {
            lemma_frame_count_bounds(len as nat, channels as nat, out@.len());
        }
    }
    out
}

/// `count` samples of `samples` from index `start` on, with `pad` in place of
/// the samples past the end.
pub fn padded_window<T: Copy>(samples: &[T], start: usize, count: usize, pad: T) -> (r: Vec<T>)
    ensures
        r@ == padded_window_spec(samples@, start as int, count as nat, pad),
{
    let len = samples.len();
    let mut out: Vec<T> = Vec::new();
    let mut k: usize = 0;
    while k < count
        invariant
            k <= count,
            len == samples@.len(),
            out@ =~= padded_window_spec(samples@, start as int, k as nat, pad),
        decreases count - k,
    {
        if start < len && k < len - start {
            out.push(samples[start + k]);
        } else {
            out.push(pad);
        }
        k = k + 1;
    }
    out
}

/// Copies every sample of a mono signal to all `channels` slots of its frame
/// in an interleaved output.
pub fn fan_out<T: Copy>(mono: &[T], channels: usize) -> (r: Vec<T>)
    requires
        mono@.len() * channels <= usize::MAX,
    ensures
        r@ == fan_out_spec(mono@, channels as nat),
{
    let n = mono.len();
    let mut out: Vec<T> = Vec::new();
    let mut i: usize = 0;
    while i < n
        invariant
            i <= n,
            n == mono@.len(),
            n * channels <= usize::MAX,
            out@.len() == i * channels,
            forall|k: int|
                0 <= k < out@.len() ==> #[trigger] out@[k] == mono@[k / channels as int],
        decreases n - i,
    {
        let mut j: usize = 0;
        let ghost base = out@.len();
        while j < channels
            invariant
                j <= channels,
                i < n,
                n == mono@.len(),
                base == i * channels,
                out@.len() == base + j,
                forall|k: int|
                    0 <= k < base ==> #[trigger] out@[k] == mono@[k / channels as int],
                forall|k: int| base <= k < out@.len() ==> #[trigger] out@[k] == mono@[i as int],
            decreases channels - j,
        {
            out.push(mono[i]);
            j = j + 1;
        }
        proof {
            assert forall|k: int| base <= k < out@.len() implies #[trigger] out@[k] == mono@[k / channels as int] by {
                assert(k / channels as int == i) by (nonlinear_arith)
                    requires
                        base == i * channels,
                        base <= k < base + channels,
                        channels > 0,
                ;
            }
            assert(out@.len() == (i + 1) * channels) by (nonlinear_arith)
                requires
                    out@.len() == base + channels,
                    base == i * channels,
            ;
            assert((i + 1) * channels <= n * channels) by (nonlinear_arith)
                requires
                    i < n,
            ;
        }
        i = i + 1;
    }
    proof {
        assert(out@.len() == n * channels);
        assert(out@ =~= fan_out_spec(mono@, channels as nat));
    }
    out
}

/// Splitting into frames loses and repeats nothing: the frames, concatenated
/// in order, give back the samples.
pub proof fn lemma_frames_concatenate<T>(s: Seq<T>, size: nat)
    requires
        size > 0,
    ensures
        Seq::new(frame_count(s.len(), size), |i: int| frame_of(s, size, i)).flatten() =~= s,
    decreases s.len(),
{
    let frames = Seq::new(frame_count(s.len(), size), |i: int| frame_of(s, size, i));
    if s.len() == 0 {
    } else if s.len() <= size {
        assert(frame_count(s.len(), size) == 1) by {
            lemma_frame_count_bounds(s.len(), size, 1);
        }
        assert(frames.drop_first() =~= Seq::<Seq<T>>::empty());
        assert(frames.drop_first().flatten() =~= Seq::<T>::empty());
        assert(frames[0] =~= s);
    } else {
        let rest = s.subrange(size as int, s.len() as int);
        lemma_frames_concatenate(rest, size);
        let n = frame_count(s.len(), size);
        let m = frame_count(rest.len(), size);
        assert(n == m + 1) by {
            assert(((s.len() - 1) as nat / size) == ((rest.len() - 1) as nat / size) + 1) by (nonlinear_arith)
                requires
                    rest.len() == s.len() - size,
                    rest.len() > 0,
                    size > 0,
            {
                vstd::arithmetic::div_mod::lemma_div_plus_one((rest.len() - 1) as int, size as int);
            }
        }
        let rest_frames = Seq::new(m, |i: int| frame_of(rest, size, i));
        assert forall|i: int| 0 <= i < m implies #[trigger] frames.drop_first()[i] =~= rest_frames[i] by {
            assert((i + 1) * size == i * size + size) by (nonlinear_arith);
            assert((i + 2) * size == (i + 1) * size + size) by (nonlinear_arith);
            assert(frames.drop_first()[i] == frames[i + 1]);
            assert(frames[i + 1] == frame_of(s, size, i + 1));
            assert(rest_frames[i] == frame_of(rest, size, i));
            assert(0 <= i * size) by (nonlinear_arith)
                requires
                    0 <= i,
            ;
            assert(i * size < rest.len()) by (nonlinear_arith)
                requires
                    i < m,
                    m == frame_count(rest.len(), size),
                    size > 0,
                    rest.len() > 0,
            {
                vstd::arithmetic::div_mod::lemma_fundamental_div_mod((rest.len() - 1) as int, size as int);
                vstd::arithmetic::div_mod::lemma_mod_bound((rest.len() - 1) as int, size as int);
            }
        }
        assert(frames.drop_first() =~= rest_frames);
        assert(frames[0] =~= s.subrange(0, size as int));
        assert(s =~= s.subrange(0, size as int) + rest);
    }
}

/// Copying a mono signal to `channels` channels gives one output frame per
/// mono sample, holding that sample on every channel.
pub proof fn lemma_fan_out_frames<T>(mono: Seq<T>, channels: nat, i: int)
    requires
        channels > 0,
        0 <= i < mono.len(),
    ensures
        frame_count(fan_out_spec(mono, channels).len(), channels) == mono.len(),
        frame_of(fan_out_spec(mono, channels), channels, i) =~= Seq::new(channels, |j: int| mono[i]),
{
    let out = fan_out_spec(mono, channels);
    let n = mono.len();
    assert(out.len() == n * channels);
    assert((n - 1) * channels < n * channels && n * channels <= n * channels) by (nonlinear_arith)
        requires
            channels > 0,
            n > 0,
    ;
    lemma_frame_count_bounds(out.len(), channels, n);
    assert((i + 1) * channels <= n * channels && (i + 1) * channels == i * channels + channels)
        by (nonlinear_arith)
        requires
            i < n,
            0 <= i,
    ;
    let f = frame_of(out, channels, i);
    assert forall|j: int| 0 <= j < channels implies #[trigger] f[j] == mono[i] by {
        assert((i * channels + j) / channels as int == i) by (nonlinear_arith)
            requires
                0 <= j < channels,
                channels > 0,
        ;
        assert(0 <= i * channels + j < n * channels) by (nonlinear_arith)
            requires
                0 <= j < channels,
                0 <= i < n,
        ;
    }
    assert(0 <= i * channels) by (nonlinear_arith)
        requires
            0 <= i,
    ;
}

} // verus!
