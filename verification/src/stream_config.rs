//! Choosing an audio stream configuration among those a device supports.
//!
//! A device reports ranges of configurations (channel count, sample format and
//! a range of sample rates). The playback stream wants 32-bit float samples,
//! preferably mono (multi-channel output is fed the same signal on every
//! channel), at the requested sample rate if the device supports it, and a
//! fixed buffer of one processing frame.
use vstd::prelude::*;

verus! {

/// Size in bytes of one sample of the stream (`f32`).
pub const SAMPLE_SIZE: usize = 4;

/// Format of one sample, as a device reports it.
#[derive(Clone, Copy, PartialEq, Eq, Structural, Debug)]
pub enum SampleFormat {
    I8,
    I16,
    I32,
    I64,
    U8,
    U16,
    U32,
    U64,
    F32,
    F64,
}

/// A range of stream configurations that a device supports.
#[derive(Clone, Copy, PartialEq, Eq, Structural, Debug)]
pub struct ConfigRange {
    pub channels: u16,
    pub sample_format: SampleFormat,
    pub min_sample_rate: u32,
    pub max_sample_rate: u32,
}

/// The configuration a stream is opened with; the buffer size is fixed.
#[derive(Clone, Copy, PartialEq, Eq, Structural, Debug)]
pub struct StreamSettings {
    pub channels: u16,
    pub sample_rate: u32,
    pub buffer_size: u32,
}

/// Whether a stream reads from or writes to the device.
#[derive(Clone, Copy, PartialEq, Eq, Structural, Debug)]
pub enum StreamDirection {
    Input,
    Output,
}

impl StreamDirection {
    /// Name of the direction, as shown in messages.
    pub fn as_str(&self) -> (r: &'static str)
        ensures
            r@ == (match *self {
                StreamDirection::Input => "input"@,
                StreamDirection::Output => "output"@,
            }),
    {
        match self {
            StreamDirection::Input => "input",
            StreamDirection::Output => "output",
        }
    }
}

/// A configuration of float samples with one channel (`mono`) or with two or
/// more channels (`!mono`).
pub open spec fn is_float_with(c: ConfigRange, mono: bool) -> bool {
    &&& c.sample_format == SampleFormat::F32
    &&& if mono {
        c.channels == 1
    } else {
        c.channels >= 2
    }
}

/// The configurations of `all` that satisfy `is_float_with(_, mono)`, in order.
pub open spec fn float_configs(all: Seq<ConfigRange>, mono: bool) -> Seq<ConfigRange>
    decreases all.len(),
{
    if all.len() == 0 {
        Seq::empty()
    } else {
        let prev = float_configs(all.drop_last(), mono);
        if is_float_with(all.last(), mono) {
            prev.push(all.last())
        } else {
            prev
        }
    }
}

/// The usable configurations in order of preference: the mono float ones,
/// then the multi-channel float ones, each in the order the device gave.
pub open spec fn candidates(all: Seq<ConfigRange>) -> Seq<ConfigRange> {
    float_configs(all, true) + float_configs(all, false)
}

/// Whether the rate range of `c` contains `sample_rate`.
pub open spec fn supports_rate(c: ConfigRange, sample_rate: u32) -> bool {
    c.min_sample_rate <= sample_rate <= c.max_sample_rate
}

/// `i` is the first configuration of `cands` that supports `sample_rate`.
pub open spec fn is_first_supporting(cands: Seq<ConfigRange>, sample_rate: u32, i: int) -> bool {
    &&& 0 <= i < cands.len()
    &&& supports_rate(cands[i], sample_rate)
    &&& forall|j: int| 0 <= j < i ==> !supports_rate(#[trigger] cands[j], sample_rate)
}

/// Some configuration of `cands` supports `sample_rate`.
pub open spec fn any_supports(cands: Seq<ConfigRange>, sample_rate: u32) -> bool {
    exists|i: int| 0 <= i < cands.len() && supports_rate(#[trigger] cands[i], sample_rate)
}

/// Buffer size in bytes when the device runs at the requested rate.
pub open spec fn exact_buffer_size(frame_size: usize) -> u32 {
    (frame_size * SAMPLE_SIZE) as u32
}

/// Buffer size in bytes when the device runs at `device_rate` in place of
/// `sample_rate`: the frame is scaled by the ratio of the two rates.
pub open spec fn scaled_buffer_size(frame_size: usize, device_rate: u32, sample_rate: u32) -> int {
    (((frame_size as u32) * device_rate) / (sample_rate as int)) * (SAMPLE_SIZE as int)
}

/// The arithmetic of the choice stays within its integer types (the inputs
/// for which the choice does not panic), given that there is a candidate.
pub open spec fn choice_in_range(cands: Seq<ConfigRange>, sample_rate: u32, frame_size: usize) -> bool {
    if any_supports(cands, sample_rate) {
        frame_size * SAMPLE_SIZE <= usize::MAX
    } else {
        &&& sample_rate > 0
        &&& (frame_size as u32) * cands[0].max_sample_rate <= u32::MAX
        &&& scaled_buffer_size(frame_size, cands[0].max_sample_rate, sample_rate) <= u32::MAX
    }
}

/// The configuration chosen among the candidates `cands`: the first one that
/// supports the requested rate, run at that rate with a buffer of one frame;
/// failing that, the first candidate at its highest rate, with the frame
/// scaled to that rate.
pub open spec fn chosen_settings(
    cands: Seq<ConfigRange>,
    sample_rate: u32,
    frame_size: usize,
    r: StreamSettings,
) -> bool {
    if any_supports(cands, sample_rate) {
        exists|i: int|
            is_first_supporting(cands, sample_rate, i) && r == (StreamSettings {
                channels: cands[i].channels,
                sample_rate,
                buffer_size: exact_buffer_size(frame_size),
            })
    } else {
        r == (StreamSettings {
            channels: cands[0].channels,
            sample_rate: cands[0].max_sample_rate,
            buffer_size: scaled_buffer_size(frame_size, cands[0].max_sample_rate, sample_rate) as u32,
        })
    }
}

fn collect_float_configs(all: &Vec<ConfigRange>, mono: bool, out: &mut Vec<ConfigRange>)
    ensures
        final(out)@ == old(out)@ + float_configs(all@, mono),
{
    let n = all.len();
    let ghost start = out@;
    let mut i: usize = 0;
    while i < n
        invariant
            i <= n,
            n == all@.len(),
            out@ == start + float_configs(all@.take(i as int), mono),
        decreases n - i,
    {
        let c = all[i];
        assert(all@.take(i + 1).drop_last() =~= all@.take(i as int));
        assert(all@.take(i + 1).last() == c);
        let fits = c.sample_format == SampleFormat::F32 && if mono {
            c.channels == 1
        } else {
            c.channels >= 2
        };
        if fits {
            out.push(c);
        }
        i = i + 1;
    }
    assert(all@.take(n as int) =~= all@);
}

/// The usable configurations of a device, in order of preference.
pub fn candidate_configs(all: &Vec<ConfigRange>) -> (r: Vec<ConfigRange>)
    ensures
        r@ == candidates(all@),
{
    let mut out: Vec<ConfigRange> = Vec::new();
    collect_float_configs(all, true, &mut out);
    collect_float_configs(all, false, &mut out);
    assert(out@ =~= candidates(all@));
    out
}

/// Whether a configuration can be chosen for these requests without
/// overflow: some candidate exists and the buffer arithmetic fits.
pub fn config_choice_possible(all: &Vec<ConfigRange>, sample_rate: u32, frame_size: usize) -> (r:
    bool)
    ensures
        r <==> candidates(all@).len() > 0 && choice_in_range(
            candidates(all@),
            sample_rate,
            frame_size,
        ),
{
    let cands = candidate_configs(all);
    if cands.len() == 0 {
        return false;
    }
    let n = cands.len();
    let mut i: usize = 0;
    while i < n
        invariant
            i <= n,
            n == cands@.len(),
            cands@ == candidates(all@),
            forall|j: int| 0 <= j < i ==> !supports_rate(#[trigger] cands@[j], sample_rate),
        decreases n - i,
    {
        if cands[i].min_sample_rate <= sample_rate && sample_rate <= cands[i].max_sample_rate {
            assert(supports_rate(cands@[i as int], sample_rate));
            return frame_size <= usize::MAX / SAMPLE_SIZE;
        }
        i = i + 1;
    }
    assert(!any_supports(cands@, sample_rate));
    if sample_rate == 0 {
        return false;
    }
    let max_rate = cands[0].max_sample_rate;
    let frames = frame_size as u32;
    if max_rate > 0 && frames > u32::MAX / max_rate {
        assert(frames * max_rate > u32::MAX) by (nonlinear_arith)
            requires
                max_rate > 0,
                frames > u32::MAX / max_rate,
        ;
        return false;
    }
    assert(frames * max_rate <= u32::MAX) by (nonlinear_arith)
        requires
            max_rate == 0 || frames <= u32::MAX / max_rate,
    ;
    let scaled = frames * max_rate / sample_rate;
    scaled <= u32::MAX / 4
}

/// Chooses the stream configuration for playing `frame_size`-sample frames at
/// `sample_rate` among the configurations `all` of a device.
pub fn get_stream_config(all: &Vec<ConfigRange>, sample_rate: u32, frame_size: usize) -> (r:
    StreamSettings)
    requires
        candidates(all@).len() > 0,
        choice_in_range(candidates(all@), sample_rate, frame_size),
    ensures
        chosen_settings(candidates(all@), sample_rate, frame_size, r),
{
    let cands = candidate_configs(all);
    let n = cands.len();
    let mut i: usize = 0;
    while i < n
        invariant
            i <= n,
            n == cands@.len(),
            cands@ == candidates(all@),
            choice_in_range(cands@, sample_rate, frame_size),
            forall|j: int| 0 <= j < i ==> !supports_rate(#[trigger] cands@[j], sample_rate),
        decreases n - i,
    {
        let c = cands[i];
        if c.min_sample_rate <= sample_rate && sample_rate <= c.max_sample_rate {
            assert(supports_rate(cands@[i as int], sample_rate));
            let buffer_size = (frame_size * SAMPLE_SIZE) as u32;
            let r = StreamSettings { channels: c.channels, sample_rate, buffer_size };
            assert(is_first_supporting(cands@, sample_rate, i as int));
            return r;
        }
        i = i + 1;
    }
    assert(!any_supports(cands@, sample_rate));
    let c = cands[0];
    let buffer_size = frame_size as u32 * c.max_sample_rate / sample_rate * SAMPLE_SIZE as u32;
    StreamSettings { channels: c.channels, sample_rate: c.max_sample_rate, buffer_size }
}

proof fn lemma_float_configs_members(all: Seq<ConfigRange>, mono: bool)
    ensures
        forall|k: int|
            0 <= k < float_configs(all, mono).len() ==> is_float_with(
                #[trigger] float_configs(all, mono)[k],
                mono,
            ) && all.contains(float_configs(all, mono)[k]),
        forall|k: int|
            0 <= k < all.len() && is_float_with(#[trigger] all[k], mono) ==> float_configs(
                all,
                mono,
            ).contains(all[k]),
    decreases all.len(),
{
    if all.len() > 0 {
        let prev = all.drop_last();
        lemma_float_configs_members(prev, mono);
        let f = float_configs(all, mono);
        let fp = float_configs(prev, mono);
        assert forall|k: int| 0 <= k < f.len() implies is_float_with(#[trigger] f[k], mono)
            && all.contains(f[k]) by {
            if k < fp.len() {
                assert(f[k] == fp[k]);
                let w = choose|w: int| 0 <= w < prev.len() && prev[w] == fp[k];
                assert(all[w] == fp[k]);
            } else {
                assert(f[k] == all.last());
                assert(all[all.len() - 1] == all.last());
            }
        }
        assert forall|k: int| 0 <= k < all.len() && is_float_with(#[trigger] all[k], mono)
            implies f.contains(all[k]) by {
            if k < prev.len() {
                assert(prev[k] == all[k]);
                let w = choose|w: int| 0 <= w < fp.len() && fp[w] == prev[k];
                assert(f[w] == fp[w]);
            } else {
                assert(f[f.len() - 1] == all.last());
            }
        }
    }
}

/// When some candidate supports the requested rate, the stream runs at that
/// rate with a buffer of exactly one frame.
pub proof fn lemma_requested_rate_kept(
    all: Seq<ConfigRange>,
    sample_rate: u32,
    frame_size: usize,
    r: StreamSettings,
)
    requires
        chosen_settings(candidates(all), sample_rate, frame_size, r),
        any_supports(candidates(all), sample_rate),
    ensures
        r.sample_rate == sample_rate,
        r.buffer_size == exact_buffer_size(frame_size),
{
}

/// Mono is preferred: when some mono float configuration of the device
/// supports the requested rate, the chosen stream is mono.
pub proof fn lemma_mono_preferred(
    all: Seq<ConfigRange>,
    sample_rate: u32,
    frame_size: usize,
    r: StreamSettings,
    m: int,
)
    requires
        0 <= m < all.len(),
        is_float_with(all[m], true),
        supports_rate(all[m], sample_rate),
        chosen_settings(candidates(all), sample_rate, frame_size, r),
    ensures
        r.channels == 1,
{
    let monos = float_configs(all, true);
    let cands = candidates(all);
    lemma_float_configs_members(all, true);
    lemma_float_configs_members(all, false);
    assert(monos.contains(all[m]));
    let w = choose|w: int| 0 <= w < monos.len() && monos[w] == all[m];
    assert(cands[w] == monos[w]);
    assert(any_supports(cands, sample_rate));
    let i = choose|i: int|
        is_first_supporting(cands, sample_rate, i) && r == (StreamSettings {
            channels: cands[i].channels,
            sample_rate,
            buffer_size: exact_buffer_size(frame_size),
        });
    if i >= monos.len() {
        assert(!supports_rate(cands[w], sample_rate));
    }
    assert(cands[i] == monos[i]);
    assert(is_float_with(monos[i], true));
}

/// The stream always takes the channel count of a float configuration that
/// the device reported.
pub proof fn lemma_channels_from_device(
    all: Seq<ConfigRange>,
    sample_rate: u32,
    frame_size: usize,
    r: StreamSettings,
)
    requires
        candidates(all).len() > 0,
        chosen_settings(candidates(all), sample_rate, frame_size, r),
    ensures
        exists|k: int|
            0 <= k < all.len() && (#[trigger] all[k]).sample_format == SampleFormat::F32
                && all[k].channels == r.channels,
{
    let monos = float_configs(all, true);
    let multis = float_configs(all, false);
    let cands = candidates(all);
    lemma_float_configs_members(all, true);
    lemma_float_configs_members(all, false);
    let i = if any_supports(cands, sample_rate) {
        choose|i: int|
            is_first_supporting(cands, sample_rate, i) && r == (StreamSettings {
                channels: cands[i].channels,
                sample_rate,
                buffer_size: exact_buffer_size(frame_size),
            })
    } else {
        0
    };
    assert(r.channels == cands[i].channels);
    if i < monos.len() {
        assert(cands[i] == monos[i]);
        assert(all.contains(monos[i]));
    } else {
        assert(cands[i] == multis[i - monos.len()]);
        assert(all.contains(multis[i - monos.len()]));
    }
}

} // verus!
