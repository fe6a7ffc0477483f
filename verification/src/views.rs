//! The two pictures of the spectrum view: a scrolling spectrogram and a bar
//! graph of the latest spectrum, kept as RGBA pixel buffers.
//!
//! Both are stored transposed (one row per time frame, or one row per
//! frequency bar) so that a frame is written along a row, and are turned a
//! quarter turn when handed to the screen.
use vstd::prelude::*;

verus! {

/// An RGBA pixel.
pub type Rgba = [u8; 4];

/// Byte `b` of a row-major RGBA buffer whose rows are `row_len` pixels long,
/// after writing `rows[r][j]` at pixel `j` of row `r` for every `r < n_rows`
/// (and `r < rows.len()`) and `j < rows[r].len()`.
pub open spec fn painted(raw: Seq<u8>, row_len: nat, rows: Seq<Seq<Rgba>>, n_rows: nat) -> Seq<u8> {
    Seq::new(
        raw.len(),
        |b: int|
            {
                let p = b / 4;
                let r = p / row_len as int;
                let j = p % row_len as int;
                if r < n_rows && r < rows.len() && j < rows[r].len() {
                    rows[r][j][b % 4]
                } else {
                    raw[b]
                }
            },
    )
}

/// `s` rotated left by `k` places: element `p` of the result is element
/// `p + k` (cyclically) of `s`.
pub open spec fn rotated_left(s: Seq<u8>, k: nat) -> Seq<u8> {
    Seq::new(s.len(), |p: int| s[(p + k) % (s.len() as int)])
}

/// The row-major RGBA bytes of a `width` x `height` image turned 90 degrees
/// counterclockwise: a `height` x `width` image in which the pixel at column
/// `y`, row `width - 1 - x` is the pixel at column `x`, row `y` of the
/// input.
pub open spec fn rotate270_spec(width: nat, height: nat, s: Seq<u8>) -> Seq<u8> {
    Seq::new(
        s.len(),
        |b: int|
            {
                let p = b / 4;
                let row = p / height as int;
                let col = p % height as int;
                s[(col * width + (width - 1 - row)) * 4 + b % 4]
            },
    )
}

/// `image::imageops::rotate270` on the row-major RGBA bytes of a
/// `width` x `height` image; the claim is that the result holds the same
/// pixels turned a quarter turn counterclockwise, as `rotate270_spec` writes
/// out (the function's loop puts pixel `(x, y)` at `(y, width - 1 - x)` of a
/// `height` x `width` buffer).
#[verifier::external_body]
fn rotate270_rgba(width: u32, height: u32, raw: &Vec<u8>) -> (r: Vec<u8>)
    requires
        raw@.len() == width * height * 4,
    ensures
        r@ == rotate270_spec(width as nat, height as nat, raw@),
{
    let img = image::RgbaImage::from_raw(width, height, raw.clone()).unwrap();
    image::imageops::rotate270(&img).into_raw()
}

/// Rotates `raw` left by `k` places.
fn rotate_bytes_left(raw: &Vec<u8>, k: usize) -> (r: Vec<u8>)
    requires
        k <= raw@.len(),
    ensures
        r@ == rotated_left(raw@, k as nat),
{
    let n = raw.len();
    let mut out: Vec<u8> = Vec::new();
    let mut p: usize = 0;
    while p < n
        invariant
            p <= n,
            k <= n,
            n == raw@.len(),
            out@ =~= rotated_left(raw@, k as nat).take(p as int),
        decreases n - p,
    {
        let q = if p < n - k {
            p + k
        } else {
            p - (n - k)
        };
        assert(q == (p + k) % (n as int)) by {
            if p < n - k {
                vstd::arithmetic::div_mod::lemma_small_mod((p + k) as nat, n as nat);
            } else {
                vstd::arithmetic::div_mod::lemma_small_mod((p + k - n) as nat, n as nat);
                vstd::arithmetic::div_mod::lemma_mod_sub_multiples_vanish((p + k) as int, n as int);
            }
        }
        out.push(raw[q]);
        p = p + 1;
    }
    out
}

/// Writes `rows[r][j]` at pixel `j` of row `r` of a buffer with rows of
/// `row_len` pixels, for the first `n_rows` rows.
fn paint_rows(raw: &Vec<u8>, row_len: usize, rows: &Vec<Vec<Rgba>>, n_rows: usize) -> (r: Vec<u8>)
    requires
        row_len > 0,
    ensures
        r@ == painted(raw@, row_len as nat, rows@.map_values(|v: Vec<Rgba>| v@), n_rows as nat),
{
    let ghost rs = rows@.map_values(|v: Vec<Rgba>| v@);
    let n = raw.len();
    let mut out: Vec<u8> = Vec::new();
    let mut b: usize = 0;
    while b < n
        invariant
            b <= n,
            n == raw@.len(),
            row_len > 0,
            rs == rows@.map_values(|v: Vec<Rgba>| v@),
            out@ =~= painted(raw@, row_len as nat, rs, n_rows as nat).take(b as int),
        decreases n - b,
    {
        let p = b / 4;
        let r = p / row_len;
        let j = p % row_len;
        let c = b % 4;
        let v = if r < n_rows && r < rows.len() && j < rows[r].len() {
            rows[r][j][c]
        } else {
            raw[b]
        };
        out.push(v);
        b = b + 1;
    }
    out
}

/// A scrolling spectrogram: `n_frames` rows (time) of `n_freqs` pixels
/// (frequency), row-major RGBA.
pub struct SpecImage {
    raw: Vec<u8>,
    n_frames: u32,
    n_freqs: u32,
}

impl SpecImage {
    #[verifier::type_invariant]
    spec fn inv(self) -> bool {
        self.raw@.len() == self.n_frames * self.n_freqs * 4
    }

    /// The pixel bytes, row-major, one row per time frame.
    pub closed spec fn pixels(self) -> Seq<u8> {
        self.raw@
    }

    /// Number of time frames shown.
    pub closed spec fn frames(self) -> nat {
        self.n_frames as nat
    }

    /// Number of frequency bins shown.
    pub closed spec fn freqs(self) -> nat {
        self.n_freqs as nat
    }

    /// A black, transparent spectrogram of `n_frames` frames of `n_freqs` bins.
    pub fn new(n_frames: u32, n_freqs: u32) -> (s: SpecImage)
        requires
            n_frames * n_freqs * 4 <= usize::MAX,
        ensures
            s.frames() == n_frames,
            s.freqs() == n_freqs,
            s.pixels() == Seq::new((n_frames * n_freqs * 4) as nat, |i: int| 0u8),
    {
        let len = n_frames as usize * n_freqs as usize * 4;
        let mut raw: Vec<u8> = Vec::new();
        let mut i: usize = 0;
        while i < len
            invariant
                i <= len,
                raw@ =~= Seq::new(i as nat, |k: int| 0u8),
            decreases len - i,
        {
            raw.push(0u8);
            i = i + 1;
        }
        SpecImage { raw, n_frames, n_freqs }
    }

    /// Width of the shown picture: the number of frames.
    pub fn w(&self) -> (r: usize)
        ensures
            r == self.frames(),
    {
        self.n_frames as usize
    }

    /// Height of the shown picture: the number of bins.
    pub fn h(&self) -> (r: usize)
        ensures
            r == self.freqs(),
    {
        self.n_freqs as usize
    }

    /// Adds `n_specs` new frames, whose pixels are `rows` (one row of colors
    /// per frame, longest rows cut to the number of bins). At most
    /// `n_frames - 1` frames are taken; they are written over the first rows
    /// and the picture is then rotated so that they follow the frames kept.
    pub fn update(&mut self, rows: &Vec<Vec<Rgba>>, n_specs: usize)
        requires
            n_specs > 0 ==> old(self).frames() > 0,
        ensures
            final(self).frames() == old(self).frames(),
            final(self).freqs() == old(self).freqs(),
            final(self).pixels() == spec_update(
                old(self).pixels(),
                old(self).frames(),
                old(self).freqs(),
                rows@.map_values(|v: Vec<Rgba>| v@),
                n_specs as nat,
            ),
    {
        proof { use_type_invariant(&*self); }
        if n_specs == 0 {
            return;
        }
        let n = if n_specs >= self.n_frames as usize {
            self.n_frames as usize - 1
        } else {
            n_specs
        };
        let w = self.n_frames as usize;
        let h = self.n_freqs as usize;
        if h == 0 {
            return;
        }
        let written = paint_rows(&self.raw, h, rows, n);
        let total = written.len();
        proof {
            assert(w * h * 4 == written@.len());
            assert(w * h * 4 == total);
            assert((w - n) * 4 <= usize::MAX && (w - n) * 4 * h <= w * h * 4) by (nonlinear_arith)
                requires
                    n <= w,
                    h > 0,
                    w > 0,
                    w * h * 4 <= usize::MAX,
            ;
        }
        let rotated = rotate_bytes_left(&written, (w - n) * 4 * h);
        self.raw = rotated;
    }

    /// The RGBA bytes of the picture as shown: `n_frames` wide (time to the
    /// right) and `n_freqs` high.
    pub fn display_bytes(&self) -> (r: Vec<u8>)
        ensures
            r@ == rotate270_spec(self.freqs(), self.frames(), self.pixels()),
    {
        proof { use_type_invariant(self); }
        rotate270_rgba(self.n_freqs, self.n_frames, &self.raw)
    }
}

/// The spectrogram after adding `n_specs` frames with pixels `rows`.
pub open spec fn spec_update(
    pixels: Seq<u8>,
    frames: nat,
    freqs: nat,
    rows: Seq<Seq<Rgba>>,
    n_specs: nat,
) -> Seq<u8> {
    if n_specs == 0 || freqs == 0 {
        pixels
    } else {
        let n: nat = if n_specs >= frames {
            (frames - 1) as nat
        } else {
            n_specs
        };
        rotated_left(painted(pixels, freqs, rows, n), ((frames - n) * 4 * freqs) as nat)
    }
}

/// A bar graph of one spectrum: bar `q` spans rows `q * bar_width ..` of an
/// `n_fft` x `n_fft` picture and is lit up to its length.
pub struct FtAudio {
    raw: Vec<u8>,
    n_fft: usize,
    height: u32,
    width: u32,
    bar_width: u32,
}

/// Byte `b` of a square `n` x `n` RGBA picture after drawing bars: row `r`
/// belongs to bar `r / bar_width`, and if that bar has a length, pixel `i` of
/// the row is `fg` when `i` is below the length and `bg` otherwise.
pub open spec fn bars_painted(
    raw: Seq<u8>,
    n: nat,
    bar_width: nat,
    bars: Seq<usize>,
    fg: Rgba,
    bg: Rgba,
) -> Seq<u8> {
    Seq::new(
        raw.len(),
        |b: int|
            {
                let p = b / 4;
                let r = p / n as int;
                let i = p % n as int;
                let q = r / bar_width as int;
                if q < bars.len() {
                    if i < bars[q] {
                        fg[b % 4]
                    } else {
                        bg[b % 4]
                    }
                } else {
                    raw[b]
                }
            },
    )
}

impl FtAudio {
    #[verifier::type_invariant]
    spec fn inv(self) -> bool {
        &&& self.raw@.len() == self.n_fft * self.n_fft * 4
        &&& self.n_fft <= u32::MAX
        &&& self.bar_width == 1
    }

    /// The pixel bytes, row-major, one row per frequency bar.
    pub closed spec fn pixels(self) -> Seq<u8> {
        self.raw@
    }

    /// Side of the square picture.
    pub closed spec fn size(self) -> nat {
        self.n_fft as nat
    }

    /// Width of the widget the graph is drawn for.
    pub closed spec fn width_spec(self) -> nat {
        self.width as nat
    }

    /// Height of the widget the graph is drawn for.
    pub closed spec fn height_spec(self) -> nat {
        self.height as nat
    }

    /// Rows per bar.
    pub closed spec fn bar_width_spec(self) -> nat {
        self.bar_width as nat
    }

    /// A black, transparent graph of `n_fft` bars of one row each, for a
    /// widget of `width` x `height`.
    pub fn new(width: u32, height: u32, n_fft: usize) -> (f: FtAudio)
        requires
            n_fft <= u32::MAX,
            n_fft * n_fft * 4 <= usize::MAX,
        ensures
            f.size() == n_fft,
            f.width_spec() == width,
            f.height_spec() == height,
            f.bar_width_spec() == 1,
            f.pixels() == Seq::new((n_fft * n_fft * 4) as nat, |i: int| 0u8),
    {
        let len = n_fft * n_fft * 4;
        let mut raw: Vec<u8> = Vec::new();
        let mut i: usize = 0;
        while i < len
            invariant
                i <= len,
                raw@ =~= Seq::new(i as nat, |k: int| 0u8),
            decreases len - i,
        {
            raw.push(0u8);
            i = i + 1;
        }
        FtAudio { raw, n_fft, height, width, bar_width: 1 }
    }

    /// Width of the widget the graph is drawn for.
    pub fn width(&self) -> (r: u32)
        ensures
            r == self.width_spec(),
    {
        self.width
    }

    /// Height of the widget the graph is drawn for.
    pub fn height(&self) -> (r: u32)
        ensures
            r == self.height_spec(),
    {
        self.height
    }

    /// Draws the bars of `bars` (lengths in pixels): bar `q` covers the rows
    /// of its band, lit in `fg` below its length and `bg` above. Bands past
    /// the last bar keep their pixels.
    pub fn update(&mut self, bars: &Vec<usize>, fg: Rgba, bg: Rgba)
        ensures
            final(self).size() == old(self).size(),
            final(self).width_spec() == old(self).width_spec(),
            final(self).height_spec() == old(self).height_spec(),
            final(self).bar_width_spec() == old(self).bar_width_spec(),
            final(self).pixels() == bars_painted(
                old(self).pixels(),
                old(self).size(),
                old(self).bar_width_spec(),
                bars@,
                fg,
                bg,
            ),
    {
        proof { use_type_invariant(&*self); }
        let n = self.raw.len();
        let side = self.n_fft;
        let bw = self.bar_width as usize;
        let mut out: Vec<u8> = Vec::new();
        let mut b: usize = 0;
        while b < n
            invariant
                b <= n,
                n == self.raw@.len(),
                n == side * side * 4,
                bw == 1,
                out@ =~= bars_painted(self.raw@, side as nat, bw as nat, bars@, fg, bg).take(b as int),
            decreases n - b,
        {
            proof {
                if side == 0 {
                    assert(side * side * 4 == 0) by (nonlinear_arith)
                        requires
                            side == 0,
                    ;
                }
            }
            let p = b / 4;
            let r = p / side;
            let i = p % side;
            let q = r / bw;
            let c = b % 4;
            let v = if q < bars.len() {
                if i < bars[q] {
                    fg[c]
                } else {
                    bg[c]
                }
            } else {
                self.raw[b]
            };
            out.push(v);
            b = b + 1;
        }
        self.raw = out;
    }

    /// The RGBA bytes of the graph as shown (`n_fft` x `n_fft`), bars
    /// standing upright.
    pub fn display_bytes(&self) -> (r: Vec<u8>)
        ensures
            r@ == rotate270_spec(self.size(), self.size(), self.pixels()),
    {
        proof { use_type_invariant(self); }
        rotate270_rgba(self.n_fft as u32, self.n_fft as u32, &self.raw)
    }
}

/// Where the frames go in the spectrogram: an update that takes `n` frames
/// writes them over the first `n` rows and then turns the picture by
/// `frames - n` whole rows, so that row `i` of the result is row
/// `(i + frames - n) mod frames` of the written picture; no pixel leaves its
/// row or moves within it.
pub proof fn lemma_spectrogram_rows(
    pixels: Seq<u8>,
    frames: nat,
    freqs: nat,
    rows: Seq<Seq<Rgba>>,
    n_specs: nat,
    i: nat,
    o: nat,
)
    requires
        pixels.len() == frames * freqs * 4,
        n_specs > 0 ==> frames > 0,
        freqs > 0,
        i < frames,
        o < freqs * 4,
    ensures
        ({
            let n: nat = if n_specs >= frames {
                (frames - 1) as nat
            } else {
                n_specs
            };
            let rl = (freqs * 4) as int;
            spec_update(pixels, frames, freqs, rows, n_specs)[i * rl + o] == painted(
                pixels,
                freqs,
                rows,
                n,
            )[((i + frames - n) % (frames as int)) * rl + o]
        }),
{
    let n: nat = if n_specs >= frames {
        (frames - 1) as nat
    } else {
        n_specs
    };
    let rl = (freqs * 4) as int;
    let w = frames as int;
    if n_specs == 0 {
        vstd::arithmetic::div_mod::lemma_mod_add_multiples_vanish(i as int, w);
        vstd::arithmetic::div_mod::lemma_small_mod(i, frames);
        assert(0 <= i * rl + o < pixels.len()) by (nonlinear_arith)
            requires
                0 <= o < rl,
                0 <= i < w,
                pixels.len() == frames * freqs * 4,
                w == frames,
                rl == freqs * 4,
        ;
        return;
    }
    let k = ((frames - n) * 4 * freqs) as nat;
    let total = pixels.len() as int;
    let p = i * rl + o;
    let a = i + w - n;
    assert(total == w * rl) by (nonlinear_arith)
        requires
            total == frames * freqs * 4,
            w == frames,
            rl == freqs * 4,
    ;
    assert(0 <= p < total) by (nonlinear_arith)
        requires
            p == i * rl + o,
            0 <= o < rl,
            0 <= i < w,
            total == w * rl,
    ;
    assert(p + k == a * rl + o) by (nonlinear_arith)
        requires
            p == i * rl + o,
            k == (frames - n) * 4 * freqs,
            a == i + w - n,
            w == frames,
            rl == freqs * 4,
    ;
    assert(a >= 0);
    vstd::arithmetic::div_mod::lemma_fundamental_div_mod_converse(a * rl + o, rl, a, o as int);
    vstd::arithmetic::div_mod::lemma_mod_breakdown(a * rl + o, rl, w);
    assert((p + k) % total == rl * (a % w) + o) by {
        assert(rl * w == total) by (nonlinear_arith)
            requires
                total == w * rl,
        ;
    }
    assert(rl * (a % w) == (a % w) * rl) by (nonlinear_arith);
}

/// Drawing the same bars twice gives the same picture as drawing them once.
pub proof fn lemma_bars_idempotent(
    raw: Seq<u8>,
    n: nat,
    bar_width: nat,
    bars: Seq<usize>,
    fg: Rgba,
    bg: Rgba,
)
    ensures
        bars_painted(bars_painted(raw, n, bar_width, bars, fg, bg), n, bar_width, bars, fg, bg)
            =~= bars_painted(raw, n, bar_width, bars, fg, bg),
{
}

/// Decomposes the byte index of byte `c` of pixel `j` in row `r` of a
/// row-major RGBA buffer with rows of `row_len` pixels.
proof fn lemma_pixel_byte(r: int, j: int, c: int, row_len: int)
    requires
        0 <= r,
        0 <= j < row_len,
        0 <= c < 4,
    ensures
        ((r * row_len + j) * 4 + c) / 4 == r * row_len + j,
        ((r * row_len + j) * 4 + c) % 4 == c,
        (r * row_len + j) / row_len == r,
        (r * row_len + j) % row_len == j,
        (r * row_len + j) * 4 + c == r * (row_len * 4) + (j * 4 + c),
        0 <= j * 4 + c < row_len * 4,
{
    assert(0 <= r * row_len + j) by (nonlinear_arith)
        requires
            0 <= r,
            0 <= j,
            0 < row_len,
    ;
    vstd::arithmetic::div_mod::lemma_fundamental_div_mod_converse(
        (r * row_len + j) * 4 + c,
        4,
        r * row_len + j,
        c,
    );
    vstd::arithmetic::div_mod::lemma_fundamental_div_mod_converse(r * row_len + j, row_len, r, j);
    assert((r * row_len + j) * 4 + c == r * (row_len * 4) + (j * 4 + c)) by (nonlinear_arith);
}

/// New spectra land in arrival order: after an update that takes `n` frames,
/// bin `j` of the `k`-th spectrum received (for `k < n`, `j` below both the
/// number of bins and the spectrum's length) is the pixel `j` of row
/// `(k + n) mod frames`, all four bytes of it.
pub proof fn lemma_spectra_in_arrival_order(
    pixels: Seq<u8>,
    frames: nat,
    freqs: nat,
    rows: Seq<Seq<Rgba>>,
    n_specs: nat,
    k: nat,
    j: nat,
    c: nat,
)
    requires
        pixels.len() == frames * freqs * 4,
        frames > 0,
        freqs > 0,
        k < rows.len(),
        k < (if n_specs >= frames { (frames - 1) as nat } else { n_specs }),
        j < freqs,
        j < rows[k as int].len(),
        c < 4,
    ensures
        ({
            let n: nat = if n_specs >= frames {
                (frames - 1) as nat
            } else {
                n_specs
            };
            let row = ((k + n) as int) % (frames as int);
            spec_update(pixels, frames, freqs, rows, n_specs)[(row * freqs + j) * 4 + c as int]
                == rows[k as int][j as int][c as int]
        }),
{
    let n: nat = if n_specs >= frames {
        (frames - 1) as nat
    } else {
        n_specs
    };
    let w = frames as int;
    let rl = (freqs * 4) as int;
    let row = ((k + n) as int) % w;
    vstd::arithmetic::div_mod::lemma_mod_bound((k + n) as int, w);
    lemma_pixel_byte(row, j as int, c as int, freqs as int);
    lemma_spectrogram_rows(pixels, frames, freqs, rows, n_specs, row as nat, (j * 4 + c) as nat);
    // (row + w - n) mod w == k
    assert((row + w - n) % w == k) by {
        if k + n < w {
            vstd::arithmetic::div_mod::lemma_fundamental_div_mod_converse((k + n) as int, w, 0, (k + n) as int);
            vstd::arithmetic::div_mod::lemma_fundamental_div_mod_converse(k + w, w, 1, k as int);
        } else {
            vstd::arithmetic::div_mod::lemma_fundamental_div_mod_converse((k + n) as int, w, 1, k + n - w);
            vstd::arithmetic::div_mod::lemma_fundamental_div_mod_converse(k as int, w, 0, k as int);
        }
    }
    lemma_pixel_byte(k as int, j as int, c as int, freqs as int);
    let bk = ((k * freqs + j) * 4 + c) as int;
    assert(bk == k * rl + (j * 4 + c));
    assert(bk < pixels.len()) by (nonlinear_arith)
        requires
            bk == (k * freqs + j) * 4 + c,
            k < frames,
            j < freqs,
            c < 4,
            pixels.len() == frames * freqs * 4,
    ;
    let pt = painted(pixels, freqs, rows, n);
    assert(pt[bk] == rows[k as int][j as int][c as int]);
    let br = (row * freqs + j) * 4 + c as int;
    assert(br == row * rl + (j * 4 + c));
    assert(spec_update(pixels, frames, freqs, rows, n_specs)[br] == pt[k * rl + (j * 4 + c)]);
}

/// Every pixel of a bar's band is drawn whole: for a row `r` whose bar `q =
/// r / bar_width` exists and every pixel `i` of that row, all four bytes
/// (alpha included) are those of `fg` when `i` is below the bar's length and
/// of `bg` otherwise; rows past the last bar keep all their bytes.
pub proof fn lemma_bars_whole_pixels(
    raw: Seq<u8>,
    n: nat,
    bar_width: nat,
    bars: Seq<usize>,
    fg: Rgba,
    bg: Rgba,
    r: nat,
    i: nat,
    c: nat,
)
    requires
        raw.len() == n * n * 4,
        bar_width > 0,
        r < n,
        i < n,
        c < 4,
    ensures
        ({
            let b = ((r * n + i) * 4 + c) as int;
            let q = r / bar_width;
            &&& 0 <= b < raw.len()
            &&& q < bars.len() ==> bars_painted(raw, n, bar_width, bars, fg, bg)[b] == (if i
                < bars[q as int] {
                fg[c as int]
            } else {
                bg[c as int]
            })
            &&& q >= bars.len() ==> bars_painted(raw, n, bar_width, bars, fg, bg)[b] == raw[b]
        }),
{
    lemma_pixel_byte(r as int, i as int, c as int, n as int);
    assert((r * n + i) * 4 + c < n * n * 4) by (nonlinear_arith)
        requires
            r < n,
            i < n,
            c < 4,
    ;
}


} // verus!
