//! The window-scanning controller: a rectangular region-of-interest over a
//! source image, resampled into three per-channel histograms on a timed
//! cadence and advanced by a raster scan policy.
//!
//! The advance policy is deliberately a single-strip scan: the window only
//! ever shifts right by its own width, and resets to its initial position
//! once one more shift would push its right edge past the image.  The
//! vertical coordinate never advances, so one horizontal strip of the image
//! is scanned over and over.

use vstd::prelude::*;

use crate::grid::chan_of;
use crate::grid::Channel;
use crate::grid::GridView;
use crate::grid::PixelGrid;
use crate::hist::spec_bucket_vector;
use crate::hist::valid_config;
use crate::hist::ChannelHistogram;
use crate::hist::HistView;
use crate::sums::lemma_occurrence_counts_push;
use crate::sums::lemma_occurrence_counts_total;
use crate::sums::occurrence_counts;
use crate::sums::seq_count;
use crate::sums::sum_range;

verus! {

/// The sampled window lies partially or fully outside the image source.
#[derive(Clone, Copy, PartialEq, Eq, Structural, Debug)]
pub struct BoundsError;

/// The rectangular region-of-interest: top-left corner `(x, y)`, width `w`
/// and height `h`, in source-image pixel space.
#[derive(Clone, Copy, PartialEq, Eq, Structural, Debug)]
pub struct ScanWindow {
    pub x: u32,
    pub y: u32,
    pub w: u32,
    pub h: u32,
}

/// Whether every pixel of the window lies inside the grid.
pub open spec fn window_in_bounds(win: ScanWindow, g: GridView) -> bool {
    &&& win.x + win.w <= g.width
    &&& win.y + win.h <= g.height
}

/// The window's pixels for one channel, enumerated row-major as a sequence
/// of `w * h` intensities.
pub open spec fn window_chan_seq(g: GridView, win: ScanWindow, c: Channel) -> Seq<u8> {
    Seq::new(
        (win.w * win.h) as nat,
        |k: int|
            chan_of(
                g.pixel_at(win.x + k % (win.w as int), win.y + k / (win.w as int)),
                c,
            ),
    )
}

/// The explicit 8-bit-to-domain conversion: a raw channel intensity
/// `0..=255` is shifted by `+1` before recording, so the stored domain is
/// `1..=256` and zero stays outside the histogram's valid range.
pub fn domain_value(intensity: u8) -> (r: u64)
    ensures
        r == intensity + 1,
{
    intensity as u64 + 1
}

/// The histogram one sampling pass over the window produces for channel `c`:
/// the range `[1, 256]` at precision 1, holding each 8-bit intensity of the
/// window shifted by `+1`, so counter `i` counts the window's pixels whose
/// channel-`c` intensity is `i`.
pub open spec fn spec_sampled_hist(g: GridView, win: ScanWindow, c: Channel) -> HistView {
    HistView {
        low: 1,
        high: 256,
        precision: 1,
        counts: occurrence_counts(window_chan_seq(g, win, c)),
    }
}

/// The three per-channel histograms of one sampling pass.
pub struct ChannelHistograms {
    pub red: ChannelHistogram,
    pub green: ChannelHistogram,
    pub blue: ChannelHistogram,
}

impl ChannelHistograms {
    /// All three histograms are well formed.
    pub open spec fn wf(&self) -> bool {
        &&& self.red.wf()
        &&& self.green.wf()
        &&& self.blue.wf()
    }
}

/// The three fixed-length bucket-count vectors handed to the rendering
/// boundary, one per channel.
pub struct BucketVectors {
    pub red: Vec<u64>,
    pub green: Vec<u64>,
    pub blue: Vec<u64>,
}

/// Samples every pixel of `win` from `grid` into three freshly constructed
/// channel histograms over `[1, 256]`, recording each 8-bit intensity
/// shifted by `+1`.  Fails with `BoundsError` exactly when the window does
/// not lie fully inside the grid.
pub fn sample_window(grid: &PixelGrid, win: ScanWindow) -> (r: Result<
    ChannelHistograms,
    BoundsError,
>)
    requires
        grid.wf(),
    ensures
        r is Ok <==> window_in_bounds(win, grid@),
        r matches Ok(hs) ==> hs.wf() && hs.red@ == spec_sampled_hist(grid@, win, Channel::Red)
            && hs.green@ == spec_sampled_hist(grid@, win, Channel::Green) && hs.blue@
            == spec_sampled_hist(grid@, win, Channel::Blue),
        r is Err ==> r == Err::<ChannelHistograms, BoundsError>(BoundsError),
{
    let (gw, gh) = grid.dimensions();
    if !(win.x as u64 + win.w as u64 <= gw as u64 && win.y as u64 + win.h as u64 <= gh as u64) {
        return Err(BoundsError);
    }
    let red_r = ChannelHistogram::new(1, 256, 1);
    let green_r = ChannelHistogram::new(1, 256, 1);
    let blue_r = ChannelHistogram::new(1, 256, 1);
    proof {
        assert(valid_config(1, 256, 1));
    }
    // The fixed [1, 256] intensity configuration is valid, so construction
    // cannot fail and the error arms below are unreachable.
    let mut red = match red_r {
        Ok(h) => h,
        Err(_) => {
            proof {
                assert(false);
            }
            return Err(BoundsError);
        },
    };
    let mut green = match green_r {
        Ok(h) => h,
        Err(_) => {
            proof {
                assert(false);
            }
            return Err(BoundsError);
        },
    };
    let mut blue = match blue_r {
        Ok(h) => h,
        Err(_) => {
            proof {
                assert(false);
            }
            return Err(BoundsError);
        },
    };
    let w = win.w;
    let h = win.h;
    proof {
        red.lemma_wf();
        green.lemma_wf();
        blue.lemma_wf();
        assert forall|c: Channel, v: int| 0 <= v < 256 implies occurrence_counts(
            window_chan_seq(grid@, win, c).take(0),
        )[v] == 0 by {
            assert(seq_count(window_chan_seq(grid@, win, c).take(0), v as u8) == 0);
        }
        assert(red@.counts =~= occurrence_counts(window_chan_seq(grid@, win, Channel::Red).take(0)));
        assert(green@.counts =~= occurrence_counts(
            window_chan_seq(grid@, win, Channel::Green).take(0),
        ));
        assert(blue@.counts =~= occurrence_counts(
            window_chan_seq(grid@, win, Channel::Blue).take(0),
        ));
    }
    let mut py: u32 = 0;
    while py < h
        invariant
            py <= h,
            grid.wf(),
            window_in_bounds(win, grid@),
            w == win.w,
            h == win.h,
            red.wf() && green.wf() && blue.wf(),
            red@.low == 1 && red@.high == 256 && red@.precision == 1,
            green@.low == 1 && green@.high == 256 && green@.precision == 1,
            blue@.low == 1 && blue@.high == 256 && blue@.precision == 1,
            red@.counts == occurrence_counts(
                window_chan_seq(grid@, win, Channel::Red).take((py * w) as int),
            ),
            green@.counts == occurrence_counts(
                window_chan_seq(grid@, win, Channel::Green).take((py * w) as int),
            ),
            blue@.counts == occurrence_counts(
                window_chan_seq(grid@, win, Channel::Blue).take((py * w) as int),
            ),
            red@.total() == py * w,
            green@.total() == py * w,
            blue@.total() == py * w,
        decreases h - py,
    {
        proof {
            vstd::arithmetic::mul::lemma_mul_inequality(py as int, h as int - 1, w as int);
            vstd::arithmetic::mul::lemma_mul_inequality(py as int + 1, h as int, w as int);
            assert((py + 1) * w == py * w + w) by (nonlinear_arith) {}
            vstd::arithmetic::mul::lemma_mul_upper_bound(
                h as int,
                u32::MAX as int,
                w as int,
                u32::MAX as int,
            );
        }
        let mut px: u32 = 0;
        while px < w
            invariant
                px <= w,
                py < h,
                grid.wf(),
                window_in_bounds(win, grid@),
                w == win.w,
                h == win.h,
                py * w + w <= h * w,
                h * w <= u32::MAX * u32::MAX,
                red.wf() && green.wf() && blue.wf(),
                red@.low == 1 && red@.high == 256 && red@.precision == 1,
                green@.low == 1 && green@.high == 256 && green@.precision == 1,
                blue@.low == 1 && blue@.high == 256 && blue@.precision == 1,
                red@.counts == occurrence_counts(
                    window_chan_seq(grid@, win, Channel::Red).take((py * w + px) as int),
                ),
                green@.counts == occurrence_counts(
                    window_chan_seq(grid@, win, Channel::Green).take((py * w + px) as int),
                ),
                blue@.counts == occurrence_counts(
                    window_chan_seq(grid@, win, Channel::Blue).take((py * w + px) as int),
                ),
                red@.total() == py * w + px,
                green@.total() == py * w + px,
                blue@.total() == py * w + px,
            decreases w - px,
        {
            let p = grid.pixel_at(win.x + px, win.y + py);
            proof {
                let k = py * w + px;
                vstd::arithmetic::mul::lemma_mul_is_commutative(w as int, h as int);
                vstd::arithmetic::div_mod::lemma_fundamental_div_mod_converse(
                    k as int,
                    w as int,
                    py as int,
                    px as int,
                );
                lemma_take_one_more(grid@, win, Channel::Red, k as int);
                lemma_take_one_more(grid@, win, Channel::Green, k as int);
                lemma_take_one_more(grid@, win, Channel::Blue, k as int);
                lemma_occurrence_counts_push(
                    window_chan_seq(grid@, win, Channel::Red).take(k as int),
                    p.r,
                );
                lemma_occurrence_counts_push(
                    window_chan_seq(grid@, win, Channel::Green).take(k as int),
                    p.g,
                );
                lemma_occurrence_counts_push(
                    window_chan_seq(grid@, win, Channel::Blue).take(k as int),
                    p.b,
                );
                crate::sums::lemma_seq_count_le_len(
                    window_chan_seq(grid@, win, Channel::Red).take(k as int),
                    p.r,
                );
                crate::sums::lemma_seq_count_le_len(
                    window_chan_seq(grid@, win, Channel::Green).take(k as int),
                    p.g,
                );
                crate::sums::lemma_seq_count_le_len(
                    window_chan_seq(grid@, win, Channel::Blue).take(k as int),
                    p.b,
                );
            }
            let _ = red.record(domain_value(p.r));
            let _ = green.record(domain_value(p.g));
            let _ = blue.record(domain_value(p.b));
            px = px + 1;
        }
        py = py + 1;
    }
    proof {
        vstd::arithmetic::mul::lemma_mul_is_commutative(h as int, w as int);
        assert(window_chan_seq(grid@, win, Channel::Red).take((h * w) as int) =~= window_chan_seq(
            grid@,
            win,
            Channel::Red,
        ));
        assert(window_chan_seq(grid@, win, Channel::Green).take((h * w) as int) =~= window_chan_seq(
            grid@,
            win,
            Channel::Green,
        ));
        assert(window_chan_seq(grid@, win, Channel::Blue).take((h * w) as int) =~= window_chan_seq(
            grid@,
            win,
            Channel::Blue,
        ));
    }
    Ok(ChannelHistograms { red, green, blue })
}

/// One more pixel of the window extends the enumerated channel sequence by
/// that pixel's intensity.
proof fn lemma_take_one_more(g: GridView, win: ScanWindow, c: Channel, k: int)
    requires
        0 <= k < win.w * win.h,
    ensures
        window_chan_seq(g, win, c).take(k + 1) =~= window_chan_seq(g, win, c).take(k).push(
            chan_of(
                g.pixel_at(win.x + k % (win.w as int), win.y + k / (win.w as int)),
                c,
            ),
        ),
{
}

/// Derives the three fixed-length bucket vectors from one sampling pass's
/// histograms.
pub fn derive_bucket_vectors(hs: &ChannelHistograms) -> (r: BucketVectors)
    requires
        hs.wf(),
    ensures
        r.red@ == spec_bucket_vector(hs.red@),
        r.green@ == spec_bucket_vector(hs.green@),
        r.blue@ == spec_bucket_vector(hs.blue@),
        r.red@.len() == 16 && r.green@.len() == 16 && r.blue@.len() == 16,
{
    BucketVectors {
        red: hs.red.bucket_vector(),
        green: hs.green.bucket_vector(),
        blue: hs.blue.bucket_vector(),
    }
}

/// Conservation law for one sampling pass: the sampled histogram of each
/// channel holds exactly one sample per window pixel, so its total recorded
/// count is the window's pixel count `w * h`.
pub proof fn lemma_sampled_total(g: GridView, win: ScanWindow, c: Channel)
    ensures
        spec_sampled_hist(g, win, c).total() == win.w * win.h,
{
    vstd::arithmetic::mul::lemma_mul_upper_bound(
        win.w as int,
        u32::MAX as int,
        win.h as int,
        u32::MAX as int,
    );
    vstd::arithmetic::mul::lemma_mul_nonnegative(win.w as int, win.h as int);
    lemma_occurrence_counts_total(window_chan_seq(g, win, c));
}

/// Conservation law through bucketization: the sixteen entries of the bucket
/// vector derived from a sampled channel histogram add up to the window's
/// pixel count `w * h`.
pub proof fn lemma_sampled_bucket_vector_total(g: GridView, win: ScanWindow, c: Channel)
    ensures
        sum_range(spec_bucket_vector(spec_sampled_hist(g, win, c)), 0, 16) == win.w * win.h,
{
    vstd::arithmetic::mul::lemma_mul_upper_bound(
        win.w as int,
        u32::MAX as int,
        win.h as int,
        u32::MAX as int,
    );
    vstd::arithmetic::mul::lemma_mul_nonnegative(win.w as int, win.h as int);
    lemma_sampled_total(g, win, c);
    crate::hist::lemma_bucket_vector_total(spec_sampled_hist(g, win, c));
}

/// Idempotence law: what a sampling pass produces is a function of the image
/// and the window alone, so sampling an unchanged window of an unchanged
/// image twice yields identical histograms and identical bucket vectors.
pub proof fn lemma_sample_window_deterministic(
    g: GridView,
    win: ScanWindow,
    c: Channel,
    h1: HistView,
    h2: HistView,
)
    requires
        h1 == spec_sampled_hist(g, win, c),
        h2 == spec_sampled_hist(g, win, c),
    ensures
        h1 == h2,
        spec_bucket_vector(h1) == spec_bucket_vector(h2),
{
}

/// The cadence threshold: a tick advances and resamples only when more than
/// this many milliseconds have elapsed since the previous tick.
pub const TICK_CADENCE_MS: u64 = 250;

/// The raster scan policy: shift the window right by its own width while one
/// more such shift would keep its right edge inside the image, else reset it
/// to its initial position.  The vertical coordinate never advances.
pub open spec fn spec_advance(win: ScanWindow, init_x: u32, init_y: u32, limit_x: u32) -> ScanWindow {
    if win.x + win.w + win.w < limit_x {
        ScanWindow { x: (win.x + win.w) as u32, y: win.y, w: win.w, h: win.h }
    } else {
        ScanWindow { x: init_x, y: init_y, w: win.w, h: win.h }
    }
}

/// The mathematical content of the analysis state: the window and its
/// initial position, the source image bounds, and the three per-channel
/// histogram views with their derived bucket vectors.
pub struct StateView {
    pub window: ScanWindow,
    pub init_x: u32,
    pub init_y: u32,
    pub limit_x: u32,
    pub limit_y: u32,
    pub red: HistView,
    pub green: HistView,
    pub blue: HistView,
    pub red_values: Seq<u64>,
    pub green_values: Seq<u64>,
    pub blue_values: Seq<u64>,
}

impl StateView {
    /// The current and the initial window lie inside the source image, the
    /// histograms are well formed, and the bucket vectors are the ones
    /// derived from the histograms.
    pub open spec fn wf(self) -> bool {
        &&& self.window.x + self.window.w <= self.limit_x
        &&& self.window.y + self.window.h <= self.limit_y
        &&& self.init_x + self.window.w <= self.limit_x
        &&& self.init_y + self.window.h <= self.limit_y
        &&& self.red.wf() && self.green.wf() && self.blue.wf()
        &&& self.red_values == spec_bucket_vector(self.red)
        &&& self.green_values == spec_bucket_vector(self.green)
        &&& self.blue_values == spec_bucket_vector(self.blue)
    }

    /// The histogram view of channel `c`.
    pub open spec fn channel_hist(self, c: Channel) -> HistView {
        match c {
            Channel::Red => self.red,
            Channel::Green => self.green,
            Channel::Blue => self.blue,
        }
    }

    /// The bucket vector of channel `c`.
    pub open spec fn channel_values(self, c: Channel) -> Seq<u64> {
        match c {
            Channel::Red => self.red_values,
            Channel::Green => self.green_values,
            Channel::Blue => self.blue_values,
        }
    }
}

/// The aggregate the scan loop owns: one scan window over one source image's
/// coordinate space, and the three per-channel histogram/bucket-vector pairs
/// of the most recent sampling pass.
pub struct AnalysisState {
    window: ScanWindow,
    init_x: u32,
    init_y: u32,
    limit_x: u32,
    limit_y: u32,
    hists: ChannelHistograms,
    values: BucketVectors,
}

impl View for AnalysisState {
    type V = StateView;

    closed spec fn view(&self) -> StateView {
        StateView {
            window: self.window,
            init_x: self.init_x,
            init_y: self.init_y,
            limit_x: self.limit_x,
            limit_y: self.limit_y,
            red: self.hists.red@,
            green: self.hists.green@,
            blue: self.hists.blue@,
            red_values: self.values.red@,
            green_values: self.values.green@,
            blue_values: self.values.blue@,
        }
    }
}

impl AnalysisState {
    /// The state is well formed when its view is and the histograms are.
    pub closed spec fn wf(&self) -> bool {
        &&& self.hists.wf()
        &&& self@.wf()
    }

    /// Builds the analysis state over `grid` with `window` as both the
    /// current and the initial region, and samples it immediately, so the
    /// state is valid from creation; the window is not advanced.  Fails with
    /// `BoundsError` exactly when the window does not lie fully inside the
    /// grid.
    pub fn new(grid: &PixelGrid, window: ScanWindow) -> (r: Result<AnalysisState, BoundsError>)
        requires
            grid.wf(),
        ensures
            r is Ok <==> window_in_bounds(window, grid@),
            r matches Ok(st) ==> st.wf() && st@.window == window && st@.init_x == window.x
                && st@.init_y == window.y && st@.limit_x == grid@.width && st@.limit_y
                == grid@.height && st@.red == spec_sampled_hist(grid@, window, Channel::Red)
                && st@.green == spec_sampled_hist(grid@, window, Channel::Green) && st@.blue
                == spec_sampled_hist(grid@, window, Channel::Blue) && st@.red_values
                == spec_bucket_vector(st@.red) && st@.green_values == spec_bucket_vector(st@.green)
                && st@.blue_values == spec_bucket_vector(st@.blue),
            r is Err ==> r == Err::<AnalysisState, BoundsError>(BoundsError),
    {
        let hists = match sample_window(grid, window) {
            Ok(hs) => hs,
            Err(e) => {
                return Err(e);
            },
        };
        let values = derive_bucket_vectors(&hists);
        let (gw, gh) = grid.dimensions();
        Ok(
            AnalysisState {
                window,
                init_x: window.x,
                init_y: window.y,
                limit_x: gw,
                limit_y: gh,
                hists,
                values,
            },
        )
    }

    /// Advances the window one step of the raster scan policy; histograms
    /// and bucket vectors keep the previous pass's snapshot until the next
    /// sampling pass.
    pub fn advance_window(&mut self)
        requires
            old(self).wf(),
        ensures
            final(self).wf(),
            final(self)@ == (StateView {
                window: spec_advance(
                    old(self)@.window,
                    old(self)@.init_x,
                    old(self)@.init_y,
                    old(self)@.limit_x,
                ),
                ..old(self)@
            }),
    {
        let win = self.window;
        if (win.x as u64) + (win.w as u64) + (win.w as u64) < (self.limit_x as u64) {
            self.window.x = win.x + win.w;
        } else {
            self.window.x = self.init_x;
            self.window.y = self.init_y;
        }
    }

    /// One full sampling pass over the current window: replaces all three
    /// histograms with freshly sampled ones and re-derives the three bucket
    /// vectors.  The caller passes the same source image the state was built
    /// over.
    pub fn resample(&mut self, grid: &PixelGrid)
        requires
            old(self).wf(),
            grid.wf(),
            grid@.width == old(self)@.limit_x,
            grid@.height == old(self)@.limit_y,
        ensures
            final(self).wf(),
            final(self)@ == (StateView {
                red: spec_sampled_hist(grid@, old(self)@.window, Channel::Red),
                green: spec_sampled_hist(grid@, old(self)@.window, Channel::Green),
                blue: spec_sampled_hist(grid@, old(self)@.window, Channel::Blue),
                red_values: spec_bucket_vector(
                    spec_sampled_hist(grid@, old(self)@.window, Channel::Red),
                ),
                green_values: spec_bucket_vector(
                    spec_sampled_hist(grid@, old(self)@.window, Channel::Green),
                ),
                blue_values: spec_bucket_vector(
                    spec_sampled_hist(grid@, old(self)@.window, Channel::Blue),
                ),
                ..old(self)@
            }),
    {
        // A well-formed state's window lies inside the source image, so
        // sampling cannot fail and the error arm is unreachable.
        let hists = match sample_window(grid, self.window) {
            Ok(hs) => hs,
            Err(_) => {
                proof {
                    assert(false);
                }
                return ;
            },
        };
        self.values = derive_bucket_vectors(&hists);
        self.hists = hists;
    }

    /// One scan tick, caller-driven: when more than `TICK_CADENCE_MS`
    /// milliseconds have elapsed since the previous tick, advances the
    /// window, resamples it and re-derives the bucket vectors, and reports
    /// that an advance occurred; otherwise changes nothing and reports
    /// `false`.
    pub fn tick(&mut self, grid: &PixelGrid, elapsed_ms: u64) -> (advanced: bool)
        requires
            old(self).wf(),
            grid.wf(),
            grid@.width == old(self)@.limit_x,
            grid@.height == old(self)@.limit_y,
        ensures
            final(self).wf(),
            advanced == (elapsed_ms > TICK_CADENCE_MS),
            !advanced ==> *final(self) == *old(self),
            advanced ==> final(self)@ == ({
                let win = spec_advance(
                    old(self)@.window,
                    old(self)@.init_x,
                    old(self)@.init_y,
                    old(self)@.limit_x,
                );
                StateView {
                    window: win,
                    red: spec_sampled_hist(grid@, win, Channel::Red),
                    green: spec_sampled_hist(grid@, win, Channel::Green),
                    blue: spec_sampled_hist(grid@, win, Channel::Blue),
                    red_values: spec_bucket_vector(spec_sampled_hist(grid@, win, Channel::Red)),
                    green_values: spec_bucket_vector(
                        spec_sampled_hist(grid@, win, Channel::Green),
                    ),
                    blue_values: spec_bucket_vector(spec_sampled_hist(grid@, win, Channel::Blue)),
                    ..old(self)@
                }
            }),
    {
        if elapsed_ms > TICK_CADENCE_MS {
            self.advance_window();
            self.resample(grid);
            true
        } else {
            false
        }
    }

    /// The current scan window.
    pub fn window(&self) -> (r: ScanWindow)
        ensures
            r == self@.window,
    {
        self.window
    }

    /// The histogram of channel `c` from the most recent sampling pass.
    pub fn histogram(&self, c: Channel) -> (r: &ChannelHistogram)
        requires
            self.wf(),
        ensures
            r.wf(),
            r@ == self@.channel_hist(c),
    {
        match c {
            Channel::Red => &self.hists.red,
            Channel::Green => &self.hists.green,
            Channel::Blue => &self.hists.blue,
        }
    }

    /// The bucket vector of channel `c` from the most recent sampling pass:
    /// always exactly sixteen non-negative counts.
    pub fn bucket_values(&self, c: Channel) -> (r: &Vec<u64>)
        requires
            self.wf(),
        ensures
            r@ == self@.channel_values(c),
            r@.len() == 16,
    {
        proof {
            crate::hist::lemma_bucket_vector_len(self@.red);
            crate::hist::lemma_bucket_vector_len(self@.green);
            crate::hist::lemma_bucket_vector_len(self@.blue);
        }
        match c {
            Channel::Red => &self.values.red,
            Channel::Green => &self.values.green,
            Channel::Blue => &self.values.blue,
        }
    }
}

} // verus!
