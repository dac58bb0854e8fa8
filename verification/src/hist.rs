//! A bounded counting histogram over integer values in a fixed inclusive
//! range `[low, high]`.  One instance is kept per color channel.  The
//! histogram records samples at exact unit resolution, derives linear bucket
//! listings, right-pads the bucket counts into a fixed-length vector for
//! rendering, and reports summary statistics.

use vstd::prelude::*;

use crate::sums::lemma_sum_range_element_bound;
use crate::sums::lemma_sum_range_nonneg;
use crate::sums::lemma_sum_range_pointwise;
use crate::sums::lemma_sum_range_pos_has_element;
use crate::sums::lemma_sum_range_split;
use crate::sums::lemma_sum_range_update;
use crate::sums::lemma_sum_range_zero;
use crate::sums::sum_range;

verus! {

/// The histogram range or precision asked for at construction cannot be
/// represented; fatal at startup.
#[derive(Clone, Copy, PartialEq, Eq, Structural, Debug)]
pub struct ConfigError;

/// A sample handed to `record` was rejected.
#[derive(Clone, Copy, PartialEq, Eq, Structural, Debug)]
pub enum RecordError {
    /// The value lies outside the histogram's inclusive `[low, high]` range.
    OutOfRange,
}

/// Statistics were requested of a histogram that holds no samples.
#[derive(Clone, Copy, PartialEq, Eq, Structural, Debug)]
pub enum StatsError {
    NoSamples,
}

/// Summary statistics over all recorded samples.
#[derive(Clone, Copy, PartialEq, Eq, Structural, Debug)]
pub struct HistStats {
    /// How many samples were recorded.
    pub count: u64,
    /// The smallest recorded value.
    pub min: u64,
    /// The largest recorded value.
    pub max: u64,
}

/// The mathematical content of a histogram: its configuration and, for each
/// value `low + i` of its range, the number of times that value was recorded
/// (`counts[i]`).
pub struct HistView {
    pub low: u64,
    pub high: u64,
    pub precision: u8,
    pub counts: Seq<u64>,
}

impl HistView {
    /// A well-formed histogram has a positive lower bound, a non-degenerate
    /// range, an accepted precision, and one counter per value of the range.
    pub open spec fn wf(self) -> bool {
        &&& 1 <= self.low
        &&& self.low < self.high
        &&& self.precision <= 5
        &&& self.counts.len() == self.high - self.low + 1
    }

    /// How many distinct values the range `[low, high]` holds.
    pub open spec fn range_size(self) -> int {
        self.high - self.low + 1
    }

    /// Whether `value` may be recorded.
    pub open spec fn in_range(self, value: u64) -> bool {
        self.low <= value <= self.high
    }

    /// The total number of recorded samples.
    pub open spec fn total(self) -> int {
        sum_range(self.counts, 0, self.counts.len() as int)
    }

    /// How often `value` was recorded.
    pub open spec fn count_of(self, value: int) -> u64 {
        self.counts[value - self.low]
    }
}

/// Integer division rounding up.
pub open spec fn ceil_div(a: int, b: int) -> int {
    (a + b - 1) / b
}

/// The width of each linear bucket when a range of `range` values is split
/// into at most `bucket_count` buckets.
pub open spec fn bucket_width(range: int, bucket_count: int) -> int {
    ceil_div(range, bucket_count)
}

/// How many buckets of width `width` a range of `range` values fills.
pub open spec fn bucket_total(range: int, width: int) -> int {
    ceil_div(range, width)
}

/// The inclusive upper value bound of bucket `i`.
pub open spec fn spec_bucket_upper(h: HistView, width: int, i: int) -> int {
    vstd::math::min(h.low + (i + 1) * width - 1, h.high as int)
}

/// The number of samples recorded in bucket `i`: the counts of the values in
/// `[low + i * width, low + (i + 1) * width - 1]`, clipped to the range.
pub open spec fn spec_bucket_count(h: HistView, width: int, i: int) -> int {
    sum_range(h.counts, i * width, vstd::math::min((i + 1) * width, h.counts.len() as int))
}

/// The per-bucket counts of the linear bucket listing, in ascending value
/// order.
pub open spec fn spec_linear_counts(h: HistView, bucket_count: int) -> Seq<u64> {
    let width = bucket_width(h.range_size(), bucket_count);
    Seq::new(
        bucket_total(h.range_size(), width) as nat,
        |i: int| spec_bucket_count(h, width, i) as u64,
    )
}

/// `s` right-padded with `fill` up to length `target` (entries of `s` past
/// `target` are not kept; callers establish `s.len() <= target`).
pub open spec fn pad_seq(s: Seq<u64>, target: int, fill: u64) -> Seq<u64> {
    Seq::new(target as nat, |i: int| if i < s.len() { s[i] } else { fill })
}

/// The fixed length of the bucket vector handed to the rendering boundary.
pub const BUCKET_VECTOR_LEN: usize = 16;

/// The fixed-length vector of bucket counts for rendering: the linear bucket
/// counts for 16 buckets, right-padded with zeros to exactly 16 entries.
pub open spec fn spec_bucket_vector(h: HistView) -> Seq<u64> {
    pad_seq(spec_linear_counts(h, 16), 16, 0)
}

/// Whether a histogram over `[low, high]` at `precision` significant digits
/// can be built: the range must start at one or above, must not be
/// degenerate, the precision must be at most five significant decimal
/// digits, and one counter per value must be addressable.
pub open spec fn valid_config(low: u64, high: u64, precision: u8) -> bool {
    &&& 1 <= low
    &&& low < high
    &&& precision <= 5
    &&& high - low + 1 <= usize::MAX
}

/// Rounding up by `ceil_div` lands at or just above `a`, in at most `a`
/// steps of size `b`.
pub proof fn lemma_ceil_div_props(a: int, b: int)
    requires
        1 <= a,
        1 <= b,
    ensures
        1 <= ceil_div(a, b) <= a,
        ceil_div(a, b) * b >= a,
        (ceil_div(a, b) - 1) * b < a,
{
    let q = ceil_div(a, b);
    let r = (a + b - 1) % b;
    vstd::arithmetic::div_mod::lemma_fundamental_div_mod(a + b - 1, b);
    vstd::arithmetic::div_mod::lemma_mod_division_less_than_divisor(a + b - 1, b);
    assert(a + b - 1 == b * q + r);
    assert(q * b >= a) by (nonlinear_arith)
        requires
            a + b - 1 == b * q + r,
            r < b,
    {}
    assert((q - 1) * b < a) by (nonlinear_arith)
        requires
            a + b - 1 == b * q + r,
            0 <= r,
    {}
    assert(1 <= q && q <= a) by (nonlinear_arith)
        requires
            q * b >= a,
            (q - 1) * b < a,
            1 <= a,
            1 <= b,
    {}
}

/// `ceil_div` computed without overflowing the numerator.
pub proof fn lemma_ceil_div_alt(a: int, b: int)
    requires
        1 <= a,
        1 <= b,
    ensures
        ceil_div(a, b) == (a - 1) / b + 1,
{
    let q = (a - 1) / b;
    let r = (a - 1) % b;
    vstd::arithmetic::div_mod::lemma_fundamental_div_mod(a - 1, b);
    vstd::arithmetic::div_mod::lemma_mod_division_less_than_divisor(a - 1, b);
    assert(a + b - 1 == b * (q + 1) + r) by (nonlinear_arith)
        requires
            a - 1 == b * q + r,
    {}
    vstd::arithmetic::div_mod::lemma_fundamental_div_mod_converse_div(a + b - 1, b, q + 1, r);
}

/// The padding law behind the fixed-length bucket vector: splitting a
/// non-degenerate range into at most `bucket_count` linear buckets yields
/// between one and `bucket_count` buckets, so right-padding the counts to
/// `bucket_count` entries never drops a bucket.
pub proof fn lemma_bucket_total_le(range: int, bucket_count: int)
    requires
        1 <= range,
        1 <= bucket_count,
    ensures
        1 <= bucket_width(range, bucket_count) <= range,
        1 <= bucket_total(range, bucket_width(range, bucket_count)) <= bucket_count,
{
    let w = bucket_width(range, bucket_count);
    lemma_ceil_div_props(range, bucket_count);
    let n = bucket_total(range, w);
    lemma_ceil_div_props(range, w);
    assert(n - 1 < bucket_count) by (nonlinear_arith)
        requires
            (n - 1) * w < range,
            range <= w * bucket_count,
            w >= 1,
            bucket_count >= 1,
            n >= 1,
    {}
}

/// Prefix form of the conservation law: the first `k` linear buckets hold
/// exactly the counts of the first `min(k * width, range)` values.
proof fn lemma_linear_counts_prefix(h: HistView, bucket_count: int, k: int)
    requires
        h.wf(),
        1 <= bucket_count,
        h.total() <= u64::MAX,
        0 <= k <= bucket_total(h.range_size(), bucket_width(h.range_size(), bucket_count)),
    ensures
        sum_range(spec_linear_counts(h, bucket_count), 0, k) == sum_range(
            h.counts,
            0,
            vstd::math::min(k * bucket_width(h.range_size(), bucket_count), h.range_size()),
        ),
    decreases k,
{
    let range = h.range_size();
    let w = bucket_width(range, bucket_count);
    let n = bucket_total(range, w);
    let lc = spec_linear_counts(h, bucket_count);
    lemma_ceil_div_props(range, bucket_count);
    lemma_ceil_div_props(range, w);
    if k == 0 {
    } else {
        lemma_linear_counts_prefix(h, bucket_count, k - 1);
        // The previous boundary is not clipped: (k - 1) * w < range.
        vstd::arithmetic::mul::lemma_mul_inequality(k - 1, n - 1, w);
        assert((k - 1) * w <= (n - 1) * w);
        assert(vstd::math::min((k - 1) * w, range) == (k - 1) * w);
        // The bucket count entry fits in u64.
        let lo = (k - 1) * w;
        let hi = vstd::math::min(k * w, range);
        assert(k * w == (k - 1) * w + w) by (nonlinear_arith) {}
        assert(lo <= hi <= range);
        lemma_sum_range_split(h.counts, 0, lo, hi);
        lemma_sum_range_split(h.counts, 0, hi, range);
        lemma_sum_range_nonneg(h.counts, 0, lo);
        lemma_sum_range_nonneg(h.counts, hi, range);
        lemma_sum_range_nonneg(h.counts, lo, hi);
        assert(spec_bucket_count(h, w, k - 1) <= h.total());
        assert(lc[k - 1] == spec_bucket_count(h, w, k - 1) as u64);
        lemma_sum_range_split(lc, 0, k - 1, k);
    }
}

/// Conservation law: the sixteen entries of the bucket vector add up to the
/// histogram's total recorded count — bucketization neither loses nor
/// invents samples, and the zero padding adds nothing.
pub proof fn lemma_bucket_vector_total(h: HistView)
    requires
        h.wf(),
        h.total() <= u64::MAX,
    ensures
        sum_range(spec_bucket_vector(h), 0, 16) == h.total(),
{
    let range = h.range_size();
    let w = bucket_width(range, 16);
    let n = bucket_total(range, w);
    let lc = spec_linear_counts(h, 16);
    let bv = spec_bucket_vector(h);
    lemma_bucket_total_le(range, 16);
    lemma_linear_counts_prefix(h, 16, n);
    lemma_ceil_div_props(range, w);
    assert(vstd::math::min(n * w, range) == range);
    assert(sum_range(lc, 0, n) == h.total());
    lemma_sum_range_split(bv, 0, n, 16);
    lemma_sum_range_pointwise(bv, lc, 0, n);
    lemma_sum_range_zero(bv, n, 16);
}

/// The fixed-length law: the bucket vector has exactly sixteen entries for
/// every well-formed histogram, however many buckets the linear listing
/// itself produced.
pub proof fn lemma_bucket_vector_len(h: HistView)
    requires
        h.wf(),
    ensures
        spec_bucket_vector(h).len() == 16,
        spec_linear_counts(h, 16).len() <= 16,
{
    lemma_bucket_total_le(h.range_size(), 16);
}

/// A bounded counting histogram over the inclusive value range
/// `[low, high]`, holding one exact counter per value of the range.
pub struct ChannelHistogram {
    low: u64,
    high: u64,
    precision: u8,
    counts: Vec<u64>,
    total: u64,
}

impl View for ChannelHistogram {
    type V = HistView;

    closed spec fn view(&self) -> HistView {
        HistView { low: self.low, high: self.high, precision: self.precision, counts: self.counts@ }
    }
}

impl ChannelHistogram {
    /// A histogram is well formed when its view is and its cached total
    /// equals the sum of its counters.
    pub closed spec fn wf(&self) -> bool {
        &&& self@.wf()
        &&& self.total == self@.total()
    }

    /// What well-formedness guarantees about the view.
    pub proof fn lemma_wf(&self)
        requires
            self.wf(),
        ensures
            self@.wf(),
            0 <= self@.total() <= u64::MAX,
    {
    }

    /// Builds an empty histogram over `[low, high]` at `precision`
    /// significant decimal digits.  The counters store every in-range value
    /// at exact unit resolution, so every accepted precision represents the
    /// range exactly; the precision is validated and retained as
    /// configuration.
    pub fn new(low: u64, high: u64, precision: u8) -> (r: Result<ChannelHistogram, ConfigError>)
        ensures
            r is Ok <==> valid_config(low, high, precision),
            r matches Ok(h) ==> h.wf() && h@.low == low && h@.high == high && h@.precision
                == precision && h@.total() == 0 && (forall|v: int|
                0 <= v < h@.counts.len() ==> h@.counts[v] == 0),
            r is Err ==> r == Err::<ChannelHistogram, ConfigError>(ConfigError),
    {
        if low < 1 || high <= low || precision > 5 {
            return Err(ConfigError);
        }
        if high - low > usize::MAX as u64 - 1 {
            return Err(ConfigError);
        }
        let n: usize = (high - low + 1) as usize;
        let mut counts: Vec<u64> = Vec::new();
        while counts.len() < n
            invariant
                counts@.len() <= n,
                forall|i: int| 0 <= i < counts@.len() ==> counts@[i] == 0,
            decreases n - counts.len(),
        {
            counts.push(0);
        }
        proof {
            lemma_sum_range_zero(counts@, 0, counts@.len() as int);
        }
        Ok(ChannelHistogram { low, high, precision, counts, total: 0 })
    }

    /// Records one sample.  In-range values increment their counter; a value
    /// outside `[low, high]` is rejected with `RecordError::OutOfRange` and
    /// leaves the histogram unchanged.
    pub fn record(&mut self, value: u64) -> (r: Result<(), RecordError>)
        requires
            old(self).wf(),
            old(self)@.total() < u64::MAX,
        ensures
            final(self).wf(),
            final(self)@.low == old(self)@.low,
            final(self)@.high == old(self)@.high,
            final(self)@.precision == old(self)@.precision,
            old(self)@.in_range(value) ==> r == Ok::<(), RecordError>(()) && final(self)@.counts
                == old(self)@.counts.update(
                value - old(self)@.low,
                (old(self)@.count_of(value as int) + 1) as u64,
            ) && final(self)@.total() == old(self)@.total() + 1,
            !old(self)@.in_range(value) ==> r == Err::<(), RecordError>(RecordError::OutOfRange)
                && *final(self) == *old(self),
    {
        if value < self.low || value > self.high {
            return Err(RecordError::OutOfRange);
        }
        let _n: usize = self.counts.len();
        proof {
            assert(value - self.low < _n);
        }
        let idx: usize = (value - self.low) as usize;
        proof {
            lemma_sum_range_element_bound(self.counts@, 0, self.counts@.len() as int, idx as int);
            lemma_sum_range_update(
                self.counts@,
                0,
                self.counts@.len() as int,
                idx as int,
                (self.counts@[idx as int] + 1) as u64,
            );
        }
        let c = self.counts[idx];
        self.counts.set(idx, c + 1);
        self.total = self.total + 1;
        Ok(())
    }

    /// The total number of recorded samples.
    pub fn total_count(&self) -> (r: u64)
        requires
            self.wf(),
        ensures
            r == self@.total(),
    {
        self.total
    }

    /// The inclusive lower bound of the value range.
    pub fn low(&self) -> (r: u64)
        ensures
            r == self@.low,
    {
        self.low
    }

    /// The inclusive upper bound of the value range.
    pub fn high(&self) -> (r: u64)
        ensures
            r == self@.high,
    {
        self.high
    }

    /// The configured precision, in significant decimal digits.
    pub fn precision(&self) -> (r: u8)
        ensures
            r == self@.precision,
    {
        self.precision
    }

    /// The linear bucket listing: the range is split into at most
    /// `bucket_count` buckets of equal width (the last clipped to the
    /// range), and each bucket is reported as its inclusive upper value
    /// bound paired with the number of samples recorded in it.  The listing
    /// may hold fewer than `bucket_count` entries when the range does not
    /// divide evenly; callers that need a fixed length use `bucket_vector`.
    pub fn linear_buckets(&self, bucket_count: u64) -> (r: Vec<(u64, u64)>)
        requires
            self.wf(),
            1 <= bucket_count,
        ensures
            ({
                let width = bucket_width(self@.range_size(), bucket_count as int);
                let n = bucket_total(self@.range_size(), width);
                &&& r@.len() == n
                &&& forall|i: int|
                    0 <= i < n ==> r@[i].0 == spec_bucket_upper(self@, width, i)
                &&& forall|i: int|
                    0 <= i < n ==> r@[i].1 == spec_bucket_count(self@, width, i)
            }),
    {
        let range: u64 = self.high - self.low + 1;
        let width: u64 = (range - 1) / bucket_count + 1;
        let n: u64 = (range - 1) / width + 1;
        proof {
            lemma_ceil_div_alt(range as int, bucket_count as int);
            lemma_ceil_div_props(range as int, bucket_count as int);
            lemma_ceil_div_alt(range as int, width as int);
            lemma_ceil_div_props(range as int, width as int);
        }
        let ghost gwidth = bucket_width(self@.range_size(), bucket_count as int);
        let ghost gn = bucket_total(self@.range_size(), gwidth);
        let mut r: Vec<(u64, u64)> = Vec::new();
        let mut i: u64 = 0;
        while i < n
            invariant
                self.wf(),
                0 <= i <= n,
                gwidth == width,
                gn == n,
                1 <= width <= range,
                range == self@.range_size(),
                n * width >= range,
                (n - 1) * width < range,
                range == self.counts@.len(),
                self.total == self@.total(),
                r@.len() == i,
                forall|k: int| 0 <= k < i ==> r@[k].0 == spec_bucket_upper(self@, gwidth, k),
                forall|k: int| 0 <= k < i ==> r@[k].1 == spec_bucket_count(self@, gwidth, k),
            decreases n - i,
        {
            proof {
                vstd::arithmetic::mul::lemma_mul_inequality(i as int, n - 1, width as int);
                assert((i + 1) * width == i * width + width) by (nonlinear_arith) {}
            }
            let start: u64 = i * width;
            let end: u64 = if range - start > width {
                start + width
            } else {
                range
            };
            let _nlen: usize = self.counts.len();
            proof {
                assert(_nlen == range);
                assert(end == vstd::math::min((i + 1) * width as int, range as int));
                lemma_sum_range_split(self.counts@, 0, start as int, end as int);
                lemma_sum_range_split(self.counts@, 0, end as int, range as int);
                lemma_sum_range_nonneg(self.counts@, 0, start as int);
                lemma_sum_range_nonneg(self.counts@, end as int, range as int);
                lemma_sum_range_nonneg(self.counts@, start as int, end as int);
            }
            let mut sum: u64 = 0;
            let mut j: usize = start as usize;
            while j < end as usize
                invariant
                    self.wf(),
                    start <= j <= end,
                    end <= range,
                    range == self.counts@.len(),
                    sum == sum_range(self.counts@, start as int, j as int),
                    sum_range(self.counts@, start as int, end as int) <= self@.total(),
                    self.total == self@.total(),
                decreases end - j,
            {
                proof {
                    lemma_sum_range_split(self.counts@, start as int, j as int, end as int);
                    lemma_sum_range_split(self.counts@, j as int, j + 1, end as int);
                    lemma_sum_range_nonneg(self.counts@, j + 1, end as int);
                    assert(sum_range(self.counts@, j as int, j as int) == 0);
                    assert(sum_range(self.counts@, j as int, j + 1) == self.counts@[j as int]);
                }
                sum = sum + self.counts[j];
                j = j + 1;
            }
            let upper: u64 = self.low + (end - 1);
            proof {
                assert(upper == spec_bucket_upper(self@, gwidth, i as int));
                assert(sum == spec_bucket_count(self@, gwidth, i as int));
            }
            r.push((upper, sum));
            i = i + 1;
        }
        r
    }

    /// The fixed-length bucket vector for rendering: the counts of the
    /// sixteen-bucket linear listing, right-padded with zeros to exactly
    /// sixteen entries.
    pub fn bucket_vector(&self) -> (r: Vec<u64>)
        requires
            self.wf(),
        ensures
            r@ == spec_bucket_vector(self@),
            r@.len() == BUCKET_VECTOR_LEN,
    {
        let pairs = self.linear_buckets(16);
        let mut v: Vec<u64> = Vec::new();
        let mut i: usize = 0;
        while i < pairs.len()
            invariant
                0 <= i <= pairs@.len(),
                v@.len() == i,
                forall|k: int| 0 <= k < i ==> v@[k] == pairs@[k].1,
            decreases pairs@.len() - i,
        {
            v.push(pairs[i].1);
            i = i + 1;
        }
        proof {
            lemma_bucket_vector_len(self@);
            assert(v@ =~= spec_linear_counts(self@, 16));
        }
        resize_with_fill(&mut v, BUCKET_VECTOR_LEN, 0);
        proof {
            assert(v@ =~= spec_bucket_vector(self@));
        }
        v
    }

    /// Summary statistics over all recorded samples: the total count and the
    /// smallest and largest recorded values.  An empty histogram has no
    /// smallest or largest value and reports `StatsError::NoSamples`.
    pub fn stats(&self) -> (r: Result<HistStats, StatsError>)
        requires
            self.wf(),
        ensures
            self@.total() == 0 ==> r == Err::<HistStats, StatsError>(StatsError::NoSamples),
            self@.total() > 0 ==> (r matches Ok(st) && st.count == self@.total() && self@.low
                <= st.min <= st.max <= self@.high && self@.count_of(st.min as int) > 0
                && self@.count_of(st.max as int) > 0 && (forall|v: int|
                self@.low <= v < st.min ==> self@.count_of(v) == 0) && (forall|v: int|
                st.max < v <= self@.high ==> self@.count_of(v) == 0)),
    {
        if self.total == 0 {
            return Err(StatsError::NoSamples);
        }
        let n = self.counts.len();
        proof {
            lemma_sum_range_pos_has_element(self.counts@, 0, n as int);
        }
        let mut i: usize = 0;
        while self.counts[i] == 0
            invariant
                self.wf(),
                n == self.counts@.len(),
                0 <= i < n,
                forall|k: int| 0 <= k < i ==> self.counts@[k] == 0,
                exists|k: int| i <= k < n && self.counts@[k] > 0,
            decreases n - i,
        {
            proof {
                let k = choose|k: int| i <= k < n && self.counts@[k] > 0;
                assert(i + 1 <= k < n && self.counts@[k] > 0);
            }
            i = i + 1;
        }
        let mut j: usize = n - 1;
        while self.counts[j] == 0
            invariant
                self.wf(),
                n == self.counts@.len(),
                0 <= i <= j < n,
                self.counts@[i as int] > 0,
                forall|k: int| j < k < n ==> self.counts@[k] == 0,
            decreases j,
        {
            j = j - 1;
        }
        Ok(HistStats { count: self.total, min: self.low + i as u64, max: self.low + j as u64 })
    }
}

/// The named padding operation behind the fixed-length bucket vector:
/// extends `v` with copies of `fill` up to exactly `target` entries.
pub fn resize_with_fill(v: &mut Vec<u64>, target: usize, fill: u64)
    requires
        old(v)@.len() <= target,
    ensures
        final(v)@ == pad_seq(old(v)@, target as int, fill),
{
    while v.len() < target
        invariant
            old(v)@.len() <= v@.len() <= target,
            v@.subrange(0, old(v)@.len() as int) =~= old(v)@,
            forall|k: int| old(v)@.len() <= k < v@.len() ==> v@[k] == fill,
        decreases target - v.len(),
    {
        v.push(fill);
    }
    proof {
        assert(v@ =~= pad_seq(old(v)@, target as int, fill));
    }
}

} // verus!
