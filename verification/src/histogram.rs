//! The running latency histogram, kept in an outside high-dynamic-range
//! histogram.  The histogram value is opaque here: the contracts speak
//! of the multiset of recorded samples and of named summary values, and
//! a verified percentile computation works on the recorded buckets.
use vstd::multiset::Multiset;
use vstd::prelude::*;

verus! {

/// The outside histogram, held opaquely: Verus sees nothing inside a
/// value of this type; the names below give its contents meaning.
#[verifier::external_body]
pub struct LatencyHistogram {
    inner: hdrhistogram::Histogram<u64>,
}

/// The multiset of samples recorded in a histogram.
pub uninterp spec fn histo_samples(h: LatencyHistogram) -> Multiset<u64>;

/// The construction parameters (highest trackable value, significant
/// digits) a histogram was created with.  The summary names below
/// depend on them as well as on the samples.
pub uninterp spec fn histo_cfg(h: LatencyHistogram) -> (u64, u8);

/// Whether the histogram resizes itself to track values above its
/// current bound.
pub uninterp spec fn histo_auto(h: LatencyHistogram) -> bool;

/// What the histogram reports as the lowest recorded value.
pub uninterp spec fn hmin_of(cfg: (u64, u8), s: Multiset<u64>) -> u64;

/// What the histogram reports as the highest recorded value.
pub uninterp spec fn hmax_of(cfg: (u64, u8), s: Multiset<u64>) -> u64;

/// What the histogram reports as the mean, in whole milliseconds.
pub uninterp spec fn hmean_ms_of(cfg: (u64, u8), s: Multiset<u64>) -> u64;

/// What the histogram reports as the standard deviation, in whole
/// milliseconds.
pub uninterp spec fn hstdev_ms_of(cfg: (u64, u8), s: Multiset<u64>) -> u64;

/// The recorded buckets: one (value, count) entry per distinct quantized
/// value with at least one sample, in ascending value order.
pub uninterp spec fn hbuckets_of(cfg: (u64, u8), s: Multiset<u64>) -> Seq<(u64, u64)>;

/// Relies on Histogram::new_with_max: builds a histogram tracking values
/// from 1 up to `high` with `sigfig` significant decimal digits.  Per
/// its source, construction fails only for `sigfig > 5` or `high < 2`
/// (with the lowest discernible value fixed at 1, the counts array
/// stays far below the size an allocation could refuse); a fresh
/// histogram holds no samples.
#[verifier::external_body]
pub(crate) fn new_histogram(high: u64, sigfig: u8) -> (r: Option<LatencyHistogram>)
    ensures
        match r {
            Some(h) => histo_samples(h) == Multiset::<u64>::empty() && histo_cfg(h) == (
                high,
                sigfig,
            ) && !histo_auto(h),
            None => high < 2 || sigfig > 5,
        },
{
    match hdrhistogram::Histogram::new_with_max(high, sigfig) {
        Ok(inner) => Some(LatencyHistogram { inner }),
        Err(_) => None,
    }
}

/// Relies on Histogram::auto: switches automatic resizing on or off and
/// touches neither the recorded samples nor the construction parameters.
#[verifier::external_body]
pub(crate) fn histo_set_auto(h: &mut LatencyHistogram, enabled: bool)
    ensures
        histo_samples(*final(h)) == histo_samples(*old(h)),
        histo_cfg(*final(h)) == histo_cfg(*old(h)),
        histo_auto(*final(h)) == enabled,
{
    h.inner.auto(enabled)
}

/// Relies on Histogram::record: adds one sample, or reports failure and
/// leaves the histogram unchanged when the value cannot be tracked (its
/// source returns the error before any mutation).  With resizing on it
/// never fails: the source then grows the histogram to cover any value
/// (the counts array stays far below the size an allocation could
/// refuse), so every sample is taken.
#[verifier::external_body]
pub(crate) fn histo_record(h: &mut LatencyHistogram, value: u64) -> (ok: bool)
    ensures
        ok ==> histo_samples(*final(h)) == histo_samples(*old(h)).insert(value),
        !ok ==> histo_samples(*final(h)) == histo_samples(*old(h)),
        histo_cfg(*final(h)) == histo_cfg(*old(h)),
        histo_auto(*final(h)) == histo_auto(*old(h)),
        histo_auto(*old(h)) ==> ok,
{
    h.inner.record(value).is_ok()
}

/// Relies on Histogram::reset: clears every recorded sample, keeping the
/// configuration and the resize setting.
#[verifier::external_body]
pub(crate) fn histo_reset(h: &mut LatencyHistogram)
    ensures
        histo_samples(*final(h)) == Multiset::<u64>::empty(),
        histo_cfg(*final(h)) == histo_cfg(*old(h)),
        histo_auto(*final(h)) == histo_auto(*old(h)),
{
    h.inner.reset()
}

/// Relies on Histogram::min: the lowest recorded value at the
/// histogram's resolution, 0 when it holds no samples; a function of the
/// construction parameters and the samples alone.
#[verifier::external_body]
pub(crate) fn histo_min(h: &LatencyHistogram) -> (r: u64)
    ensures
        r == hmin_of(histo_cfg(*h), histo_samples(*h)),
        histo_samples(*h) == Multiset::<u64>::empty() ==> r == 0,
{
    h.inner.min()
}

/// Relies on Histogram::max: the highest recorded value at the
/// histogram's resolution, 0 when it holds no samples; a function of the
/// construction parameters and the samples alone.
#[verifier::external_body]
pub(crate) fn histo_max(h: &LatencyHistogram) -> (r: u64)
    ensures
        r == hmax_of(histo_cfg(*h), histo_samples(*h)),
        histo_samples(*h) == Multiset::<u64>::empty() ==> r == 0,
{
    h.inner.max()
}

/// Relies on Histogram::mean: the mean of the recorded samples at the
/// histogram's resolution, truncated to whole milliseconds, 0 when it
/// holds no samples; a function of the construction parameters and the
/// samples alone.
#[verifier::external_body]
pub(crate) fn histo_mean_ms(h: &LatencyHistogram) -> (r: u64)
    ensures
        r == hmean_ms_of(histo_cfg(*h), histo_samples(*h)),
        histo_samples(*h) == Multiset::<u64>::empty() ==> r == 0,
{
    h.inner.mean() as u64
}

/// Relies on Histogram::stdev: the standard deviation of the recorded
/// samples at the histogram's resolution, truncated to whole
/// milliseconds, 0 when it holds no samples; a function of the
/// construction parameters and the samples alone.
#[verifier::external_body]
pub(crate) fn histo_stdev_ms(h: &LatencyHistogram) -> (r: u64)
    ensures
        r == hstdev_ms_of(histo_cfg(*h), histo_samples(*h)),
        histo_samples(*h) == Multiset::<u64>::empty() ==> r == 0,
{
    h.inner.stdev() as u64
}

/// The sum of the counts of a bucket list.
pub open spec fn sum_counts(b: Seq<(u64, u64)>) -> int
    decreases b.len(),
{
    if b.len() == 0 {
        0
    } else {
        sum_counts(b.drop_last()) + b.last().1
    }
}

/// Relies on Histogram::iter_recorded: yields one entry per distinct
/// quantized value holding at least one sample, in ascending order, with
/// that value's count.  The entries depend on the construction
/// parameters and the samples alone; a histogram without samples yields
/// none.  The histogram's counts array never exceeds 65 buckets of at
/// most 2^17 slots each, so the list stays below 2^24 entries.
#[verifier::external_body]
pub(crate) fn histo_buckets(h: &LatencyHistogram) -> (r: Vec<(u64, u64)>)
    ensures
        r@ == hbuckets_of(histo_cfg(*h), histo_samples(*h)),
        r@.len() < 0x1000000,
        histo_samples(*h) == Multiset::<u64>::empty() ==> r@.len() == 0,
{
    h.inner.iter_recorded().map(|v| (v.value_iterated_to(), v.count_since_last_iteration())).collect()
}

/// The smallest bucket value whose cumulative count reaches the fraction
/// `num / den` of all counted samples; 0 if no bucket reaches it.
pub open spec fn spec_value_at(b: Seq<(u64, u64)>, num: int, den: int, i: int, cum: int) -> u64
    decreases b.len() - i,
{
    if i < 0 || i >= b.len() {
        0
    } else if (cum + b[i].1) * den >= num * sum_counts(b) {
        b[i].0
    } else {
        spec_value_at(b, num, den, i + 1, cum + b[i].1)
    }
}

proof fn lemma_sum_counts_take_step(b: Seq<(u64, u64)>, i: int)
    requires
        0 <= i < b.len(),
    ensures
        sum_counts(b.take(i + 1)) == sum_counts(b.take(i)) + b[i].1,
{
    assert(b.take(i + 1).drop_last() =~= b.take(i));
    assert(b.take(i + 1).last() == b[i]);
}

proof fn lemma_sum_counts_bound(b: Seq<(u64, u64)>, i: int)
    requires
        0 <= i <= b.len(),
    ensures
        0 <= sum_counts(b.take(i)) <= i * 0xffff_ffff_ffff_ffff,
    decreases i,
{
    if i == 0 {
        assert(b.take(0) =~= Seq::<(u64, u64)>::empty());
    } else {
        lemma_sum_counts_bound(b, i - 1);
        lemma_sum_counts_take_step(b, i - 1);
    }
}

/// The bucket value at the fraction `num / den` of all counted samples.
pub fn value_at_fraction(b: &Vec<(u64, u64)>, num: u64, den: u64) -> (r: u64)
    requires
        0 < den <= 1000,
        num <= den,
        b@.len() < 0x1000000,
    ensures
        r == spec_value_at(b@, num as int, den as int, 0, 0),
{
    let ghost bv = b@;
    proof {
        lemma_sum_counts_bound(bv, bv.len() as int);
        assert(bv.take(bv.len() as int) =~= bv);
    }
    let mut total: u128 = 0;
    let mut k: usize = 0;
    while k < b.len()
        invariant
            k <= b.len(),
            bv == b@,
            bv.len() < 0x1000000,
            total == sum_counts(bv.take(k as int)),
            total <= k * 0xffff_ffff_ffff_ffff,
        decreases b.len() - k,
    {
        proof {
            lemma_sum_counts_take_step(bv, k as int);
        }
        total = total + b[k].1 as u128;
        k = k + 1;
    }
    proof {
        assert(bv.take(bv.len() as int) =~= bv);
    }
    let mut cum: u128 = 0;
    let mut i: usize = 0;
    while i < b.len()
        invariant
            i <= b.len(),
            bv == b@,
            bv.len() < 0x1000000,
            0 < den <= 1000,
            num <= den,
            total == sum_counts(bv),
            total <= bv.len() * 0xffff_ffff_ffff_ffff,
            cum == sum_counts(bv.take(i as int)),
            cum <= i * 0xffff_ffff_ffff_ffff,
            spec_value_at(bv, num as int, den as int, 0, 0) == spec_value_at(
                bv,
                num as int,
                den as int,
                i as int,
                cum as int,
            ),
        decreases b.len() - i,
    {
        let (value, count) = b[i];
        proof {
            lemma_sum_counts_take_step(bv, i as int);
        }
        let next: u128 = cum + count as u128;
        proof {
            assert(next as int <= 0x1000000int * 0xffff_ffff_ffff_ffff);
            assert(total as int <= 0x1000000int * 0xffff_ffff_ffff_ffff);
            assert(next as int * (den as int) <= 0x1000000int * 0xffff_ffff_ffff_ffff * 1000)
                by (nonlinear_arith)
                requires
                    0 <= next as int <= 0x1000000int * 0xffff_ffff_ffff_ffff,
                    0 < den as int <= 1000,
            {}
            assert(num as int * (total as int) <= 1000 * (0x1000000int * 0xffff_ffff_ffff_ffff))
                by (nonlinear_arith)
                requires
                    0 <= total as int <= 0x1000000int * 0xffff_ffff_ffff_ffff,
                    0 <= num as int <= 1000,
            {}
        }
        if next * den as u128 >= num as u128 * total {
            return value;
        }
        cum = next;
        i = i + 1;
    }
    0
}

} // verus!
