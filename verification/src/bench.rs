//! The benchmark client's bookkeeping: the messages it sends, the progress it
//! reports, and the latencies it records for each round trip.

use std::time::Duration;
use std::time::Instant;
use hdrhist::HDRHist;
use vstd::prelude::*;
use vstd::multiset::Multiset;
use crate::time_profiler::duration_nanos;
use crate::time_profiler::elapsed_ns;
use crate::time_profiler::is_duration_sample;
use crate::time_profiler::TimeProfiler;

verus! {

// ---------------------------------------------------------------------------
// The latency histogram (hdrhist)
// ---------------------------------------------------------------------------

#[verifier::external_type_specification]
#[verifier::external_body]
pub struct ExHDRHist(HDRHist);

/// The number of significant bits of `v` (64 minus its leading zeros, for a `u64`).
pub open spec fn bit_length(v: nat) -> nat
    decreases v,
{
    if v == 0 {
        0
    } else {
        1 + bit_length(v / 2)
    }
}

/// The bucket `(index, low_bits)` whose count `HDRHist::add_value` raises for
/// `value`: the position of its most significant bit less four (at least zero),
/// and the four bits of `value` below that bit (the value itself when it is small).
pub open spec fn hist_bucket(value: u64) -> (nat, nat) {
    let msb = bit_length(value as nat);
    let index: nat = if msb >= 4 {
        (msb - 4) as nat
    } else {
        0
    };
    let shift: nat = if index >= 1 {
        (index - 1) as nat
    } else {
        0
    };
    (index, ((value >> (shift as u64)) & 15u64) as nat)
}

/// The buckets that a sequence of samples lands in, each as often as a sample
/// lands in it.
pub open spec fn buckets_of(samples: Seq<u64>) -> Multiset<(nat, nat)> {
    samples.map_values(|v: u64| hist_bucket(v)).to_multiset()
}

/// The counts of a histogram: each bucket as often as a sample was counted in it.
pub uninterp spec fn hist_counts(hist: HDRHist) -> Multiset<(nat, nat)>;

/// The text that `HDRHist::summary_string` renders for a histogram with bucket
/// counts `counts` (the estimated quartiles, 95th, 99th, 99.9th percentiles and
/// maximum, as bucket bounds).
pub uninterp spec fn hist_summary_text(counts: Multiset<(nat, nat)>) -> Seq<char>;

/// `HDRHist::new`: a histogram with all counts zero.
pub assume_specification[ HDRHist::new ]() -> (r: HDRHist)
    ensures
        hist_counts(r) == Multiset::<(nat, nat)>::empty(),
;

/// `HDRHist::add_value`: raises the count of the bucket of `value` by one. A count
/// is a `u64`, which could overflow only after `u64::MAX` samples.
pub assume_specification[ HDRHist::add_value ](hist: &mut HDRHist, value: u64)
    requires
        hist_counts(*old(hist)).len() < u64::MAX,
    ensures
        hist_counts(*final(hist)) == hist_counts(*old(hist)).insert(hist_bucket(value)),
;

/// `HDRHist::summary_string`: the text summary of the histogram; it depends on
/// the bucket counts alone.
pub assume_specification[ HDRHist::summary_string ](hist: &HDRHist) -> (r: String)
    ensures
        r@ == hist_summary_text(hist_counts(*hist)),
;

// ---------------------------------------------------------------------------
// Messages
// ---------------------------------------------------------------------------

/// `rand::random::<u8>()`: a byte from the thread-local generator; nothing is
/// stated of its value.
#[verifier::external_body]
fn random_byte() -> u8 {
    rand::random::<u8>()
}

/// A message of `size` random bytes.
pub fn random_message(size: usize) -> (r: Vec<u8>)
    ensures
        r@.len() == size,
{
    let mut buf: Vec<u8> = Vec::new();
    let mut i: usize = 0;
    while i < size
        invariant
            i <= size,
            buf@.len() == i,
        decreases size - i,
    {
        buf.push(random_byte());
        i = i + 1;
    }
    buf
}

/// `count` messages of `size` random bytes each.
pub fn random_messages(count: usize, size: usize) -> (r: Vec<Vec<u8>>)
    ensures
        r@.len() == count,
        forall|k: int| 0 <= k < count ==> #[trigger] r@[k]@.len() == size,
{
    let mut items: Vec<Vec<u8>> = Vec::new();
    let mut i: usize = 0;
    while i < count
        invariant
            i <= count,
            items@.len() == i,
            forall|k: int| 0 <= k < i ==> #[trigger] items@[k]@.len() == size,
        decreases count - i,
    {
        items.push(random_message(size));
        i = i + 1;
    }
    items
}

// ---------------------------------------------------------------------------
// The round-trip recorder
// ---------------------------------------------------------------------------

/// The progress percentage that the run reports after message `i` of `count`:
/// one every tenth of the run.
pub open spec fn progress_at(i: nat, count: nat) -> Option<nat> {
    if i % (count / 10) == 0 {
        Some(i / (count / 100))
    } else {
        None
    }
}

/// Law: a run reports progress exactly at the multiples of a tenth of the run
/// (`count / 10` messages), and there it reports how many hundredths of the run
/// (`count / 100` messages) went out.
pub proof fn lemma_progress_at_tenths(count: nat, i: nat)
    requires
        count >= 100,
    ensures
        (progress_at(i, count) is Some) == (exists|k: nat| #[trigger] (k * (count / 10)) == i),
        progress_at(i, count) is Some ==> progress_at(i, count)->0 * (count / 100) <= i < (
        progress_at(i, count)->0 + 1) * (count / 100),
{
    let t = count / 10;
    let h = count / 100;
    assert(t > 0 && h > 0);
    if i % t == 0 {
        vstd::arithmetic::div_mod::lemma_fundamental_div_mod(i as int, t as int);
        let k = i / t;
        assert(k * t == i) by (nonlinear_arith)
            requires
                i == t * (i / t) + i % t,
                i % t == 0,
                k == i / t,
        ;
        vstd::arithmetic::div_mod::lemma_fundamental_div_mod(i as int, h as int);
        let p = i / h;
        assert(p * h <= i < (p + 1) * h) by (nonlinear_arith)
            requires
                i == h * (i / h) + i % h,
                0 <= i % h < h,
                p == i / h,
        ;
    } else {
        assert forall|k: nat| #[trigger] (k * t) != i by {
            vstd::arithmetic::div_mod::lemma_mod_multiples_basic(k as int, t as int);
        }
    }
}

/// Law: when the run is a multiple of a hundred messages, the progress at the
/// `k`-th tenth of the run is `10 * k` percent.
pub proof fn lemma_progress_percent(count: nat, k: nat)
    requires
        count >= 100,
        count % 100 == 0,
    ensures
        progress_at(k * (count / 10), count) == Some(10 * k),
{
    let t = count / 10;
    let h = count / 100;
    assert(t == 10 * h);
    assert(k * t == (10 * k) * h) by (nonlinear_arith)
        requires
            t == 10 * h,
    ;
    vstd::arithmetic::div_mod::lemma_mod_multiples_basic(k as int, t as int);
    vstd::arithmetic::div_mod::lemma_div_multiples_vanish((10 * k) as int, h as int);
    assert(h * (10 * k) == (10 * k) * h) by (nonlinear_arith);
}

/// Latencies of a run of `count` round trips: the whole round trip, its sending
/// part and its receiving part for every message, and a histogram of the whole
/// round trips of the second half of the run.
pub struct BenchRecorder {
    count: usize,
    half: usize,
    step10: usize,
    step100: usize,
    total: TimeProfiler,
    sending: TimeProfiler,
    receiving: TimeProfiler,
    hist: HDRHist,
    second_half: Ghost<Seq<u64>>,
}

impl BenchRecorder {
    /// The recorder keeps its step sizes for `count` messages, its histogram
    /// counts exactly the round trips of the second half, and it never holds more
    /// of those than round trips.
    #[verifier::type_invariant]
    spec fn well_formed(self) -> bool {
        &&& self.count >= 100
        &&& self.half == self.count / 2
        &&& self.step10 == self.count / 10
        &&& self.step100 == self.count / 100
        &&& hist_counts(self.hist) == buckets_of(self.second_half@)
        &&& self.second_half@.len() <= self.total@.len()
    }

    /// The number of messages of the run.
    pub closed spec fn count(self) -> nat {
        self.count as nat
    }

    /// The whole round-trip latencies, in order.
    pub closed spec fn totals(self) -> Seq<u64> {
        self.total@
    }

    /// The sending latencies, in order.
    pub closed spec fn sendings(self) -> Seq<u64> {
        self.sending@
    }

    /// The receiving latencies, in order.
    pub closed spec fn receivings(self) -> Seq<u64> {
        self.receiving@
    }

    /// The round-trip latencies counted in the histogram, in order.
    pub closed spec fn histogram(self) -> Seq<u64> {
        self.second_half@
    }

    /// A recorder for a run of `count` messages, with nothing recorded. A run of
    /// fewer than a hundred messages divides by zero when it reports progress.
    pub fn new(count: usize) -> (r: Self)
        requires
            count >= 100,
        ensures
            r.count() == count,
            r.totals() == Seq::<u64>::empty(),
            r.sendings() == Seq::<u64>::empty(),
            r.receivings() == Seq::<u64>::empty(),
            r.histogram() == Seq::<u64>::empty(),
    {
        assert(buckets_of(Seq::empty()) =~= Multiset::<(nat, nat)>::empty()) by {
            broadcast use vstd::seq_lib::group_to_multiset_ensures;
            broadcast use vstd::multiset::group_multiset_axioms;

            assert(Seq::<u64>::empty().map_values(|v: u64| hist_bucket(v)) =~= Seq::<(nat, nat)>::empty());
        }
        let r = BenchRecorder {
            count,
            half: count / 2,
            step10: count / 10,
            step100: count / 100,
            total: TimeProfiler::new(),
            sending: TimeProfiler::new(),
            receiving: TimeProfiler::new(),
            hist: HDRHist::new(),
            second_half: Ghost(Seq::empty()),
        };
        r
    }

    /// The progress percentage to report after message `i`, if any.
    pub fn progress(&self, i: usize) -> (r: Option<usize>)
        ensures
            r == (match progress_at(i as nat, self.count()) {
                Some(p) => Some(p as usize),
                None => None::<usize>,
            }),
    {
        proof {
            use_type_invariant(self);
        }
        if i % self.step10 == 0 {
            Some(i / self.step100)
        } else {
            None
        }
    }

    /// The progress percentage to report once all messages went out, if any.
    pub fn final_progress(&self) -> (r: Option<usize>)
        ensures
            r == (match progress_at(self.count(), self.count()) {
                Some(p) => Some(p as usize),
                None => None::<usize>,
            }),
    {
        self.progress(self.count)
    }

    /// Records round trip `i`: the time since `started` as its whole latency
    /// (returned), and the nanoseconds of `send` and `receive` as its parts. Round
    /// trips of the second half of the run (`i >= count / 2`) also go into the
    /// histogram.
    pub fn record(&mut self, i: usize, started: Instant, send: Duration, receive: Duration) -> (r: u64)
        ensures
            final(self).count() == old(self).count(),
            final(self).totals() == old(self).totals().push(r),
            is_duration_sample(r),
            final(self).sendings() == old(self).sendings().push(
                (duration_nanos(send) % 0x1_0000_0000_0000_0000) as u64,
            ),
            final(self).receivings() == old(self).receivings().push(
                (duration_nanos(receive) % 0x1_0000_0000_0000_0000) as u64,
            ),
            final(self).histogram() == (if i >= old(self).count() / 2 {
                old(self).histogram().push(r)
            } else {
                old(self).histogram()
            }),
    {
        let value = elapsed_ns(&started);
        let mut this = BenchRecorder::new(100);
        std::mem::swap(&mut this, self);
        proof {
            use_type_invariant(&this);
        }
        let BenchRecorder {
            count,
            half,
            step10,
            step100,
            mut total,
            mut sending,
            mut receiving,
            mut hist,
            second_half,
        } = this;
        total.add_value(value);
        let recorded = total.len();
        sending.add_duration(send);
        receiving.add_duration(receive);
        let ghost mut counted = second_half@;
        if i >= half {
            proof {
                broadcast use vstd::seq_lib::group_to_multiset_ensures;

                assert(hist_counts(hist).len() == counted.len());
                assert(counted.push(value).map_values(|v: u64| hist_bucket(v)) =~= counted.map_values(
                    |v: u64| hist_bucket(v),
                ).push(hist_bucket(value)));
            }
            hist.add_value(value);
            proof {
                counted = counted.push(value);
            }
        }
        *self = BenchRecorder {
            count,
            half,
            step10,
            step100,
            total,
            sending,
            receiving,
            hist,
            second_half: Ghost(counted),
        };
        value
    }

    /// Ends the recording: the whole, sending and receiving profilers, and the
    /// text summary of the histogram of the second half's round trips.
    pub fn finish(self) -> (r: (TimeProfiler, TimeProfiler, TimeProfiler, String))
        ensures
            r.0@ == self.totals(),
            r.1@ == self.sendings(),
            r.2@ == self.receivings(),
            r.3@ == hist_summary_text(buckets_of(self.histogram())),
    {
        proof {
            use_type_invariant(&self);
        }
        let summary = self.hist.summary_string();
        (self.total, self.sending, self.receiving, summary)
    }
}

} // verus!
