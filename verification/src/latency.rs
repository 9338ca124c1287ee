use vstd::prelude::*;
use hdrhistogram::{CreationError, Histogram, RecordError};
use vstd::multiset::Multiset;

verus! {

/// The latency samples of the sustained load: an `hdrhistogram::Histogram`
/// held whole and opaque to the proofs. The histogram is public so that the
/// percentile queries, whose quantile argument is a floating-point number,
/// can be made where such numbers are allowed.
#[verifier::external_body]
pub struct LatencyHistogram {
    pub inner: Histogram<u64>,
}

/// `hdrhistogram::CreationError`, why a histogram could not be made.
#[verifier::external_type_specification]
#[verifier::external_body]
pub struct ExCreationError(CreationError);

/// `hdrhistogram::RecordError`, why a sample could not be recorded.
#[verifier::external_type_specification]
#[verifier::external_body]
pub struct ExRecordError(RecordError);

/// How many samples a histogram has recorded (what its `len` reports).
pub uninterp spec fn recorded_count(h: LatencyHistogram) -> nat;

/// The samples a histogram holds, each as the lowest value of its bucket
/// (the value `Histogram::lowest_equivalent` gives for it).
pub uninterp spec fn recorded_buckets(h: LatencyHistogram) -> Multiset<u64>;

/// The lowest value of the bucket `value` falls in (what
/// `Histogram::lowest_equivalent` computes). It depends only on the unit and
/// sub-bucket sizes fixed when the histogram was made.
pub uninterp spec fn bucket_floor(h: LatencyHistogram, value: u64) -> u64;

/// Whether a histogram grows to cover the values recorded into it (what its
/// `is_auto_resize` reports).
pub uninterp spec fn auto_resizing(h: LatencyHistogram) -> bool;

/// Calls `Histogram::<u64>::new(sigfig)`: an auto-resizing histogram that
/// tracks values from 1 upward with `sigfig` significant decimal digits.
/// Its source accepts every `sigfig` up to 5 (with the lowest discernible
/// value 1 no other check can fail) and refuses larger ones; a new histogram
/// has recorded nothing and has auto-resizing switched on.
#[verifier::external_body]
fn histogram_with_sigfig(sigfig: u8) -> (res: Result<LatencyHistogram, CreationError>)
    ensures
        res is Ok <==> sigfig <= 5,
        res matches Ok(h) ==> recorded_count(h) == 0 && auto_resizing(h) && recorded_buckets(h)
            =~= Multiset::<u64>::empty(),
{
    Histogram::<u64>::new(sigfig).map(|inner| LatencyHistogram { inner })
}

/// Calls `Histogram::record`. On success the recorded count grows by one
/// (the source adds with saturation at `u64::MAX`); on an error the source
/// returns before counting, so the count is unchanged. Recording leaves the
/// auto-resizing setting alone. With auto-resizing on, the source has two
/// error cases: resizing switched off, and a bin count (a `u32`) that does
/// not fit a `usize`, which cannot happen where `usize` has 32 or 64 bits;
/// so an auto-resizing histogram accepts every value. An accepted value
/// adds one to the counter of its bucket (a `u64` that cannot saturate while
/// the total count is below `u64::MAX`); resizing only appends counters, and
/// the bucket mapping (from the unit and sub-bucket sizes) never changes.
#[verifier::external_body]
fn histogram_record(h: &mut LatencyHistogram, value: u64) -> (res: Result<(), RecordError>)
    ensures
        forall|v: u64| bucket_floor(*final(h), v) == bucket_floor(*old(h), v),
        res is Ok && recorded_count(*old(h)) < u64::MAX ==> recorded_buckets(*final(h))
            == recorded_buckets(*old(h)).insert(bucket_floor(*old(h), value)),
        res is Err ==> recorded_buckets(*final(h)) == recorded_buckets(*old(h)),
        auto_resizing(*final(h)) == auto_resizing(*old(h)),
        auto_resizing(*old(h)) ==> res is Ok,
        res is Ok ==> recorded_count(*final(h)) == if recorded_count(*old(h)) < u64::MAX {
            recorded_count(*old(h)) + 1
        } else {
            recorded_count(*old(h))
        },
        res is Err ==> recorded_count(*final(h)) == recorded_count(*old(h)),
{
    h.inner.record(value)
}

/// Calls `Histogram::len`: the total count of recorded samples, which the
/// source keeps in the same field `record` adds to.
#[verifier::external_body]
fn histogram_len(h: &LatencyHistogram) -> (n: u64)
    ensures
        n == recorded_count(*h),
{
    h.inner.len()
}

/// The latency samples of the sustained load, recorded with three
/// significant digits.
pub struct LatencyRecorder {
    histogram: LatencyHistogram,
}

/// The buckets of a list of samples, as a histogram with bucket mapping
/// `floor` holds them.
pub open spec fn buckets_of(h: LatencyHistogram, samples: Seq<u64>) -> Multiset<u64> {
    samples.map_values(|v: u64| bucket_floor(h, v)).to_multiset()
}

/// `n` more samples added to a count that saturates at `u64::MAX`.
pub open spec fn saturating_count(count: nat, n: nat) -> nat {
    if count + n <= u64::MAX {
        count + n
    } else {
        u64::MAX as nat
    }
}

impl LatencyRecorder {
    /// The recorder's histogram grows to cover what is recorded.
    pub closed spec fn wf(&self) -> bool {
        &&& auto_resizing(self.histogram)
        &&& recorded_count(self.histogram) <= u64::MAX
    }

    /// The histogram the recorder holds.
    pub closed spec fn held_histogram(&self) -> LatencyHistogram {
        self.histogram
    }

    /// A recorder that holds no sample.
    pub fn new() -> (r: LatencyRecorder)
        ensures
            r.count() == 0,
            r.buckets() =~= Multiset::<u64>::empty(),
            r.wf(),
    {
        match histogram_with_sigfig(3) {
            Ok(histogram) => LatencyRecorder { histogram },
            Err(_) => vstd::pervasive::unreached(),
        }
    }

    /// The recorded samples, each as the lowest value of its bucket.
    pub open spec fn buckets(&self) -> Multiset<u64> {
        recorded_buckets(self.held_histogram())
    }

    /// The lowest value of the bucket a sample falls in.
    pub open spec fn bucket_of(&self, value: u64) -> u64 {
        bucket_floor(self.held_histogram(), value)
    }

    /// Number of samples recorded.
    pub open spec fn count(&self) -> nat {
        recorded_count(self.held_histogram())
    }

    /// Number of samples recorded.
    pub fn recorded(&self) -> (n: u64)
        ensures
            n == self.count(),
    {
        histogram_len(&self.histogram)
    }

    /// Records each sample in turn, as they were drained from the channel,
    /// and returns how many the histogram accepted: all of them, since it
    /// grows to cover any value. The count of samples grows by that many,
    /// saturating at `u64::MAX`; short of saturation, the histogram then holds
    /// the samples' buckets besides what it held, and the bucket mapping
    /// stays the same.
    pub fn record_all(&mut self, samples: &Vec<u64>) -> (accepted: usize)
        requires
            old(self).wf(),
        ensures
            final(self).wf(),
            accepted == samples@.len(),
            final(self).count() == saturating_count(old(self).count(), samples@.len()),
            forall|v: u64| final(self).bucket_of(v) == old(self).bucket_of(v),
            old(self).count() + samples@.len() <= u64::MAX ==> final(self).buckets()
                =~= old(self).buckets().add(buckets_of(old(self).held_histogram(), samples@)),
    {
        broadcast use vstd::multiset::group_multiset_axioms;
        broadcast use vstd::seq_lib::group_to_multiset_ensures;
        let ghost h0 = self.histogram;
        proof {
            let f = |v: u64| bucket_floor(h0, v);
            assert(samples@.take(0).map_values(f) =~= Seq::<u64>::empty());
            assert(Seq::<u64>::empty().to_multiset().len() == 0);
            assert(buckets_of(h0, samples@.take(0)) =~= Multiset::<u64>::empty());
            assert(recorded_buckets(h0).add(Multiset::<u64>::empty()) =~= recorded_buckets(h0));
        }
        let mut accepted: usize = 0;
        let mut i: usize = 0;
        while i < samples.len()
            invariant
                0 <= i <= samples@.len(),
                accepted == i,
                auto_resizing(self.histogram),
                recorded_count(self.histogram) <= u64::MAX,
                old(self).count() <= u64::MAX,
                self.count() == saturating_count(old(self).count(), i as nat),
                h0 == old(self).held_histogram(),
                forall|v: u64| bucket_floor(self.histogram, v) == bucket_floor(h0, v),
                old(self).count() + i <= u64::MAX ==> recorded_buckets(self.histogram)
                    =~= recorded_buckets(h0).add(buckets_of(h0, samples@.take(i as int))),
            decreases samples@.len() - i,
        {
            let ghost before = self.histogram;
            let r = histogram_record(&mut self.histogram, samples[i]);
            proof {
                let f = |v: u64| bucket_floor(h0, v);
                let prefix = samples@.take(i as int);
                assert(samples@.take(i + 1) =~= prefix.push(samples@[i as int]));
                assert(samples@.take(i + 1).map_values(f) =~= prefix.map_values(f).push(
                    f(samples@[i as int]),
                ));
                vstd::seq_lib::to_multiset_build(prefix.map_values(f), f(samples@[i as int]));
            }
            if r.is_ok() {
                accepted = accepted + 1;
            }
            i = i + 1;
        }
        proof {
            assert(samples@.take(samples@.len() as int) =~= samples@);
        }
        accepted
    }

    /// The histogram, for the percentile queries of the progress line.
    pub fn histogram(&self) -> (h: &LatencyHistogram)
        ensures
            *h == self.held_histogram(),
            recorded_count(*h) == self.count(),
            recorded_buckets(*h) == self.buckets(),
    {
        &self.histogram
    }
}

} // verus!
