use vstd::prelude::*;
use vstd::string::StringExecFns;
use crate::tally::{
    Tally, count_sum, distinct_keys, has_key, lemma_count_le_sum, lemma_tally_step,
    positive_counts, tally,
};
use crate::transfer::{Invocation, InvocationView, ResponseView, text_view};

verus! {

/// The key under which an error answer is counted: the message, followed by
/// the database error code in parentheses when there is one.
pub open spec fn error_key(error: Seq<char>, code: Option<Seq<char>>) -> Seq<char> {
    match code {
        Some(c) => error + " ("@ + c + ")"@,
        None => error,
    }
}

/// The key under which a failed invocation is counted.
pub open spec fn failure_key(message: Seq<char>) -> Seq<char> {
    "Lambda invocation failed: "@ + message
}

/// Tallied error texts, as mathematical values.
pub open spec fn entries_view(v: Seq<(String, usize)>) -> Tally {
    v.map_values(|e: (String, usize)| (e.0@, e.1 as nat))
}

/// The state of a closed-loop stress run, as mathematical values.
pub struct StressView {
    /// Invocations the run is asked to make.
    pub total_calls: nat,
    /// Most invocations in flight at once.
    pub parallel_calls: nat,
    /// Invocations started so far.
    pub launched: nat,
    /// Invocations started and not yet settled.
    pub in_flight: nat,
    /// Answers without an error.
    pub success: nat,
    /// Answers with an error, and failed invocations.
    pub errors: nat,
    /// Shortest reported duration (`u64::MAX` before any).
    pub min_duration: nat,
    /// Longest reported duration (0 before any).
    pub max_duration: nat,
    /// Sum of the reported durations.
    pub total_duration: nat,
    /// Answers that reported a duration.
    pub duration_count: nat,
    /// Sum of the reported retry counts.
    pub total_retries: nat,
    /// Largest reported retry count.
    pub max_retries: nat,
    /// Answers that reported at least one retry.
    pub transactions_with_retries: nat,
    /// Errors per error text, in order of first occurrence.
    pub error_types: Tally,
}

impl StressView {
    /// A run that has not started.
    pub open spec fn initial(total_calls: nat, parallel_calls: nat) -> StressView {
        StressView {
            total_calls,
            parallel_calls,
            launched: 0,
            in_flight: 0,
            success: 0,
            errors: 0,
            min_duration: u64::MAX as nat,
            max_duration: 0,
            total_duration: 0,
            duration_count: 0,
            total_retries: 0,
            max_retries: 0,
            transactions_with_retries: 0,
            error_types: Seq::empty(),
        }
    }

    /// How many invocations the next round starts: every free slot, as long
    /// as fewer than `total_calls` have been started.
    pub open spec fn launch_size(self) -> nat {
        if self.launched < self.total_calls && self.in_flight < self.parallel_calls {
            (self.parallel_calls - self.in_flight) as nat
        } else {
            0
        }
    }

    /// The state after a round of starts.
    pub open spec fn after_launch(self) -> StressView {
        StressView {
            launched: self.launched + self.launch_size(),
            in_flight: self.in_flight + self.launch_size(),
            ..self
        }
    }

    /// Counts an answer as a success, or its error under its key.
    pub open spec fn with_answer(self, r: ResponseView) -> StressView {
        match r.error {
            Some(e) => StressView {
                errors: self.errors + 1,
                error_types: tally(self.error_types, error_key(e, r.error_code)),
                ..self
            },
            None => StressView { success: self.success + 1, ..self },
        }
    }

    /// Takes a reported duration into the duration statistics.
    pub open spec fn with_duration(self, duration: Option<u64>) -> StressView {
        match duration {
            Some(d) => StressView {
                min_duration: if d < self.min_duration { d as nat } else { self.min_duration },
                max_duration: if d > self.max_duration { d as nat } else { self.max_duration },
                total_duration: self.total_duration + d as nat,
                duration_count: self.duration_count + 1,
                ..self
            },
            None => self,
        }
    }

    /// Takes a reported retry count into the retry statistics.
    pub open spec fn with_retries(self, retries: Option<u32>) -> StressView {
        match retries {
            Some(t) => StressView {
                total_retries: self.total_retries + t as nat,
                max_retries: if t > self.max_retries { t as nat } else { self.max_retries },
                transactions_with_retries: self.transactions_with_retries + if t > 0 {
                    1nat
                } else {
                    0nat
                },
                ..self
            },
            None => self,
        }
    }

    /// The state after one invocation settled with outcome `o`.
    pub open spec fn after_outcome(self, o: InvocationView) -> StressView {
        let settled = StressView { in_flight: (self.in_flight - 1) as nat, ..self };
        match o {
            InvocationView::Failed(m) => StressView {
                errors: settled.errors + 1,
                error_types: tally(settled.error_types, failure_key(m)),
                ..settled
            },
            InvocationView::Answered(r) => settled.with_answer(r).with_duration(r.duration).with_retries(
                r.retries,
            ),
        }
    }

    /// The outcome's duration and retries can be added to the running sums
    /// without passing `u64::MAX`.
    pub open spec fn fits(self, o: InvocationView) -> bool {
        match o {
            InvocationView::Answered(r) => {
                &&& (r.duration matches Some(d) ==> self.total_duration + d <= u64::MAX)
                &&& (r.retries matches Some(t) ==> self.total_retries + t <= u64::MAX)
            },
            InvocationView::Failed(_) => true,
        }
    }

    /// The accounting that every reachable state of a run satisfies.
    pub open spec fn wf(self) -> bool {
        &&& self.total_calls + self.parallel_calls <= usize::MAX
        &&& self.in_flight <= self.parallel_calls
        &&& self.launched == self.success + self.errors + self.in_flight
        &&& (self.launched == 0 || self.launched < self.total_calls + self.parallel_calls)
        &&& distinct_keys(self.error_types)
        &&& positive_counts(self.error_types)
        &&& count_sum(self.error_types) == self.errors
        &&& self.duration_count <= self.success + self.errors
        &&& self.transactions_with_retries <= self.success + self.errors
        &&& (self.duration_count == 0 ==> self.min_duration == u64::MAX && self.max_duration == 0
            && self.total_duration == 0)
        &&& (self.duration_count > 0 ==> self.min_duration <= self.max_duration
            <= self.total_duration)
        &&& self.total_duration <= u64::MAX
        &&& self.min_duration <= u64::MAX
        &&& self.max_retries <= self.total_retries
        &&& self.total_retries <= u64::MAX
        &&& self.max_retries <= u32::MAX
    }
}

/// Keeps the books of a closed-loop stress run: how many invocations to
/// start, and what the settled ones reported.
pub struct StressTest {
    total_calls: usize,
    parallel_calls: usize,
    launched: usize,
    in_flight: usize,
    success: usize,
    errors: usize,
    min_duration: u64,
    max_duration: u64,
    total_duration: u64,
    duration_count: usize,
    total_retries: u64,
    max_retries: u32,
    transactions_with_retries: usize,
    error_types: Vec<(String, usize)>,
}

impl View for StressTest {
    type V = StressView;

    closed spec fn view(&self) -> StressView {
        StressView {
            total_calls: self.total_calls as nat,
            parallel_calls: self.parallel_calls as nat,
            launched: self.launched as nat,
            in_flight: self.in_flight as nat,
            success: self.success as nat,
            errors: self.errors as nat,
            min_duration: self.min_duration as nat,
            max_duration: self.max_duration as nat,
            total_duration: self.total_duration as nat,
            duration_count: self.duration_count as nat,
            total_retries: self.total_retries as nat,
            max_retries: self.max_retries as nat,
            transactions_with_retries: self.transactions_with_retries as nat,
            error_types: entries_view(self.error_types@),
        }
    }
}

/// Builds the key an error answer is counted under.
fn answer_error_key(error: &String, code: &Option<String>) -> (key: String)
    ensures
        key@ == error_key(error@, text_view(*code)),
{
    let mut key = error.clone();
    match code {
        Some(c) => {
            key.append(" (");
            key.append(c.as_str());
            key.append(")");
        },
        None => {},
    }
    key
}

/// Builds the key a failed invocation is counted under.
fn failure_key_of(message: &String) -> (key: String)
    ensures
        key@ == failure_key(message@),
{
    let mut key = String::from_str("Lambda invocation failed: ");
    key.append(message.as_str());
    key
}

/// Counts one more occurrence of `key` in a tally held as a vector.
fn tally_key(entries: &mut Vec<(String, usize)>, key: String)
    requires
        distinct_keys(entries_view(old(entries)@)),
        count_sum(entries_view(old(entries)@)) < usize::MAX,
    ensures
        entries_view(final(entries)@) == tally(entries_view(old(entries)@), key@),
{
    let ghost before = entries_view(entries@);
    let mut i: usize = 0;
    while i < entries.len()
        invariant
            0 <= i <= entries@.len(),
            entries_view(entries@) == before,
            before == entries_view(old(entries)@),
            distinct_keys(before),
            count_sum(before) < usize::MAX,
            forall|j: int| 0 <= j < i ==> (#[trigger] entries@[j]).0@ != key@,
        decreases entries@.len() - i,
    {
        if entries[i].0 == key {
            let count = entries[i].1;
            proof {
                assert(before[i as int] == (entries@[i as int].0@, count as nat));
                assert(before[i as int].0 == key@);
                assert(has_key(before, key@));
                lemma_count_le_sum(before, i as int);
                let k = choose|k: int| 0 <= k < before.len() && (#[trigger] before[k]).0 == key@;
                assert(before[k].0 == before[i as int].0);
                assert(k == i as int);
            }
            entries.set(i, (key, count + 1));
            proof {
                assert(entries_view(entries@) =~= before.update(i as int, (key@, (count + 1) as nat)));
                assert(tally(before, key@) == before.update(i as int, (key@, (count + 1) as nat)));
            }
            return;
        }
        i = i + 1;
    }
    proof {
        assert(!has_key(before, key@)) by {
            if has_key(before, key@) {
                let k = choose|k: int| 0 <= k < before.len() && (#[trigger] before[k]).0 == key@;
                assert(entries@[k].0@ == key@);
            }
        }
    }
    entries.push((key, 1));
    proof {
        assert(entries_view(entries@) =~= before.push((key@, 1nat)));
    }
}

/// How the duration statistics go from `before` to `after` when one
/// settled invocation reported `duration`: a reported duration becomes the
/// minimum when it is below every earlier one and the maximum when above
/// every earlier one, adds to the total and to the count; no duration leaves
/// them all alone.
pub open spec fn duration_taken(before: StressView, after: StressView, duration: Option<u64>) -> bool {
    match duration {
        Some(d) => {
            &&& after.min_duration <= d
            &&& after.min_duration <= before.min_duration
            &&& (after.min_duration == d || after.min_duration == before.min_duration)
            &&& after.max_duration >= d
            &&& after.max_duration >= before.max_duration
            &&& (after.max_duration == d || after.max_duration == before.max_duration)
            &&& after.total_duration == before.total_duration + d
            &&& after.duration_count == before.duration_count + 1
        },
        None => {
            &&& after.min_duration == before.min_duration
            &&& after.max_duration == before.max_duration
            &&& after.total_duration == before.total_duration
            &&& after.duration_count == before.duration_count
        },
    }
}

/// How the retry statistics go from `before` to `after` when one settled
/// invocation reported `retries`: they add to the total, raise the maximum
/// to at least them, and count the answer as retried when positive.
pub open spec fn retries_taken(before: StressView, after: StressView, retries: Option<u32>) -> bool {
    match retries {
        Some(t) => {
            &&& after.total_retries == before.total_retries + t
            &&& after.max_retries >= t
            &&& after.max_retries >= before.max_retries
            &&& (after.max_retries == t || after.max_retries == before.max_retries)
            &&& after.transactions_with_retries == before.transactions_with_retries + (if t > 0 {
                1int
            } else {
                0int
            })
        },
        None => {
            &&& after.total_retries == before.total_retries
            &&& after.max_retries == before.max_retries
            &&& after.transactions_with_retries == before.transactions_with_retries
        },
    }
}

/// Every answer's duration and retries go into the statistics, whether or
/// not the answer carries an error: the minimum is the least duration seen,
/// the maximum the greatest, the total their sum; a failed invocation
/// reports neither.
pub proof fn lemma_outcome_statistics(v: StressView, o: InvocationView)
    ensures
        o matches InvocationView::Answered(r) ==> duration_taken(v, v.after_outcome(o), r.duration)
            && retries_taken(v, v.after_outcome(o), r.retries),
        o is Failed ==> duration_taken(v, v.after_outcome(o), None) && retries_taken(
            v,
            v.after_outcome(o),
            None,
        ),
{
}

/// Over a run, the minimum duration stays at most every reported duration
/// and the maximum at least every one: a duration the statistics bound
/// stays bounded after one more outcome, and that outcome's own duration is
/// bounded too.
pub proof fn lemma_min_max_bound_every_duration(v: StressView, o: InvocationView, earlier: u64)
    requires
        v.duration_count > 0,
        v.min_duration <= earlier <= v.max_duration,
    ensures
        v.after_outcome(o).min_duration <= earlier <= v.after_outcome(o).max_duration,
        o matches InvocationView::Answered(r) ==> (r.duration matches Some(d) ==> v.after_outcome(
            o,
        ).min_duration <= d <= v.after_outcome(o).max_duration),
{
    lemma_outcome_statistics(v, o);
}

/// A round of starts keeps the accounting of a run.
pub proof fn lemma_launch_keeps_wf(v: StressView)
    requires
        v.wf(),
    ensures
        v.after_launch().wf(),
{
}

/// Settling one started invocation keeps the accounting of a run.
pub proof fn lemma_outcome_keeps_wf(v: StressView, o: InvocationView)
    requires
        v.wf(),
        v.in_flight > 0,
        v.fits(o),
    ensures
        v.after_outcome(o).wf(),
{
    let settled = StressView { in_flight: (v.in_flight - 1) as nat, ..v };
    match o {
        InvocationView::Failed(m) => {
            lemma_tally_step(v.error_types, failure_key(m));
        },
        InvocationView::Answered(r) => {
            if let Some(e) = r.error {
                lemma_tally_step(v.error_types, error_key(e, r.error_code));
            }
            let a = settled.with_answer(r);
            let b = a.with_duration(r.duration);
            let c = b.with_retries(r.retries);
            assert(c.success + c.errors == v.success + v.errors + 1);
        },
    }
}

impl StressTest {
    /// A run that will start `total_calls` invocations, at most
    /// `parallel_calls` at a time.
    pub fn new(total_calls: usize, parallel_calls: usize) -> (run: StressTest)
        requires
            total_calls + parallel_calls <= usize::MAX,
        ensures
            run@ == StressView::initial(total_calls as nat, parallel_calls as nat),
            run@.wf(),
    {
        let run = StressTest {
            total_calls,
            parallel_calls,
            launched: 0,
            in_flight: 0,
            success: 0,
            errors: 0,
            min_duration: u64::MAX,
            max_duration: 0,
            total_duration: 0,
            duration_count: 0,
            total_retries: 0,
            max_retries: 0,
            transactions_with_retries: 0,
            error_types: Vec::new(),
        };
        assert(entries_view(run.error_types@) =~= Seq::<(Seq<char>, nat)>::empty());
        run
    }

    /// Starts a round: every free slot is filled as long as fewer than
    /// `total_calls` invocations have been started. Returns how many
    /// invocations the caller is to start now.
    pub fn launch_round(&mut self) -> (count: usize)
        requires
            old(self)@.wf(),
        ensures
            count == old(self)@.launch_size(),
            final(self)@ == old(self)@.after_launch(),
            final(self)@.wf(),
    {
        let count = if self.launched < self.total_calls && self.in_flight < self.parallel_calls {
            self.parallel_calls - self.in_flight
        } else {
            0
        };
        self.launched = self.launched + count;
        self.in_flight = self.in_flight + count;
        proof {
            lemma_launch_keeps_wf(old(self)@);
        }
        count
    }

    /// Number of started invocations that have not settled.
    pub fn in_flight(&self) -> (n: usize)
        ensures
            n == self@.in_flight,
    {
        self.in_flight
    }

    /// Every started invocation has settled: the run is over when this holds
    /// right after a round of starts.
    pub fn all_settled(&self) -> (done: bool)
        ensures
            done == (self@.in_flight == 0),
    {
        self.in_flight == 0
    }

    /// The outcome's duration and retries fit the running sums.
    pub fn can_record(&self, outcome: &Invocation) -> (ok: bool)
        ensures
            ok == self@.fits(outcome@),
    {
        match outcome {
            Invocation::Answered(r) => {
                let duration_fits = match r.duration {
                    Some(d) => d <= u64::MAX - self.total_duration,
                    None => true,
                };
                let retries_fit = match r.retries {
                    Some(t) => t as u64 <= u64::MAX - self.total_retries,
                    None => true,
                };
                duration_fits && retries_fit
            },
            Invocation::Failed(_) => true,
        }
    }

    /// Settles one started invocation with its outcome: an answer counts as
    /// a success or as an error under its message (and code); its duration
    /// and retries go into the statistics; a failed invocation counts as an
    /// error under its own key.
    pub fn record(&mut self, outcome: &Invocation)
        requires
            old(self)@.wf(),
            old(self)@.in_flight > 0,
            old(self)@.fits(outcome@),
        ensures
            final(self)@ == old(self)@.after_outcome(outcome@),
            final(self)@.wf(),
            outcome@ matches InvocationView::Answered(r) ==> duration_taken(
                old(self)@,
                final(self)@,
                r.duration,
            ) && retries_taken(old(self)@, final(self)@, r.retries),
            outcome@ is Failed ==> duration_taken(old(self)@, final(self)@, None)
                && retries_taken(old(self)@, final(self)@, None),
    {
        proof {
            lemma_outcome_keeps_wf(old(self)@, outcome@);
            lemma_outcome_statistics(old(self)@, outcome@);
            lemma_count_sum_below(old(self)@);
        }
        self.in_flight = self.in_flight - 1;
        match outcome {
            Invocation::Failed(message) => {
                self.errors = self.errors + 1;
                tally_key(&mut self.error_types, failure_key_of(message));
            },
            Invocation::Answered(r) => {
                match &r.error {
                    Some(e) => {
                        self.errors = self.errors + 1;
                        tally_key(&mut self.error_types, answer_error_key(e, &r.error_code));
                    },
                    None => {
                        self.success = self.success + 1;
                    },
                }
                match r.duration {
                    Some(d) => {
                        if d < self.min_duration {
                            self.min_duration = d;
                        }
                        if d > self.max_duration {
                            self.max_duration = d;
                        }
                        self.total_duration = self.total_duration + d;
                        self.duration_count = self.duration_count + 1;
                    },
                    None => {},
                }
                match r.retries {
                    Some(t) => {
                        self.total_retries = self.total_retries + t as u64;
                        if t > self.max_retries {
                            self.max_retries = t;
                        }
                        if t > 0 {
                            self.transactions_with_retries = self.transactions_with_retries + 1;
                        }
                    },
                    None => {},
                }
            },
        }
    }
}

/// Error texts with their counts, most frequent first.
pub open spec fn sorted_by_count(s: Tally) -> bool {
    forall|i: int, j: int| 0 <= i < j < s.len() ==> (#[trigger] s[i]).1 >= (#[trigger] s[j]).1
}

/// The figures a stress run reports at its end.
pub struct StressSummary {
    pub total_calls: usize,
    pub launched: usize,
    pub success: usize,
    pub errors: usize,
    pub min_duration: u64,
    pub max_duration: u64,
    pub total_duration: u64,
    pub duration_count: usize,
    pub total_retries: u64,
    pub max_retries: u32,
    pub transactions_with_retries: usize,
}

impl StressTest {
    /// The run's figures.
    pub fn summary(&self) -> (s: StressSummary)
        ensures
            s.total_calls == self@.total_calls,
            s.launched == self@.launched,
            s.success == self@.success,
            s.errors == self@.errors,
            s.min_duration == self@.min_duration,
            s.max_duration == self@.max_duration,
            s.total_duration == self@.total_duration,
            s.duration_count == self@.duration_count,
            s.total_retries == self@.total_retries,
            s.max_retries == self@.max_retries,
            s.transactions_with_retries == self@.transactions_with_retries,
    {
        StressSummary {
            total_calls: self.total_calls,
            launched: self.launched,
            success: self.success,
            errors: self.errors,
            min_duration: self.min_duration,
            max_duration: self.max_duration,
            total_duration: self.total_duration,
            duration_count: self.duration_count,
            total_retries: self.total_retries,
            max_retries: self.max_retries,
            transactions_with_retries: self.transactions_with_retries,
        }
    }

    /// The error texts with their counts, most frequent first.
    pub fn error_breakdown(&self) -> (res: Vec<(String, usize)>)
        ensures
            entries_view(res@).to_multiset() == self@.error_types.to_multiset(),
            sorted_by_count(entries_view(res@)),
    {
        let ghost all = entries_view(self.error_types@);
        let mut out: Vec<(String, usize)> = Vec::new();
        let mut i: usize = 0;
        proof {
            assert(all.take(0) =~= Seq::<(Seq<char>, nat)>::empty());
            assert(entries_view(out@) =~= Seq::<(Seq<char>, nat)>::empty());
        }
        while i < self.error_types.len()
            invariant
                0 <= i <= self.error_types@.len(),
                all == entries_view(self.error_types@),
                entries_view(out@).to_multiset() == all.take(i as int).to_multiset(),
                sorted_by_count(entries_view(out@)),
            decreases self.error_types@.len() - i,
        {
            let count = self.error_types[i].1;
            let mut p: usize = 0;
            while p < out.len() && out[p].1 >= count
                invariant
                    0 <= p <= out@.len(),
                    forall|k: int| 0 <= k < p ==> (#[trigger] out@[k]).1 >= count,
                decreases out@.len() - p,
            {
                p = p + 1;
            }
            let ghost before = entries_view(out@);
            let entry = (self.error_types[i].0.clone(), count);
            out.insert(p, entry);
            proof {
                let ev = (entry.0@, count as nat);
                assert(entries_view(out@) =~= before.insert(p as int, ev));
                vstd::seq_lib::to_multiset_insert(before, p as int, ev);
                assert(all.take(i + 1) =~= all.take(i as int).push(ev));
                vstd::seq_lib::to_multiset_build(all.take(i as int), ev);
                let now = entries_view(out@);
                assert forall|a: int, b: int| 0 <= a < b < now.len() implies (#[trigger] now[a]).1
                    >= (#[trigger] now[b]).1 by {
                    if p < before.len() {
                        assert(before[p as int].1 < count);
                    }
                    if b == p {
                        assert(now[a] == before[a]);
                        assert(out@[a].1 >= count);
                    } else if a == p {
                        assert(now[b] == before[b - 1]);
                        assert(before[b - 1].1 <= before[p as int].1);
                    } else if a < p && b > p {
                        assert(now[a] == before[a] && now[b] == before[b - 1]);
                    } else if b < p {
                        assert(now[a] == before[a] && now[b] == before[b]);
                    } else {
                        assert(now[a] == before[a - 1] && now[b] == before[b - 1]);
                    }
                }
            }
            i = i + 1;
        }
        proof {
            assert(all.take(all.len() as int) =~= all);
        }
        out
    }
}

/// A run is over when a round of starts leaves nothing in flight; with at
/// least one slot, that happens only once all `total_calls` invocations were
/// started, and then every started invocation was counted as a success or
/// an error.
pub proof fn lemma_run_ends_only_when_all_started(v: StressView)
    requires
        v.wf(),
        v.parallel_calls > 0,
        v.after_launch().in_flight == 0,
    ensures
        v.after_launch().launched >= v.total_calls,
        v.after_launch().success + v.after_launch().errors == v.after_launch().launched,
{
}

/// A run as the driver leaves it after each round of starts: never more
/// than `total_calls` started, and every slot busy while some are left.
pub open spec fn steady(v: StressView) -> bool {
    &&& v.launched <= v.total_calls
    &&& (v.launched < v.total_calls ==> v.in_flight == v.parallel_calls)
}

/// When there are at least as many calls as slots, the first round of starts
/// leaves the run steady.
pub proof fn lemma_first_round_steady(total_calls: nat, parallel_calls: nat)
    requires
        total_calls >= parallel_calls,
    ensures
        steady(StressView::initial(total_calls, parallel_calls).after_launch()),
{
}

/// Settling one invocation and then running a round of starts keeps a run
/// steady: the round starts one invocation while calls are left, and none
/// after.
pub proof fn lemma_settle_then_round_steady(v: StressView, o: InvocationView)
    requires
        v.wf(),
        steady(v),
        v.in_flight > 0,
    ensures
        steady(v.after_outcome(o).after_launch()),
        v.launched < v.total_calls ==> v.after_outcome(o).launch_size() == 1,
{
}

/// A steady run with at least one slot that ends (nothing in flight after a
/// round) has started exactly `total_calls` invocations and counted each as
/// a success or an error.
pub proof fn lemma_steady_run_starts_exactly_total(v: StressView)
    requires
        v.wf(),
        steady(v),
        v.parallel_calls > 0,
        v.in_flight == 0,
    ensures
        v.launched == v.total_calls,
        v.success + v.errors == v.total_calls,
{
}

/// No more than `parallel_calls` invocations are ever in flight, and the
/// run starts fewer than `total_calls + parallel_calls` invocations.
pub proof fn lemma_run_bounds(v: StressView)
    requires
        v.wf(),
    ensures
        v.in_flight <= v.parallel_calls,
        v.launched == 0 || v.launched < v.total_calls + v.parallel_calls,
        v.after_launch().in_flight <= v.parallel_calls,
{
}

/// Each settled invocation is counted exactly once, as a success or as an
/// error, and the error counts per text always add up to the errors.
pub proof fn lemma_each_outcome_counted_once(v: StressView, o: InvocationView)
    requires
        v.wf(),
        v.in_flight > 0,
        v.fits(o),
    ensures
        v.after_outcome(o).success + v.after_outcome(o).errors == v.success + v.errors + 1,
        v.after_outcome(o).in_flight == v.in_flight - 1,
        v.after_outcome(o).launched == v.launched,
        count_sum(v.after_outcome(o).error_types) == v.after_outcome(o).errors,
{
    lemma_outcome_keeps_wf(v, o);
}

/// In a well-kept run the error tally sums to less than `usize::MAX`.
proof fn lemma_count_sum_below(v: StressView)
    requires
        v.wf(),
        v.in_flight > 0,
    ensures
        count_sum(v.error_types) < usize::MAX,
        v.success + v.errors < usize::MAX,
{
}

} // verus!
