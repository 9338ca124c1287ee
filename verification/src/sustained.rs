use vstd::prelude::*;
use crate::latency::{LatencyRecorder, buckets_of, saturating_count};
use vstd::multiset::Multiset;
use crate::text::same_text;
use crate::transfer::{Invocation, InvocationView};

verus! {

/// Concurrency the load generator starts with, and the floor it backs off to.
pub const INITIAL_CONCURRENCY: usize = 10;

/// Step by which the concurrency target grows after a clean second.
pub const CONCURRENCY_STEP: usize = 10;

/// In-flight invocations allowed per invocation asked for each second.
pub const IN_FLIGHT_PER_RATE: u32 = 50;

/// The most invocations the sustained load keeps in flight for a target
/// rate of `invocations_per_sec`.
pub open spec fn in_flight_cap(invocations_per_sec: u32) -> int {
    invocations_per_sec * IN_FLIGHT_PER_RATE
}

/// The in-flight cap for a target rate (fifty per invocation per second).
pub fn max_in_flight(invocations_per_sec: u32) -> (cap: u32)
    requires
        in_flight_cap(invocations_per_sec) <= u32::MAX,
    ensures
        cap == in_flight_cap(invocations_per_sec),
{
    invocations_per_sec * IN_FLIGHT_PER_RATE
}

/// The additive-increase / back-off controller, as mathematical values.
pub struct AimdView {
    /// Current concurrency target.
    pub target: nat,
    /// Largest target allowed.
    pub max_in_flight: nat,
    /// Success counter seen at the previous tick.
    pub last_success: nat,
    /// Answer counter (answers with or without an error) seen at the
    /// previous tick.
    pub last_answers: nat,
    /// Dispatch-failure counter seen at the previous tick.
    pub last_errors: nat,
    /// Target of the last second that ended without dispatch failures.
    pub last_good: nat,
}

impl AimdView {
    /// The target after a second with `answers` answers (successful or not)
    /// and `dispatch_errors` failed dispatches: any answer in a second without
    /// failed dispatches allows a step up (capped); failed dispatches fall
    /// back to the last good target (at least the initial one); else stay.
    pub open spec fn next_target(self, answers: nat, dispatch_errors: nat) -> nat {
        if dispatch_errors == 0 && answers > 0 {
            if self.target + CONCURRENCY_STEP <= self.max_in_flight {
                (self.target + CONCURRENCY_STEP) as nat
            } else {
                self.max_in_flight
            }
        } else if dispatch_errors > 0 {
            if self.last_good >= INITIAL_CONCURRENCY {
                self.last_good
            } else {
                INITIAL_CONCURRENCY as nat
            }
        } else {
            self.target
        }
    }

    /// The last good target after such a second.
    pub open spec fn next_last_good(self, answers: nat, dispatch_errors: nat) -> nat {
        if dispatch_errors == 0 && answers > 0 {
            self.target
        } else {
            self.last_good
        }
    }

    /// The controller after a tick that read the three counters.
    pub open spec fn after_tick(self, current_success: nat, current_answers: nat, current_errors: nat) -> AimdView {
        let answers = (current_answers - self.last_answers) as nat;
        let dispatch_errors = (current_errors - self.last_errors) as nat;
        AimdView {
            target: self.next_target(answers, dispatch_errors),
            last_good: self.next_last_good(answers, dispatch_errors),
            last_success: current_success,
            last_answers: current_answers,
            last_errors: current_errors,
            ..self
        }
    }

    /// The target lies between the initial concurrency and a cap that is a
    /// whole number of steps; it is a whole number of steps itself, and at
    /// most one step above the last good target, which it never falls below.
    pub open spec fn within_bounds(self) -> bool {
        &&& INITIAL_CONCURRENCY <= self.target <= self.max_in_flight
        &&& INITIAL_CONCURRENCY <= self.last_good <= self.target
        &&& self.target <= self.last_good + CONCURRENCY_STEP
        &&& self.max_in_flight % (CONCURRENCY_STEP as nat) == 0
        &&& self.target % (CONCURRENCY_STEP as nat) == 0
        &&& self.last_good % (CONCURRENCY_STEP as nat) == 0
    }

    /// The counters read at a tick are at least those of the previous one.
    pub open spec fn counters_grew(self, current_success: nat, current_answers: nat, current_errors: nat) -> bool {
        &&& current_success >= self.last_success
        &&& current_answers >= self.last_answers
        &&& current_errors >= self.last_errors
    }
}

/// A controller started within bounds stays within bounds, whatever the
/// counters report: the target stays a whole number of steps between the
/// initial concurrency and the cap.
pub proof fn lemma_aimd_stays_within_bounds(v: AimdView, current_success: nat, current_answers: nat, current_errors: nat)
    requires
        v.within_bounds(),
        v.counters_grew(current_success, current_answers, current_errors),
    ensures
        v.after_tick(current_success, current_answers, current_errors).within_bounds(),
{
}

/// A fresh controller is within bounds exactly when its cap is a whole
/// number of steps and at least the initial concurrency; the cap for a rate
/// of one or more invocations per second is.
pub proof fn lemma_aimd_starts_within_bounds(max_in_flight: nat)
    ensures
        (AimdView {
            target: INITIAL_CONCURRENCY as nat,
            max_in_flight,
            last_success: 0,
            last_answers: 0,
            last_errors: 0,
            last_good: INITIAL_CONCURRENCY as nat,
        }).within_bounds() <==> max_in_flight >= INITIAL_CONCURRENCY && max_in_flight
            % (CONCURRENCY_STEP as nat) == 0,
{
}

/// The cap for a rate of at least one invocation per second is a whole
/// number of steps and at least the initial concurrency.
pub proof fn lemma_cap_fits_steps(invocations_per_sec: u32)
    requires
        invocations_per_sec >= 1,
    ensures
        in_flight_cap(invocations_per_sec) >= INITIAL_CONCURRENCY,
        in_flight_cap(invocations_per_sec) % (CONCURRENCY_STEP as int) == 0,
{
    assert((invocations_per_sec * 50) % 10 == 0) by (nonlinear_arith)
        requires invocations_per_sec >= 1;
}

/// A second in which dispatches failed sets the target back to the last good
/// target, which is at most one step below it and never above it; a second
/// without failed dispatches but with answers (successful or not) never
/// lowers it and raises it by one step unless the cap is reached; a second
/// with neither leaves it alone.
pub proof fn lemma_aimd_direction(v: AimdView, current_success: nat, current_answers: nat, current_errors: nat)
    requires
        v.within_bounds(),
        v.counters_grew(current_success, current_answers, current_errors),
    ensures
        ({
            let next = v.after_tick(current_success, current_answers, current_errors);
            let answers = current_answers - v.last_answers;
            let failures = current_errors - v.last_errors;
            &&& failures > 0 ==> next.target == v.last_good && v.target - CONCURRENCY_STEP
                <= next.target <= v.target
            &&& failures == 0 && answers > 0 ==> next.target >= v.target && next.target == (
            if v.target + CONCURRENCY_STEP <= v.max_in_flight {
                v.target + CONCURRENCY_STEP
            } else {
                v.max_in_flight as int
            }) && next.last_good == v.target
            &&& failures == 0 && answers == 0 ==> next.target == v.target
        }),
{
}

/// Failed dispatches leave the last good target where it was, so a run of
/// failing seconds keeps the target at that same value (at least the
/// initial concurrency): a second failing tick right after a first gives
/// the same target.
pub proof fn lemma_aimd_failures_hold_last_good(
    v: AimdView,
    s1: nat,
    a1: nat,
    e1: nat,
    s2: nat,
    a2: nat,
    e2: nat,
)
    requires
        v.counters_grew(s1, a1, e1),
        e1 > v.last_errors,
        v.after_tick(s1, a1, e1).counters_grew(s2, a2, e2),
        e2 > e1,
    ensures
        v.after_tick(s1, a1, e1).last_good == v.last_good,
        v.after_tick(s1, a1, e1).after_tick(s2, a2, e2).last_good == v.last_good,
        v.after_tick(s1, a1, e1).after_tick(s2, a2, e2).target == v.after_tick(s1, a1, e1).target,
        v.after_tick(s1, a1, e1).target >= INITIAL_CONCURRENCY,
        v.last_good >= INITIAL_CONCURRENCY ==> v.after_tick(s1, a1, e1).target == v.last_good,
{
}

/// What one tick of the controller decided.
pub struct AimdTick {
    /// Successful answers counted during the last second (shown as the rate).
    pub successes: usize,
    /// Answers, successful or not, counted during the last second.
    pub answers: usize,
    /// The new concurrency target.
    pub target: usize,
    /// Latency samples the histogram accepted.
    pub recorded: usize,
}

/// The controller that adapts how many invocations the sustained load keeps
/// in flight, and the latencies it reports.
pub struct AimdController {
    target: usize,
    max_in_flight: usize,
    last_success: usize,
    last_answers: usize,
    last_errors: usize,
    last_good: usize,
    latencies: LatencyRecorder,
}

impl View for AimdController {
    type V = AimdView;

    closed spec fn view(&self) -> AimdView {
        AimdView {
            target: self.target as nat,
            max_in_flight: self.max_in_flight as nat,
            last_success: self.last_success as nat,
            last_answers: self.last_answers as nat,
            last_errors: self.last_errors as nat,
            last_good: self.last_good as nat,
        }
    }
}

impl AimdController {
    /// A controller whose target starts at the initial concurrency, under the
    /// cap for `invocations_per_sec`, with no latency recorded.
    pub fn new(invocations_per_sec: u32) -> (c: AimdController)
        requires
            in_flight_cap(invocations_per_sec) <= u32::MAX,
            in_flight_cap(invocations_per_sec) + CONCURRENCY_STEP <= usize::MAX,
        ensures
            c@ == (AimdView {
                target: INITIAL_CONCURRENCY as nat,
                max_in_flight: in_flight_cap(invocations_per_sec) as nat,
                last_success: 0,
                last_answers: 0,
                last_errors: 0,
                last_good: INITIAL_CONCURRENCY as nat,
            }),
            c.latency_count() == 0,
            c.latency_recorder().buckets() =~= Multiset::<u64>::empty(),
            c.wf(),
            invocations_per_sec >= 1 ==> c@.within_bounds(),
    {
        proof {
            if invocations_per_sec >= 1 {
                lemma_cap_fits_steps(invocations_per_sec);
            }
        }
        let cap = max_in_flight(invocations_per_sec);
        AimdController {
            target: INITIAL_CONCURRENCY,
            max_in_flight: cap as usize,
            last_success: 0,
            last_answers: 0,
            last_errors: 0,
            last_good: INITIAL_CONCURRENCY,
            latencies: LatencyRecorder::new(),
        }
    }

    /// The controller's numbers fit the arithmetic of a tick.
    pub open spec fn wf(&self) -> bool {
        &&& self@.max_in_flight + CONCURRENCY_STEP <= usize::MAX
        &&& (self@.target <= self@.max_in_flight || self@.target == INITIAL_CONCURRENCY)
        &&& (self@.last_good <= self@.max_in_flight || self@.last_good == INITIAL_CONCURRENCY)
        &&& self.latency_recorder().wf()
    }

    /// The latency recorder the controller holds.
    pub closed spec fn latency_recorder(&self) -> LatencyRecorder {
        self.latencies
    }

    /// Number of latency samples recorded.
    pub open spec fn latency_count(&self) -> nat {
        self.latency_recorder().count()
    }

    /// The current concurrency target.
    pub fn target(&self) -> (t: usize)
        ensures
            t == self@.target,
    {
        self.target
    }

    /// One tick, once a second: records the latency samples that arrived,
    /// then sets the new target from the counters' growth since the previous
    /// tick and remembers the counters.
    pub fn tick(
        &mut self,
        current_success: usize,
        current_answers: usize,
        current_errors: usize,
        samples: &Vec<u64>,
    ) -> (t: AimdTick)
        requires
            old(self).wf(),
            old(self)@.counters_grew(
                current_success as nat,
                current_answers as nat,
                current_errors as nat,
            ),
        ensures
            final(self)@ == old(self)@.after_tick(
                current_success as nat,
                current_answers as nat,
                current_errors as nat,
            ),
            t.successes == current_success - old(self)@.last_success,
            t.answers == current_answers - old(self)@.last_answers,
            t.target == final(self)@.target,
            final(self).wf(),
            old(self)@.within_bounds() ==> final(self)@.within_bounds(),
            current_errors > old(self)@.last_errors ==> final(self)@.last_good == old(self)@.last_good
                && final(self)@.target == (if old(self)@.last_good >= INITIAL_CONCURRENCY {
                old(self)@.last_good
            } else {
                INITIAL_CONCURRENCY as nat
            }),
            current_errors == old(self)@.last_errors && current_answers > old(self)@.last_answers
                ==> final(self)@.last_good == old(self)@.target,
            current_errors == old(self)@.last_errors && current_answers == old(self)@.last_answers
                ==> final(self)@.last_good == old(self)@.last_good && final(self)@.target == old(
                self,
            )@.target,
            t.recorded == samples@.len(),
            final(self).latency_count() == saturating_count(old(self).latency_count(), samples@.len()),
            forall|v: u64|
                final(self).latency_recorder().bucket_of(v) == old(self).latency_recorder().bucket_of(v),
            old(self).latency_count() + samples@.len() <= u64::MAX ==> final(self).latency_recorder().buckets()
                =~= old(self).latency_recorder().buckets().add(
                buckets_of(old(self).latency_recorder().held_histogram(), samples@),
            ),
    {
        proof {
            if old(self)@.within_bounds() {
                lemma_aimd_stays_within_bounds(
                    old(self)@,
                    current_success as nat,
                    current_answers as nat,
                    current_errors as nat,
                );
            }
        }
        let recorded = self.latencies.record_all(samples);
        let successes = current_success - self.last_success;
        let answers = current_answers - self.last_answers;
        let dispatch_errors = current_errors - self.last_errors;
        let new_target = if dispatch_errors == 0 && answers > 0 {
            self.last_good = self.target;
            if self.target + CONCURRENCY_STEP <= self.max_in_flight {
                self.target + CONCURRENCY_STEP
            } else {
                self.max_in_flight
            }
        } else if dispatch_errors > 0 {
            if self.last_good >= INITIAL_CONCURRENCY {
                self.last_good
            } else {
                INITIAL_CONCURRENCY
            }
        } else {
            self.target
        };
        self.target = new_target;
        self.last_success = current_success;
        self.last_answers = current_answers;
        self.last_errors = current_errors;
        AimdTick { successes, answers, target: new_target, recorded }
    }

    /// The latency recording, for the progress line's percentiles.
    pub fn latencies(&self) -> (r: &LatencyRecorder)
        ensures
            *r == self.latency_recorder(),
            r.count() == self.latency_count(),
    {
        &self.latencies
    }
}

/// The database error code of a serialization conflict under optimistic
/// concurrency control.
pub open spec fn occ_conflict_code() -> Seq<char> {
    "40001"@
}

/// What the sustained load does with the outcome of one invocation: which
/// counters it bumps, whether it logs a warning, and which duration and
/// retry count it adds.
pub struct LoadEffect {
    pub success: bool,
    pub answered: bool,
    pub error: bool,
    pub dispatch_error: bool,
    pub occ_conflict: bool,
    pub warn: bool,
    pub duration: Option<u64>,
    pub retries: Option<u32>,
}

/// The effect of an outcome: every answer counts as an answer (which lets the
/// controller step up); an answer without error is a success; an answer
/// with an error is an error, counted as a conflict when its code is the
/// conflict code and logged as a warning otherwise; a failed invocation is
/// an error and a dispatch failure. Durations and retries come from answers.
pub open spec fn effect_of(o: InvocationView) -> LoadEffect {
    match o {
        InvocationView::Answered(r) => LoadEffect {
            success: r.error is None,
            answered: true,
            error: r.error is Some,
            dispatch_error: false,
            occ_conflict: r.error is Some && r.error_code == Some(occ_conflict_code()),
            warn: r.error is Some && r.error_code != Some(occ_conflict_code()),
            duration: r.duration,
            retries: r.retries,
        },
        InvocationView::Failed(_) => LoadEffect {
            success: false,
            answered: false,
            error: true,
            dispatch_error: true,
            occ_conflict: false,
            warn: false,
            duration: None,
            retries: None,
        },
    }
}

/// Decides what an outcome does to the sustained load's counters.
pub fn classify(outcome: &Invocation) -> (e: LoadEffect)
    ensures
        e == effect_of(outcome@),
        outcome@ matches InvocationView::Answered(r) ==> e.duration == r.duration && e.retries
            == r.retries && e.answered && !e.dispatch_error && e.success == (r.error is None),
        outcome@ is Failed ==> e.duration is None && e.retries is None && e.dispatch_error
            && e.error && !e.answered,
{
    match outcome {
        Invocation::Answered(r) => {
            let error = r.error.is_some();
            let occ = match &r.error_code {
                Some(code) => error && same_text(code.as_str(), "40001"),
                None => false,
            };
            proof {
                reveal_strlit("40001");
            }
            LoadEffect {
                success: !error,
                answered: true,
                error,
                dispatch_error: false,
                occ_conflict: occ,
                warn: error && !occ,
                duration: r.duration,
                retries: r.retries,
            }
        },
        Invocation::Failed(_) => LoadEffect {
            success: false,
            answered: false,
            error: true,
            dispatch_error: true,
            occ_conflict: false,
            warn: false,
            duration: None,
            retries: None,
        },
    }
}

/// Every outcome counts as exactly one of a success or an error, and as
/// exactly one of an answer or a dispatch failure; only failed invocations
/// are dispatch failures; a conflict is an error answer that is
/// not logged as a warning.
pub proof fn lemma_effect_partition(o: InvocationView)
    ensures
        effect_of(o).success != effect_of(o).error,
        effect_of(o).dispatch_error ==> effect_of(o).error,
        effect_of(o).dispatch_error <==> o is Failed,
        effect_of(o).answered <==> !effect_of(o).dispatch_error,
        effect_of(o).success ==> effect_of(o).answered,
        effect_of(o).occ_conflict ==> effect_of(o).error && !effect_of(o).dispatch_error
            && !effect_of(o).warn,
        effect_of(o).error && !effect_of(o).dispatch_error ==> effect_of(o).occ_conflict
            != effect_of(o).warn,
{
}

/// Every answer's duration and retries are added to the sums, whatever the
/// answer's error: the effect of an answer carries exactly the duration and
/// retry count the answer reported.
pub proof fn lemma_answer_reports_duration_and_retries(o: InvocationView)
    ensures
        o matches InvocationView::Answered(r) ==> effect_of(o).duration == r.duration
            && effect_of(o).retries == r.retries,
        o is Failed ==> effect_of(o).duration is None && effect_of(o).retries is None,
{
}

/// `a - b`, or 0 when `b` exceeds `a`.
pub open spec fn saturating_diff(a: nat, b: nat) -> nat {
    if a >= b {
        (a - b) as nat
    } else {
        0
    }
}

/// How many invocations a round starts: enough to reach the concurrency
/// target, but no more than the rate still allows this second.
pub open spec fn spawn_budget(target: nat, in_flight: nat, rate: nat, spawned: nat) -> nat {
    let room = saturating_diff(target, in_flight);
    let allowed = saturating_diff(rate, spawned);
    if room <= allowed {
        room
    } else {
        allowed
    }
}

/// The rate limiter of the sustained load, as mathematical values.
pub struct PacerView {
    /// Invocations allowed per second.
    pub target_rate: nat,
    /// Invocations started in the current second.
    pub spawned_this_sec: nat,
    /// Starts the current round still allows.
    pub allowance: nat,
}

/// Spreads the invocations of the sustained load over seconds: each round
/// starts no more than the concurrency target leaves room for and the rate
/// still allows in the current second.
pub struct SpawnPacer {
    target_rate: usize,
    spawned_this_sec: usize,
    allowance: usize,
}

impl View for SpawnPacer {
    type V = PacerView;

    closed spec fn view(&self) -> PacerView {
        PacerView {
            target_rate: self.target_rate as nat,
            spawned_this_sec: self.spawned_this_sec as nat,
            allowance: self.allowance as nat,
        }
    }
}

impl PacerView {
    /// Starts so far plus those still allowed never pass the rate.
    pub open spec fn wf(self) -> bool {
        self.spawned_this_sec + self.allowance <= self.target_rate
    }

    /// The pacer after a round is planned; the second's count starts over
    /// when a new second began.
    pub open spec fn after_plan(self, new_second: bool, target: nat, in_flight: nat) -> PacerView {
        let spawned = if new_second { 0 } else { self.spawned_this_sec };
        PacerView {
            spawned_this_sec: spawned,
            allowance: spawn_budget(target, in_flight, self.target_rate, spawned),
            ..self
        }
    }
}

impl SpawnPacer {
    /// A pacer for `invocations_per_sec` invocations each second.
    pub fn new(invocations_per_sec: u32) -> (p: SpawnPacer)
        ensures
            p@ == (PacerView {
                target_rate: invocations_per_sec as nat,
                spawned_this_sec: 0,
                allowance: 0,
            }),
            p@.wf(),
    {
        SpawnPacer { target_rate: invocations_per_sec as usize, spawned_this_sec: 0, allowance: 0 }
    }

    /// Plans a round and returns how many invocations to start in it.
    /// `new_second` tells that a second has passed since the count last
    /// started over, which starts it over.
    pub fn plan_round(&mut self, new_second: bool, target: usize, in_flight: usize) -> (count: usize)
        requires
            old(self)@.wf(),
        ensures
            final(self)@ == old(self)@.after_plan(new_second, target as nat, in_flight as nat),
            count == final(self)@.allowance,
            final(self)@.wf(),
            in_flight + count <= if target >= in_flight {
                target as int
            } else {
                in_flight as int
            },
            final(self)@.spawned_this_sec + count <= final(self)@.target_rate,
            final(self)@.spawned_this_sec == (if new_second {
                0
            } else {
                old(self)@.spawned_this_sec
            }),
            in_flight + count == target || final(self)@.spawned_this_sec + count
                == final(self)@.target_rate || (target <= in_flight && count == 0),
    {
        if new_second {
            self.spawned_this_sec = 0;
        }
        let room = target.saturating_sub(in_flight);
        let allowed = self.target_rate.saturating_sub(self.spawned_this_sec);
        let count = if room <= allowed {
            room
        } else {
            allowed
        };
        self.allowance = count;
        count
    }

    /// Notes that one invocation of the round was started.
    pub fn note_spawned(&mut self)
        requires
            old(self)@.wf(),
            old(self)@.allowance > 0,
        ensures
            final(self)@ == (PacerView {
                spawned_this_sec: old(self)@.spawned_this_sec + 1,
                allowance: (old(self)@.allowance - 1) as nat,
                ..old(self)@
            }),
            final(self)@.wf(),
    {
        self.spawned_this_sec = self.spawned_this_sec + 1;
        self.allowance = self.allowance - 1;
    }

    /// Starts still allowed in this round.
    pub fn allowance(&self) -> (n: usize)
        ensures
            n == self@.allowance,
    {
        self.allowance
    }
}

/// A round starts as many invocations as the limits allow: it fills the
/// concurrency target up, unless the rate left in this second runs out
/// first, and starts nothing only when the target is already reached or
/// the second's rate is used up.
pub proof fn lemma_round_is_greedy(p: PacerView, new_second: bool, target: nat, in_flight: nat)
    requires
        p.wf(),
    ensures
        ({
            let q = p.after_plan(new_second, target, in_flight);
            &&& q.spawned_this_sec == if new_second { 0 } else { p.spawned_this_sec }
            &&& in_flight + q.allowance == target || q.spawned_this_sec + q.allowance
                == p.target_rate || (target <= in_flight && q.allowance == 0)
            &&& q.allowance == 0 ==> target <= in_flight || q.spawned_this_sec == p.target_rate
        }),
{
}

/// A round never lets the invocations in flight pass the concurrency target
/// (unless they already did), and the invocations started in one second
/// never pass the rate.
pub proof fn lemma_round_respects_limits(p: PacerView, new_second: bool, target: nat, in_flight: nat)
    requires
        p.wf(),
    ensures
        ({
            let q = p.after_plan(new_second, target, in_flight);
            &&& in_flight + q.allowance <= if target >= in_flight {
                target
            } else {
                in_flight
            }
            &&& q.spawned_this_sec + q.allowance <= p.target_rate
        }),
{
}

/// The sustained load never has more invocations in flight than the cap of
/// fifty per invocation per second: with the controller within bounds, a
/// round of starts from at most the cap in flight stays at most the cap (and
/// settling invocations only lowers the number in flight).
pub proof fn lemma_in_flight_stays_under_cap(
    controller: AimdView,
    pacer: PacerView,
    new_second: bool,
    in_flight: nat,
)
    requires
        controller.within_bounds(),
        pacer.wf(),
        in_flight <= controller.max_in_flight,
    ensures
        in_flight + pacer.after_plan(new_second, controller.target, in_flight).allowance
            <= controller.max_in_flight,
{
    lemma_round_respects_limits(pacer, new_second, controller.target, in_flight);
}

} // verus!
