use helper::sustained::{classify, max_in_flight, AimdController, SpawnPacer};
use helper::transfer::{Invocation, TransferResponse};
use helper::latency::LatencyRecorder;

fn answer(error: Option<&str>, code: Option<&str>) -> Invocation {
    Invocation::Answered(TransferResponse {
        balance: None,
        error: error.map(|e| e.to_string()),
        error_code: code.map(|c| c.to_string()),
        duration: Some(12),
        retries: Some(3),
    })
}

#[test]
fn in_flight_cap_is_fifty_per_rate() {
    assert_eq!(max_in_flight(100), 5000);
    assert_eq!(max_in_flight(1), 50);
}

#[test]
fn aimd_grows_backs_off_and_holds() {
    let mut c = AimdController::new(100);
    assert_eq!(c.target(), 10);
    let t = c.tick(5, 5, 0, &vec![]);
    assert_eq!(t.successes, 5);
    assert_eq!(t.answers, 5);
    assert_eq!(t.target, 20);
    let t = c.tick(9, 9, 0, &vec![]);
    assert_eq!(t.successes, 4);
    assert_eq!(t.target, 30);
    let t = c.tick(9, 9, 0, &vec![]);
    assert_eq!(t.successes, 0);
    assert_eq!(t.target, 30);
    let t = c.tick(12, 12, 2, &vec![]);
    assert_eq!(t.target, 20);
    let t = c.tick(20, 20, 2, &vec![]);
    assert_eq!(t.target, 30);
    assert_eq!(c.target(), 30);
}

#[test]
fn aimd_error_answers_allow_increase() {
    let mut c = AimdController::new(100);
    let t = c.tick(0, 7, 0, &vec![]);
    assert_eq!(t.successes, 0);
    assert_eq!(t.answers, 7);
    assert_eq!(t.target, 20);
    let t = c.tick(0, 7, 0, &vec![]);
    assert_eq!(t.target, 20);
}

#[test]
fn aimd_target_steps_by_ten_and_drops_one_step() {
    let mut c = AimdController::new(3);
    let mut answers = 0;
    let mut errors = 0;
    let mut prev = c.target();
    for k in 0..40 {
        if k % 3 == 2 {
            errors += 1;
        } else {
            answers += 2;
        }
        let t = c.tick(answers, answers, errors, &vec![]);
        assert_eq!(t.target % 10, 0);
        assert!(t.target >= 10 && t.target <= 150);
        assert!(t.target + 10 >= prev);
        prev = t.target;
    }
}

#[test]
fn aimd_back_off_floor_is_initial() {
    let mut c = AimdController::new(100);
    let t = c.tick(0, 0, 1, &vec![]);
    assert_eq!(t.target, 10);
}

#[test]
fn aimd_capped_by_max_in_flight() {
    let mut c = AimdController::new(1);
    let mut success = 0;
    for _ in 0..10 {
        success += 1;
        c.tick(success, success, 0, &vec![]);
    }
    assert_eq!(c.target(), 50);
}

#[test]
fn aimd_records_latencies() {
    let mut c = AimdController::new(10);
    let t = c.tick(0, 0, 0, &vec![5, 17, 250]);
    assert_eq!(t.recorded, 3);
    assert_eq!(c.latencies().recorded(), 3);
    let t = c.tick(0, 0, 0, &vec![40]);
    assert_eq!(t.recorded, 1);
    assert_eq!(c.latencies().recorded(), 4);
    let median = c.latencies().histogram().inner.value_at_quantile(0.5);
    assert!(median >= 17 && median <= 18);
}

#[test]
fn latency_recorder_counts_samples() {
    let mut r = LatencyRecorder::new();
    assert_eq!(r.recorded(), 0);
    assert_eq!(r.record_all(&vec![1, 2, 3, 1_000_000]), 4);
    assert_eq!(r.recorded(), 4);
}

#[test]
fn classify_success() {
    let e = classify(&answer(None, None));
    assert!(e.answered);
    assert!(e.success && !e.error && !e.dispatch_error && !e.occ_conflict && !e.warn);
    assert_eq!(e.duration, Some(12));
    assert_eq!(e.retries, Some(3));
}

#[test]
fn classify_occ_conflict() {
    let e = classify(&answer(Some("serialization failure"), Some("40001")));
    assert!(e.answered);
    assert!(!e.success && e.error && !e.dispatch_error && e.occ_conflict && !e.warn);
}

#[test]
fn classify_other_error_warns() {
    let e = classify(&answer(Some("boom"), Some("40P01")));
    assert!(e.error && !e.occ_conflict && e.warn);
    let e = classify(&answer(Some("boom"), None));
    assert!(e.error && !e.occ_conflict && e.warn);
}

#[test]
fn classify_code_without_error_is_success() {
    let e = classify(&answer(None, Some("40001")));
    assert!(e.success && !e.occ_conflict && !e.warn);
}

#[test]
fn classify_dispatch_failure() {
    let e = classify(&Invocation::Failed("throttled".to_string()));
    assert!(!e.answered);
    assert!(!e.success && e.error && e.dispatch_error && !e.occ_conflict && !e.warn);
    assert_eq!(e.duration, None);
    assert_eq!(e.retries, None);
}

#[test]
fn pacer_limits_by_target_and_rate() {
    let mut p = SpawnPacer::new(100);
    assert_eq!(p.plan_round(true, 10, 0), 10);
    for _ in 0..10 {
        p.note_spawned();
    }
    assert_eq!(p.allowance(), 0);
    assert_eq!(p.plan_round(false, 500, 10), 90);
    for _ in 0..90 {
        p.note_spawned();
    }
    assert_eq!(p.plan_round(false, 500, 100), 0);
    assert_eq!(p.plan_round(true, 500, 100), 100);
    assert_eq!(p.plan_round(true, 50, 80), 0);
}
