use helper::stress::StressTest;
use helper::transfer::{Invocation, TransferResponse};

fn answer(error: Option<&str>, code: Option<&str>, duration: Option<u64>, retries: Option<u32>) -> Invocation {
    Invocation::Answered(TransferResponse {
        balance: if error.is_none() { Some(99) } else { None },
        error: error.map(|e| e.to_string()),
        error_code: code.map(|c| c.to_string()),
        duration,
        retries,
    })
}

#[test]
fn stress_run_schedules_and_counts() {
    let mut run = StressTest::new(5, 2);
    assert_eq!(run.launch_round(), 2);
    let ok = answer(None, None, Some(10), Some(0));
    assert!(run.can_record(&ok));
    run.record(&ok);
    assert_eq!(run.in_flight(), 1);
    assert_eq!(run.launch_round(), 1);
    run.record(&answer(Some("deadlock"), Some("40001"), Some(30), Some(2)));
    run.record(&Invocation::Failed("timeout".to_string()));
    assert!(run.all_settled());
    assert_eq!(run.launch_round(), 2);
    run.record(&answer(Some("deadlock"), Some("40001"), None, None));
    run.record(&answer(None, None, Some(20), Some(1)));
    assert_eq!(run.launch_round(), 0);
    assert!(run.all_settled());

    let s = run.summary();
    assert_eq!(s.total_calls, 5);
    assert_eq!(s.launched, 5);
    assert_eq!(s.success, 2);
    assert_eq!(s.errors, 3);
    assert_eq!(s.duration_count, 3);
    assert_eq!(s.min_duration, 10);
    assert_eq!(s.max_duration, 30);
    assert_eq!(s.total_duration, 60);
    assert_eq!(s.total_retries, 3);
    assert_eq!(s.max_retries, 2);
    assert_eq!(s.transactions_with_retries, 2);

    let b = run.error_breakdown();
    assert_eq!(
        b,
        vec![
            ("deadlock (40001)".to_string(), 2),
            ("Lambda invocation failed: timeout".to_string(), 1),
        ]
    );
}

#[test]
fn stress_run_fills_free_slots_past_total() {
    let mut run = StressTest::new(3, 2);
    assert_eq!(run.launch_round(), 2);
    run.record(&answer(None, None, None, None));
    run.record(&answer(None, None, None, None));
    assert_eq!(run.launch_round(), 2);
    run.record(&answer(None, None, None, None));
    run.record(&answer(None, None, None, None));
    assert_eq!(run.launch_round(), 0);
    assert_eq!(run.summary().launched, 4);
    assert_eq!(run.summary().success, 4);
}

#[test]
fn stress_run_without_slots_ends_at_once() {
    let mut run = StressTest::new(10, 0);
    assert_eq!(run.launch_round(), 0);
    assert!(run.all_settled());
}

#[test]
fn stress_run_empty_statistics() {
    let run = StressTest::new(1, 1);
    let s = run.summary();
    assert_eq!(s.min_duration, u64::MAX);
    assert_eq!(s.max_duration, 0);
    assert_eq!(s.duration_count, 0);
    assert!(run.error_breakdown().is_empty());
}

#[test]
fn error_key_without_code_is_message() {
    let mut run = StressTest::new(2, 2);
    run.launch_round();
    run.record(&answer(Some("insufficient funds"), None, None, None));
    run.record(&answer(Some("insufficient funds"), Some("P0001"), None, None));
    assert_eq!(
        run.error_breakdown(),
        vec![
            ("insufficient funds".to_string(), 1),
            ("insufficient funds (P0001)".to_string(), 1),
        ]
    );
}

#[test]
fn error_breakdown_most_frequent_first() {
    let mut run = StressTest::new(6, 6);
    assert_eq!(run.launch_round(), 6);
    run.record(&answer(Some("a"), None, None, None));
    run.record(&answer(Some("b"), None, None, None));
    run.record(&answer(Some("c"), None, None, None));
    run.record(&answer(Some("b"), None, None, None));
    run.record(&answer(Some("c"), None, None, None));
    run.record(&answer(Some("c"), None, None, None));
    let b = run.error_breakdown();
    assert_eq!(b, vec![("c".to_string(), 3), ("b".to_string(), 2), ("a".to_string(), 1)]);
    let total: usize = b.iter().map(|e| e.1).sum();
    assert_eq!(total, run.summary().errors);
}

#[test]
fn record_refused_when_duration_sum_would_overflow() {
    let mut run = StressTest::new(2, 2);
    run.launch_round();
    run.record(&answer(None, None, Some(u64::MAX - 5), None));
    assert!(!run.can_record(&answer(None, None, Some(6), None)));
    assert!(run.can_record(&answer(None, None, Some(5), None)));
    assert!(run.can_record(&Invocation::Failed("x".to_string())));
}

#[test]
fn stress_run_with_more_calls_than_slots_starts_exactly_total() {
    let mut run = StressTest::new(7, 3);
    let mut started = run.launch_round();
    assert_eq!(started, 3);
    while !run.all_settled() {
        run.record(&answer(None, None, None, None));
        let k = run.launch_round();
        assert!(k <= 1);
        started += k;
    }
    assert_eq!(started, 7);
    assert_eq!(run.summary().launched, 7);
    assert_eq!(run.summary().success, 7);
}
