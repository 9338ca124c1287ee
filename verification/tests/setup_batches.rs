use helper::setup::{chapter4_plan, schema_batches, CHAPTER4_TARGET_ACCOUNTS};

#[test]
fn schema_batches_split_by_thousand() {
    assert_eq!(schema_batches(2500), vec![(1, 1000), (1001, 2000), (2001, 2500)]);
}

#[test]
fn schema_batches_default_count_is_one_batch() {
    assert_eq!(schema_batches(1000), vec![(1, 1000)]);
}

#[test]
fn schema_batches_of_zero_accounts_is_empty() {
    assert!(schema_batches(0).is_empty());
}

#[test]
fn schema_batches_single_account() {
    assert_eq!(schema_batches(1), vec![(1, 1)]);
}

#[test]
fn schema_batches_count_past_i32_max_seeds_nothing() {
    assert!(schema_batches(3_000_000_000).is_empty());
}

#[test]
fn schema_batches_are_contiguous() {
    let b = schema_batches(123_456);
    assert_eq!(b.len(), 124);
    assert_eq!(b[0].0, 1);
    assert_eq!(b[b.len() - 1].1, 123_456);
    for k in 0..b.len() - 1 {
        assert_eq!(b[k + 1].0, b[k].1 + 1);
        assert!(b[k].1 - b[k].0 + 1 <= 1000);
    }
}

#[test]
fn chapter4_plan_none_when_target_reached() {
    assert!(chapter4_plan(CHAPTER4_TARGET_ACCOUNTS).is_none());
    assert!(chapter4_plan(2_000_000).is_none());
}

#[test]
fn chapter4_plan_tops_up_to_target() {
    let plan = chapter4_plan(998_500).unwrap();
    assert_eq!(plan.needed, 1500);
    assert_eq!(plan.batches, vec![(998_501, 999_500), (999_501, 1_000_000)]);
}

#[test]
fn chapter4_plan_from_empty_table() {
    let plan = chapter4_plan(0).unwrap();
    assert_eq!(plan.needed, 1_000_000);
    assert_eq!(plan.batches.len(), 1000);
    assert_eq!(plan.batches[0], (1, 1000));
    assert_eq!(plan.batches[999], (999_001, 1_000_000));
    let inserted: i64 = plan.batches.iter().map(|(s, e)| e - s + 1).sum();
    assert_eq!(inserted, plan.needed);
}

#[test]
fn chapter4_plan_partial_last_batch() {
    let plan = chapter4_plan(1000).unwrap();
    assert_eq!(plan.needed, 999_000);
    assert_eq!(plan.batches.len(), 999);
    assert_eq!(plan.batches[998], (999_001, 1_000_000));
    let plan = chapter4_plan(999_999).unwrap();
    assert_eq!(plan.batches, vec![(1_000_000, 1_000_000)]);
}
