use helper::chapters::{
    chapter_from_number, chapter_transfer, check_greeting, check_history_transfer, check_transfer,
    greeting_name, stress_plan, Chapter, ChapterFailure,
};
use helper::cli::{Args, Command};

#[test]
fn chapters_zero_to_four_exist() {
    assert!(matches!(chapter_from_number(0), Some(Chapter::Connection)));
    assert!(matches!(chapter_from_number(1), Some(Chapter::Transfer)));
    assert!(matches!(chapter_from_number(2), Some(Chapter::Stress)));
    assert!(matches!(chapter_from_number(3), Some(Chapter::History)));
    assert!(matches!(chapter_from_number(4), Some(Chapter::Scale)));
    assert!(chapter_from_number(5).is_none());
    assert!(chapter_from_number(u32::MAX).is_none());
}

#[test]
fn greeting_check() {
    assert_eq!(greeting_name(), "summit");
    assert!(check_greeting("Hello, summit! I connected to DSQL successfully.").is_ok());
    let e = check_greeting("Hello, summit!").unwrap_err();
    assert!(matches!(e, ChapterFailure::TestFailed));
    assert_eq!(e.message(), "Test failed");
}

#[test]
fn transfer_checks() {
    let r = chapter_transfer();
    assert_eq!((r.payer_id, r.payee_id, r.amount), (1, 2, 10));
    assert_eq!(check_transfer(Some(90)).ok(), Some(90));
    assert!(matches!(check_transfer(None), Err(ChapterFailure::TestFailed)));
    assert_eq!(check_history_transfer(Some(-5)).ok(), Some(-5));
    let e = check_history_transfer(None).unwrap_err();
    assert_eq!(e.message(), "Test failed - no balance in response");
}

#[test]
fn stress_plans_per_chapter() {
    let p = stress_plan(&Chapter::Stress).unwrap();
    assert_eq!((p.total_calls, p.parallel_calls, p.num_accounts), (10_000, 1_000, 1_000));
    let p = stress_plan(&Chapter::Scale).unwrap();
    assert_eq!((p.total_calls, p.parallel_calls, p.num_accounts), (1_000_000, 10_000, 1_000_000));
    assert!(stress_plan(&Chapter::Connection).is_none());
    assert!(stress_plan(&Chapter::History).is_none());
}

#[test]
fn client_pool_sizes() {
    let args = Args { command: Command::TestChapter { chapter: 1 } };
    assert_eq!(args.command.client_pool_size(), Some(1));
    assert_eq!(Command::SustainedLoad { invocations_per_sec: 100, accounts: 1000 }.client_pool_size(), Some(16));
    assert_eq!(Command::Setup { accounts: 1000, with_tables: true }.client_pool_size(), None);
    assert_eq!(Command::SetupCh04.client_pool_size(), None);
}
