use helper::accounts::{
    account_from_draw, random_account, random_transfer, random_transfer_pair, transfer_from_draws,
};
use helper::text::{chars_of, contains_text, same_text};

#[test]
fn draw_maps_to_account() {
    assert_eq!(account_from_draw(7, 5), 3);
    assert_eq!(account_from_draw(0, 5), 1);
    assert_eq!(account_from_draw(4, 5), 5);
    assert_eq!(account_from_draw(u32::MAX, 1000), u32::MAX % 1000 + 1);
}

#[test]
fn random_accounts_in_range() {
    for _ in 0..1000 {
        let a = random_account(7);
        assert!((1..=7).contains(&a));
    }
}

#[test]
fn random_pairs_are_distinct() {
    for _ in 0..2000 {
        let (p, q) = random_transfer_pair(2);
        assert!(p == 1 || p == 2);
        assert!(q == 1 || q == 2);
        assert_ne!(p, q);
    }
}

#[test]
fn random_pairs_vary() {
    let mut seen = std::collections::HashSet::new();
    for _ in 0..200 {
        seen.insert(random_transfer_pair(1000));
    }
    assert!(seen.len() > 1);
}

#[test]
fn random_transfer_moves_one_unit() {
    let r = random_transfer(1000);
    assert_eq!(r.amount, 1);
    assert_ne!(r.payer_id, r.payee_id);
    assert!(r.payer_id >= 1 && r.payer_id <= 1000);
    assert!(r.payee_id >= 1 && r.payee_id <= 1000);
}

#[test]
fn text_chars_and_search() {
    assert_eq!(chars_of("héllo"), vec!['h', 'é', 'l', 'l', 'o']);
    assert!(contains_text("Hello summit, connected to DSQL successfully", "connected to DSQL successfully"));
    assert!(!contains_text("connected to DSQL", "connected to DSQL successfully"));
    assert!(contains_text("abc", ""));
    assert!(contains_text("aab", "ab"));
    assert!(!contains_text("", "a"));
    assert!(same_text("40001", "40001"));
    assert!(!same_text("40001", "40002"));
    assert!(!same_text("4000", "40001"));
}

#[test]
fn transfer_from_draws_takes_first_distinct_payee() {
    // payer draw 7 -> account 3 of 5; draws 2, 12 hit account 3; 4 -> account 5.
    assert_eq!(transfer_from_draws(5, 7, &vec![2, 12, 4, 0]), Some((3, 5)));
    assert_eq!(transfer_from_draws(5, 7, &vec![0]), Some((3, 1)));
    assert_eq!(transfer_from_draws(5, 7, &vec![2, 7]), None);
    assert_eq!(transfer_from_draws(5, 7, &vec![]), None);
}
