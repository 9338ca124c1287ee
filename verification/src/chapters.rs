use vstd::prelude::*;
use crate::text::{contains_text, occurs_in};
use crate::transfer::TransferRequest;

verus! {

/// The chapters of the workshop that can be tested.
pub enum Chapter {
    /// 0: the function answers and reaches the database.
    Connection,
    /// 1: a money transfer.
    Transfer,
    /// 2: a stress test of ten thousand invocations.
    Stress,
    /// 3: transfers are recorded in a history table.
    History,
    /// 4: a stress test of a million invocations over a million accounts.
    Scale,
}

/// The chapter with a given number, if there is one.
pub fn chapter_from_number(chapter: u32) -> (c: Option<Chapter>)
    ensures
        c is None <==> chapter > 4,
        chapter == 0 ==> c == Some(Chapter::Connection),
        chapter == 1 ==> c == Some(Chapter::Transfer),
        chapter == 2 ==> c == Some(Chapter::Stress),
        chapter == 3 ==> c == Some(Chapter::History),
        chapter == 4 ==> c == Some(Chapter::Scale),
{
    match chapter {
        0 => Some(Chapter::Connection),
        1 => Some(Chapter::Transfer),
        2 => Some(Chapter::Stress),
        3 => Some(Chapter::History),
        4 => Some(Chapter::Scale),
        _ => None,
    }
}

/// Why a chapter's check failed.
pub enum ChapterFailure {
    /// The answer was not the expected one.
    TestFailed,
    /// The transfer answered without a balance.
    NoBalance,
}

impl ChapterFailure {
    /// The message the failure is reported with.
    pub fn message(&self) -> (m: String)
        ensures
            m@ == match self {
                ChapterFailure::TestFailed => "Test failed"@,
                ChapterFailure::NoBalance => "Test failed - no balance in response"@,
            },
    {
        match self {
            ChapterFailure::TestFailed => String::from_str("Test failed"),
            ChapterFailure::NoBalance => String::from_str("Test failed - no balance in response"),
        }
    }
}

/// The name chapter 0 greets.
pub fn greeting_name() -> (name: String)
    ensures
        name@ == "summit"@,
{
    String::from_str("summit")
}

/// The text a working chapter-0 greeting contains.
pub open spec fn connected_marker() -> Seq<char> {
    "connected to DSQL successfully"@
}

/// Chapter 0 passes when the greeting says the database connection worked.
pub fn check_greeting(greeting: &str) -> (res: Result<(), ChapterFailure>)
    ensures
        res is Ok <==> occurs_in(greeting@, connected_marker()),
        res matches Err(f) ==> f is TestFailed,
{
    if contains_text(greeting, "connected to DSQL successfully") {
        Ok(())
    } else {
        Err(ChapterFailure::TestFailed)
    }
}

/// The transfer chapters 1 and 3 make: ten from account 1 to account 2.
pub fn chapter_transfer() -> (req: TransferRequest)
    ensures
        req.payer_id == 1,
        req.payee_id == 2,
        req.amount == 10,
{
    TransferRequest { payer_id: 1, payee_id: 2, amount: 10 }
}

/// Chapter 1 passes when the transfer answers with the payer's balance.
pub fn check_transfer(balance: Option<i64>) -> (res: Result<i64, ChapterFailure>)
    ensures
        balance matches Some(b) ==> res == Ok::<i64, ChapterFailure>(b),
        balance is None ==> (res matches Err(f) && f is TestFailed),
{
    match balance {
        Some(b) => Ok(b),
        None => Err(ChapterFailure::TestFailed),
    }
}

/// Chapter 3 goes on to the history when the transfer answers with the
/// payer's balance.
pub fn check_history_transfer(balance: Option<i64>) -> (res: Result<i64, ChapterFailure>)
    ensures
        balance matches Some(b) ==> res == Ok::<i64, ChapterFailure>(b),
        balance is None ==> (res matches Err(f) && f is NoBalance),
{
    match balance {
        Some(b) => Ok(b),
        None => Err(ChapterFailure::NoBalance),
    }
}

/// Most transactions chapter 3 lists from the history.
pub const HISTORY_LIMIT: i64 = 5;

/// A closed-loop stress run's size.
pub struct StressPlan {
    /// Invocations to make.
    pub total_calls: usize,
    /// Most invocations in flight at once.
    pub parallel_calls: usize,
    /// Accounts transfers are made between.
    pub num_accounts: u32,
}

/// The stress run a chapter makes: ten thousand calls, a thousand at a time,
/// over a thousand accounts for chapter 2; a million calls, ten thousand at
/// a time, over a million accounts for chapter 4; none for the others.
pub fn stress_plan(chapter: &Chapter) -> (plan: Option<StressPlan>)
    ensures
        plan is Some <==> (*chapter is Stress || *chapter is Scale),
        *chapter is Stress ==> (plan matches Some(p) && p.total_calls == 10_000
            && p.parallel_calls == 1_000 && p.num_accounts == 1_000),
        *chapter is Scale ==> (plan matches Some(p) && p.total_calls == 1_000_000
            && p.parallel_calls == 10_000 && p.num_accounts == 1_000_000),
{
    match chapter {
        Chapter::Stress => Some(
            StressPlan { total_calls: 10_000, parallel_calls: 1_000, num_accounts: 1_000 },
        ),
        Chapter::Scale => Some(
            StressPlan { total_calls: 1_000_000, parallel_calls: 10_000, num_accounts: 1_000_000 },
        ),
        _ => None,
    }
}

} // verus!
