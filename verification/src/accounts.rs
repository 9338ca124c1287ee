use vstd::prelude::*;
use crate::transfer::TransferRequest;

verus! {

/// Calls `rand::random::<u32>()`: a value drawn from the thread-local
/// generator. Nothing is promised of the value; every `u32` may come back,
/// and two calls may differ.
#[verifier::external_body]
fn random_u32() -> u32 {
    rand::random::<u32>()
}

/// The account id a random draw selects among accounts `1 ..= num_accounts`.
pub open spec fn account_for_draw(draw: u32, num_accounts: u32) -> int {
    (draw % num_accounts) as int + 1
}

/// Maps a random draw to an account id in `1 ..= num_accounts`.
pub fn account_from_draw(draw: u32, num_accounts: u32) -> (id: u32)
    requires
        num_accounts > 0,
    ensures
        id == account_for_draw(draw, num_accounts),
        1 <= id <= num_accounts,
{
    draw % num_accounts + 1
}

/// Draws a random account id in `1 ..= num_accounts`.
pub fn random_account(num_accounts: u32) -> (id: u32)
    requires
        num_accounts > 0,
    ensures
        1 <= id <= num_accounts,
{
    account_from_draw(random_u32(), num_accounts)
}

/// How many times a payee is drawn again before the account after the payer
/// (the last wrapping to the first) is taken instead; with two or more
/// accounts the bound is never reached in practice.
pub const PAYEE_REDRAW_LIMIT: u64 = 0xffff_ffff_ffff_ffff;

/// The payee a run of payee draws selects: the account of the first draw
/// whose account differs from the payer's, if any.
pub open spec fn payee_for_draws(payer: int, draws: Seq<u32>, num_accounts: u32) -> Option<int>
    decreases draws.len(),
{
    if draws.len() == 0 {
        None
    } else if account_for_draw(draws[0], num_accounts) != payer {
        Some(account_for_draw(draws[0], num_accounts))
    } else {
        payee_for_draws(payer, draws.drop_first(), num_accounts)
    }
}

/// The (payer, payee) pair a payer draw and a run of payee draws select:
/// the payer's account, and the first payee account that differs from it.
pub open spec fn transfer_for_draws(num_accounts: u32, payer_draw: u32, payee_draws: Seq<u32>) -> Option<(int, int)> {
    let payer = account_for_draw(payer_draw, num_accounts);
    match payee_for_draws(payer, payee_draws, num_accounts) {
        Some(payee) => Some((payer, payee)),
        None => None,
    }
}

/// A payee selected by draws is an account other than the payer.
pub proof fn lemma_payee_for_draws(payer: int, draws: Seq<u32>, num_accounts: u32)
    requires
        num_accounts > 0,
    ensures
        payee_for_draws(payer, draws, num_accounts) matches Some(q) ==> 1 <= q <= num_accounts
            && q != payer,
    decreases draws.len(),
{
    if draws.len() > 0 && account_for_draw(draws[0], num_accounts) == payer {
        lemma_payee_for_draws(payer, draws.drop_first(), num_accounts);
    }
}

/// Selects a transfer from draws: the payer from `payer_draw`, the payee
/// from the first of `payee_draws` whose account differs from the payer's;
/// `None` when every payee draw hits the payer.
pub fn transfer_from_draws(num_accounts: u32, payer_draw: u32, payee_draws: &Vec<u32>) -> (r: Option<(u32, u32)>)
    requires
        num_accounts > 0,
    ensures
        match r {
            Some(p) => transfer_for_draws(num_accounts, payer_draw, payee_draws@) == Some(
                (p.0 as int, p.1 as int),
            ),
            None => transfer_for_draws(num_accounts, payer_draw, payee_draws@) is None,
        },
{
    let payer = account_from_draw(payer_draw, num_accounts);
    let mut i: usize = 0;
    proof {
        assert(payee_draws@.skip(0) =~= payee_draws@);
    }
    while i < payee_draws.len()
        invariant
            num_accounts > 0,
            payer == account_for_draw(payer_draw, num_accounts),
            0 <= i <= payee_draws@.len(),
            payee_for_draws(payer as int, payee_draws@, num_accounts) == payee_for_draws(
                payer as int,
                payee_draws@.skip(i as int),
                num_accounts,
            ),
        decreases payee_draws@.len() - i,
    {
        let payee = account_from_draw(payee_draws[i], num_accounts);
        proof {
            assert(payee_draws@.skip(i as int)[0] == payee_draws@[i as int]);
            assert(payee_draws@.skip(i as int).drop_first() =~= payee_draws@.skip(i + 1));
        }
        if payee != payer {
            return Some((payer, payee));
        }
        i = i + 1;
    }
    proof {
        assert(payee_draws@.skip(i as int).len() == 0);
    }
    None
}

/// Draws a payer and then payees until one differs from the payer, and
/// selects the pair from those draws. Should `PAYEE_REDRAW_LIMIT` redraws
/// all hit the payer, the next account is taken.
pub fn random_transfer_pair(num_accounts: u32) -> (pair: (u32, u32))
    requires
        num_accounts >= 2,
    ensures
        1 <= pair.0 <= num_accounts,
        1 <= pair.1 <= num_accounts,
        pair.0 != pair.1,
{
    let payer_draw = random_u32();
    let payer = account_from_draw(payer_draw, num_accounts);
    let mut payee_draws: Vec<u32> = Vec::new();
    let mut redraws: u64 = 0;
    loop
        invariant
            num_accounts >= 2,
            payer == account_for_draw(payer_draw, num_accounts),
            1 <= payer <= num_accounts,
        decreases PAYEE_REDRAW_LIMIT - redraws,
    {
        let draw = random_u32();
        payee_draws.push(draw);
        if account_from_draw(draw, num_accounts) != payer || redraws == PAYEE_REDRAW_LIMIT {
            break;
        }
        redraws = redraws + 1;
    }
    match transfer_from_draws(num_accounts, payer_draw, &payee_draws) {
        Some(pair) => {
            proof {
                lemma_payee_for_draws(payer as int, payee_draws@, num_accounts);
            }
            pair
        },
        None => {
            let payee = payer % num_accounts + 1;
            assert(payee != payer) by {
                if payer < num_accounts {
                    vstd::arithmetic::div_mod::lemma_small_mod(payer as nat, num_accounts as nat);
                } else {
                    vstd::arithmetic::div_mod::lemma_mod_self_0(num_accounts as int);
                }
            }
            (payer, payee)
        },
    }
}

/// The request the stress runs send: one unit moved between two distinct
/// random accounts among `1 ..= num_accounts`.
pub fn random_transfer(num_accounts: u32) -> (req: TransferRequest)
    requires
        num_accounts >= 2,
    ensures
        1 <= req.payer_id <= num_accounts,
        1 <= req.payee_id <= num_accounts,
        req.payer_id != req.payee_id,
        req.amount == 1,
{
    let (payer_id, payee_id) = random_transfer_pair(num_accounts);
    TransferRequest { payer_id, payee_id, amount: 1 }
}

} // verus!
