//! The weekly unlock scheduler and the claim path.

use dao_contract::{
    Address, CallContext, ContractConfig, DAOContract, DepositSchedule, Error, UNLOCK_PERIOD,
};

const ADMIN: Address = 30;
const DEVELOPER: Address = 31;
const OP_A: Address = 32;
const OP_B: Address = 33;
const STRANGER: Address = 34;

fn ctx_for(signer: Address, timestamp: u64) -> CallContext {
    CallContext {
        signers: vec![signer],
        timestamp,
    }
}

fn funded_with(amount: i128) -> DAOContract {
    let mut dao = DAOContract::new();
    dao.config(
        &ctx_for(ADMIN, 0),
        ContractConfig {
            admin: ADMIN,
            token: 9,
            amount,
            deposit_params: DepositSchedule {
                add_node: 500,
                add_price_feed: 1000,
                add_asset: 50,
                general: 100,
            },
            start_date: 0,
        },
    )
    .unwrap();
    dao
}

#[test]
fn unlock_requires_admin() {
    let mut dao = funded_with(1_000_000);
    let week = UNLOCK_PERIOD as u64;
    assert_eq!(
        dao.unlock(&ctx_for(STRANGER, week), DEVELOPER, &vec![OP_A]),
        Err(Error::Unauthorized)
    );
}

#[test]
fn unlock_before_period_elapses_fails() {
    let mut dao = funded_with(1_000_000);
    let week = UNLOCK_PERIOD as u64;
    assert_eq!(
        dao.unlock(&ctx_for(ADMIN, week - 1), DEVELOPER, &vec![OP_A]),
        Err(Error::UnlockUnavailable)
    );
    assert_eq!(dao.last_unlock, 0);
    assert_eq!(dao.dao_balance, 1_000_000);
}

#[test]
fn unlock_rejects_empty_or_duplicate_operators() {
    let mut dao = funded_with(1_000_000);
    let week = UNLOCK_PERIOD as u64;
    assert_eq!(
        dao.unlock(&ctx_for(ADMIN, week), DEVELOPER, &vec![]),
        Err(Error::InvalidOperators)
    );
    assert_eq!(
        dao.unlock(&ctx_for(ADMIN, week), DEVELOPER, &vec![OP_A, OP_B, OP_A]),
        Err(Error::InvalidOperators)
    );
    assert_eq!(dao.last_unlock, 0);
}

#[test]
fn unlock_distributes_exact_shares() {
    // 0.24% of 1 000 000 is 2400 for the operators, 1200 each for two;
    // 0.06% is 600 for the developer; 3000 leaves the treasury.
    let mut dao = funded_with(1_000_000);
    let week = UNLOCK_PERIOD as u64;
    assert_eq!(dao.unlock(&ctx_for(ADMIN, week), DEVELOPER, &vec![OP_A, OP_B]), Ok(()));
    assert_eq!(dao.balances.get(OP_A), 1200);
    assert_eq!(dao.balances.get(OP_B), 1200);
    assert_eq!(dao.balances.get(DEVELOPER), 600);
    assert_eq!(dao.dao_balance, 1_000_000 - 3000);
    assert_eq!(dao.last_unlock, week);
}

#[test]
fn unlock_keeps_rounding_remainder_in_treasury() {
    // 0.24% of 12 345 678 is 29 629 (rounded down); split over two
    // operators each receives 14 814, so only 29 628 of it actually
    // leaves and the remainder stays in the treasury; the developer share
    // is 7 407.
    let mut dao = funded_with(12_345_678);
    let week = UNLOCK_PERIOD as u64;
    dao.unlock(&ctx_for(ADMIN, week), DEVELOPER, &vec![OP_A, OP_B]).unwrap();
    assert_eq!(dao.balances.get(OP_A), 14_814);
    assert_eq!(dao.balances.get(OP_B), 14_814);
    assert_eq!(dao.balances.get(DEVELOPER), 7_407);
    assert_eq!(dao.dao_balance, 12_345_678 - 14_814 - 14_814 - 7_407);
}

#[test]
fn unlock_developer_can_also_be_an_operator() {
    let mut dao = funded_with(1_000_000);
    let week = UNLOCK_PERIOD as u64;
    dao.unlock(&ctx_for(ADMIN, week), DEVELOPER, &vec![OP_A, DEVELOPER]).unwrap();
    // operator share 1200 plus developer share 600
    assert_eq!(dao.balances.get(DEVELOPER), 1800);
    assert_eq!(dao.balances.get(OP_A), 1200);
}

#[test]
fn unlock_advances_schedule_by_one_period_per_call() {
    let mut dao = funded_with(1_000_000);
    let week = UNLOCK_PERIOD as u64;
    dao.unlock(&ctx_for(ADMIN, week), DEVELOPER, &vec![OP_A]).unwrap();
    assert_eq!(dao.last_unlock, week);
    // a second call within the same period fails
    assert_eq!(
        dao.unlock(&ctx_for(ADMIN, 2 * week - 1), DEVELOPER, &vec![OP_A]),
        Err(Error::UnlockUnavailable)
    );
    dao.unlock(&ctx_for(ADMIN, 2 * week), DEVELOPER, &vec![OP_A]).unwrap();
    assert_eq!(dao.last_unlock, 2 * week);
}

#[test]
fn unlock_reports_share_overflow() {
    // computing 0.24% of the treasury multiplies by 24 first; a treasury
    // at the integer maximum makes that step overflow
    let mut dao = funded_with(i128::MAX);
    let week = UNLOCK_PERIOD as u64;
    assert_eq!(
        dao.unlock(&ctx_for(ADMIN, week), DEVELOPER, &vec![OP_A]),
        Err(Error::Overflow)
    );
    assert_eq!(dao.dao_balance, i128::MAX);
    assert_eq!(dao.last_unlock, 0);
    assert_eq!(dao.balances.get(OP_A), 0);
}

#[test]
fn available_requires_the_claimant() {
    let mut dao = funded_with(1_000_000);
    let week = UNLOCK_PERIOD as u64;
    dao.unlock(&ctx_for(ADMIN, week), DEVELOPER, &vec![OP_A]).unwrap();
    assert_eq!(
        dao.available(&ctx_for(STRANGER, week), DEVELOPER),
        Err(Error::Unauthorized)
    );
    assert_eq!(dao.available(&ctx_for(DEVELOPER, week), DEVELOPER), Ok(600));
    // an address that was never credited has nothing to claim
    assert_eq!(dao.available(&ctx_for(STRANGER, week), STRANGER), Ok(0));
}

#[test]
fn claim_requires_the_claimant() {
    let mut dao = funded_with(1_000_000);
    let week = UNLOCK_PERIOD as u64;
    dao.unlock(&ctx_for(ADMIN, week), DEVELOPER, &vec![OP_A]).unwrap();
    assert_eq!(
        dao.claim(&ctx_for(STRANGER, week), DEVELOPER, STRANGER, 100),
        Err(Error::Unauthorized)
    );
}

#[test]
fn claim_rejects_non_positive_and_excessive_amounts() {
    let mut dao = funded_with(1_000_000);
    let week = UNLOCK_PERIOD as u64;
    dao.unlock(&ctx_for(ADMIN, week), DEVELOPER, &vec![OP_A]).unwrap();
    let ctx = ctx_for(DEVELOPER, week);
    assert_eq!(dao.claim(&ctx, DEVELOPER, DEVELOPER, 0), Err(Error::InvalidAmount));
    assert_eq!(dao.claim(&ctx, DEVELOPER, DEVELOPER, -7), Err(Error::InvalidAmount));
    assert_eq!(dao.claim(&ctx, DEVELOPER, DEVELOPER, 601), Err(Error::InvalidAmount));
    assert_eq!(dao.balances.get(DEVELOPER), 600);
}

#[test]
fn claim_partial_then_full_empties_balance() {
    let mut dao = funded_with(1_000_000);
    let week = UNLOCK_PERIOD as u64;
    dao.unlock(&ctx_for(ADMIN, week), DEVELOPER, &vec![OP_A]).unwrap();
    let ctx = ctx_for(DEVELOPER, week);
    assert_eq!(dao.claim(&ctx, DEVELOPER, STRANGER, 100), Ok(()));
    assert_eq!(dao.balances.get(DEVELOPER), 500);
    let rest = dao.available(&ctx, DEVELOPER).unwrap();
    assert_eq!(dao.claim(&ctx, DEVELOPER, STRANGER, rest), Ok(()));
    assert_eq!(dao.balances.get(DEVELOPER), 0);
    // claims move claimable funds only; the treasury is untouched
    assert_eq!(dao.dao_balance, 1_000_000 - 2400 - 600);
}

#[test]
fn claim_before_configuration_has_nothing() {
    let mut dao = DAOContract::new();
    assert_eq!(
        dao.claim(&ctx_for(STRANGER, 0), STRANGER, STRANGER, 1),
        Err(Error::InvalidAmount)
    );
}
