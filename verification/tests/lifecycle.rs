//! Ballot lifecycle: creation bounds, voting, and retraction rules.

use dao_contract::{
    Address, BallotCategory, BallotInitParams, BallotStatus, CallContext, ContractConfig,
    DAOContract, DepositSchedule, Error, BALLOT_DURATION,
};

const ADMIN: Address = 20;
const OWNER: Address = 21;
const STRANGER: Address = 22;

fn ctx_for(signer: Address, timestamp: u64) -> CallContext {
    CallContext {
        signers: vec![signer],
        timestamp,
    }
}

fn configured() -> DAOContract {
    let mut dao = DAOContract::new();
    dao.config(
        &ctx_for(ADMIN, 0),
        ContractConfig {
            admin: ADMIN,
            token: 9,
            amount: 1_000_000,
            deposit_params: DepositSchedule {
                add_node: 500,
                add_price_feed: 1000,
                add_asset: 50,
                general: 100,
            },
            start_date: 0,
        },
    )
    .unwrap();
    dao
}

fn params(title: &str, description: &str) -> BallotInitParams {
    BallotInitParams {
        initiator: OWNER,
        category: BallotCategory::General,
        title: String::from(title),
        description: String::from(description),
    }
}

fn draft(dao: &mut DAOContract, created: u64) -> u64 {
    dao.create_ballot(&ctx_for(OWNER, created), params("A valid title", "A valid description"))
        .unwrap()
}

#[test]
fn create_ballot_requires_initiator_authorization() {
    let mut dao = configured();
    let r = dao.create_ballot(&ctx_for(STRANGER, 0), params("A valid title", "A valid description"));
    assert_eq!(r, Err(Error::Unauthorized));
    assert_eq!(dao.last_ballot_id, 0);
}

#[test]
fn create_ballot_validates_title_and_description_bounds() {
    let mut dao = configured();
    // nine characters: too short
    assert_eq!(
        dao.create_ballot(&ctx_for(OWNER, 0), params("123456789", "A valid description")),
        Err(Error::InvalidBallotParams)
    );
    // forty-one characters: too long
    assert_eq!(
        dao.create_ballot(
            &ctx_for(OWNER, 0),
            params(
                "12345678901234567890123456789012345678901",
                "A valid description"
            )
        ),
        Err(Error::InvalidBallotParams)
    );
    // nine-character description: too short
    assert_eq!(
        dao.create_ballot(&ctx_for(OWNER, 0), params("A valid title", "123456789")),
        Err(Error::InvalidBallotParams)
    );
    // 161-character description: too long
    let long = "x".repeat(161);
    assert_eq!(
        dao.create_ballot(&ctx_for(OWNER, 0), params("A valid title", &long)),
        Err(Error::InvalidBallotParams)
    );
    assert_eq!(dao.last_ballot_id, 0);
    assert_eq!(dao.dao_balance, 1_000_000);

    // the exact boundaries are accepted: 10 and 40 for the title, 10 and
    // 160 for the description
    let edge = "x".repeat(160);
    assert!(dao
        .create_ballot(&ctx_for(OWNER, 0), params("1234567890", "1234567890"))
        .is_ok());
    assert!(dao
        .create_ballot(
            &ctx_for(OWNER, 0),
            params("1234567890123456789012345678901234567890", &edge)
        )
        .is_ok());
}

#[test]
fn create_ballot_records_the_draft() {
    let mut dao = configured();
    let id = dao
        .create_ballot(
            &ctx_for(OWNER, 777),
            BallotInitParams {
                initiator: OWNER,
                category: BallotCategory::AddNode,
                title: String::from("A valid title"),
                description: String::from("A valid description"),
            },
        )
        .unwrap();
    assert_eq!(id, 1);
    assert_eq!(dao.dao_balance, 1_000_500);
    let ballot = dao.get_ballot(id).unwrap();
    assert_eq!(ballot.initiator, OWNER);
    assert_eq!(ballot.category, BallotCategory::AddNode);
    assert_eq!(ballot.title, "A valid title");
    assert_eq!(ballot.description, "A valid description");
    assert_eq!(ballot.status, BallotStatus::Draft);
    assert_eq!(ballot.deposit, 500);
    assert_eq!(ballot.created, 777);
}

#[test]
fn get_ballot_unknown_id_fails() {
    let dao = configured();
    assert!(matches!(dao.get_ballot(0), Err(Error::BallotNotFound)));
    assert!(matches!(dao.get_ballot(1), Err(Error::BallotNotFound)));
}

#[test]
fn vote_requires_admin() {
    let mut dao = configured();
    let id = draft(&mut dao, 0);
    assert_eq!(dao.vote(&ctx_for(OWNER, 0), id, true), Err(Error::Unauthorized));
}

#[test]
fn vote_unknown_ballot_fails() {
    let mut dao = configured();
    assert_eq!(dao.vote(&ctx_for(ADMIN, 0), 1, true), Err(Error::BallotNotFound));
}

#[test]
fn vote_accept_burns_full_deposit() {
    let mut dao = configured();
    let id = draft(&mut dao, 0);
    assert_eq!(dao.dao_balance, 1_000_100);
    let burned = dao.vote(&ctx_for(ADMIN, 0), id, true).unwrap();
    assert_eq!(burned, 100);
    assert_eq!(dao.dao_balance, 1_000_000);
    assert_eq!(dao.get_ballot(id).unwrap().status, BallotStatus::Accepted);
}

#[test]
fn vote_reject_burns_quarter_of_deposit() {
    let mut dao = configured();
    let id = draft(&mut dao, 0);
    let burned = dao.vote(&ctx_for(ADMIN, 0), id, false).unwrap();
    assert_eq!(burned, 25);
    assert_eq!(dao.dao_balance, 1_000_075);
    assert_eq!(dao.get_ballot(id).unwrap().status, BallotStatus::Rejected);
}

#[test]
fn vote_on_closed_ballot_fails_without_mutation() {
    let mut dao = configured();
    let id = draft(&mut dao, 0);
    dao.vote(&ctx_for(ADMIN, 0), id, true).unwrap();
    let balance_before = dao.dao_balance;
    assert_eq!(dao.vote(&ctx_for(ADMIN, 0), id, false), Err(Error::BallotClosed));
    assert_eq!(dao.dao_balance, balance_before);
    assert_eq!(dao.get_ballot(id).unwrap().status, BallotStatus::Accepted);
}

#[test]
fn create_ballot_reports_treasury_overflow() {
    let mut dao = DAOContract::new();
    dao.config(
        &ctx_for(ADMIN, 0),
        ContractConfig {
            admin: ADMIN,
            token: 9,
            amount: i128::MAX,
            deposit_params: DepositSchedule {
                add_node: 500,
                add_price_feed: 1000,
                add_asset: 50,
                general: 100,
            },
            start_date: 0,
        },
    )
    .unwrap();
    assert_eq!(
        dao.create_ballot(&ctx_for(OWNER, 0), params("A valid title", "A valid description")),
        Err(Error::Overflow)
    );
    assert_eq!(dao.dao_balance, i128::MAX);
    assert_eq!(dao.last_ballot_id, 0);
}

#[test]
fn vote_reject_reports_burn_overflow() {
    // rejecting multiplies the deposit by 25 before dividing; a deposit
    // above a twenty-fifth of the integer maximum makes that overflow
    let mut dao = DAOContract::new();
    let huge = i128::MAX / 25 + 1;
    dao.config(
        &ctx_for(ADMIN, 0),
        ContractConfig {
            admin: ADMIN,
            token: 9,
            amount: 1,
            deposit_params: DepositSchedule {
                add_node: 500,
                add_price_feed: 1000,
                add_asset: 50,
                general: huge,
            },
            start_date: 0,
        },
    )
    .unwrap();
    let id = draft(&mut dao, 0);
    assert_eq!(dao.dao_balance, 1 + huge);
    assert_eq!(dao.vote(&ctx_for(ADMIN, 0), id, false), Err(Error::Overflow));
    assert_eq!(dao.dao_balance, 1 + huge);
    assert_eq!(dao.get_ballot(id).unwrap().status, BallotStatus::Draft);
    // accepting burns the deposit itself, which needs no multiplication
    assert_eq!(dao.vote(&ctx_for(ADMIN, 0), id, true), Ok(huge));
    assert_eq!(dao.dao_balance, 1);
}

#[test]
fn retract_unknown_ballot_fails() {
    let mut dao = configured();
    assert_eq!(dao.retract_ballot(&ctx_for(OWNER, 0), 3), Err(Error::BallotNotFound));
}

#[test]
fn retract_requires_recorded_initiator() {
    let mut dao = configured();
    let id = draft(&mut dao, 0);
    assert_eq!(
        dao.retract_ballot(&ctx_for(STRANGER, BALLOT_DURATION as u64), id),
        Err(Error::Unauthorized)
    );
    // even the admin cannot retract someone else's ballot
    assert_eq!(
        dao.retract_ballot(&ctx_for(ADMIN, BALLOT_DURATION as u64), id),
        Err(Error::Unauthorized)
    );
}

#[test]
fn retract_draft_before_window_fails() {
    let mut dao = configured();
    let id = draft(&mut dao, 1000);
    let too_early = 1000 + BALLOT_DURATION as u64 - 1;
    assert_eq!(
        dao.retract_ballot(&ctx_for(OWNER, too_early), id),
        Err(Error::RefundUnavailable)
    );
    assert_eq!(dao.get_ballot(id).unwrap().status, BallotStatus::Draft);
    assert_eq!(dao.dao_balance, 1_000_100);
}

#[test]
fn retract_draft_after_window_refunds_125_percent() {
    let mut dao = configured();
    let id = draft(&mut dao, 1000);
    let on_time = 1000 + BALLOT_DURATION as u64;
    let refunded = dao.retract_ballot(&ctx_for(OWNER, on_time), id).unwrap();
    assert_eq!(refunded, 125);
    assert_eq!(dao.dao_balance, 1_000_100 - 125);
    assert_eq!(dao.get_ballot(id).unwrap().status, BallotStatus::Retracted);
}

#[test]
fn retract_rejected_refunds_75_percent() {
    let mut dao = configured();
    let id = draft(&mut dao, 0);
    dao.vote(&ctx_for(ADMIN, 0), id, false).unwrap();
    let refunded = dao.retract_ballot(&ctx_for(OWNER, 1), id).unwrap();
    assert_eq!(refunded, 75);
    assert_eq!(dao.dao_balance, 1_000_000);
    assert_eq!(dao.get_ballot(id).unwrap().status, BallotStatus::Retracted);
}

#[test]
fn retract_accepted_or_retracted_fails() {
    let mut dao = configured();
    let accepted = draft(&mut dao, 0);
    dao.vote(&ctx_for(ADMIN, 0), accepted, true).unwrap();
    assert_eq!(
        dao.retract_ballot(&ctx_for(OWNER, u64::MAX), accepted),
        Err(Error::RefundUnavailable)
    );

    let retracted = draft(&mut dao, 0);
    dao.vote(&ctx_for(ADMIN, 0), retracted, false).unwrap();
    dao.retract_ballot(&ctx_for(OWNER, 0), retracted).unwrap();
    let balance_before = dao.dao_balance;
    assert_eq!(
        dao.retract_ballot(&ctx_for(OWNER, u64::MAX), retracted),
        Err(Error::RefundUnavailable)
    );
    assert_eq!(dao.dao_balance, balance_before);
}
