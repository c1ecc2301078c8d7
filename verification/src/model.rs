//! The mathematical model of the contract.
//!
//! [`DaoView`] is the abstract state; the `spec_*` functions define, for
//! every operation, exactly which result it returns and which state it
//! leaves behind. The executable operations in [`crate::contract`] are
//! verified to agree with these functions on every input, and the laws in
//! [`crate::laws`] are theorems about them.

use vstd::prelude::*;

use crate::balances::bal;
use crate::context::CallContext;
use crate::math::{in_i128, trunc_div};
use crate::types::{Address, BallotInitParams, BallotStatus, BallotView, ContractConfig,
    DepositSchedule, Error};
use crate::{BALLOT_DURATION, DEVELOPERS_SHARE, OPERATORS_SHARE, PERCENTAGE_FACTOR, UNLOCK_PERIOD};

verus! {

/// Abstract state of the DAO contract.
///
/// `admin`, `token`, `last_unlock` and `deposits` are meaningful only once
/// `initialized` is set; configuration is the only way to set it.
#[verifier::ext_equal]
pub ghost struct DaoView {
    /// A successful `config` call has happened.
    pub initialized: bool,
    /// The administrator principal.
    pub admin: Address,
    /// The DAO token reference.
    pub token: Address,
    /// Id of the most recently created ballot; ids start at 1.
    pub last_ballot_id: u64,
    /// Timestamp of the start of the most recently unlocked period.
    pub last_unlock: u64,
    /// Aggregate funds still under DAO control.
    pub dao_balance: i128,
    /// Claimable, unlocked funds per principal.
    pub balances: Map<Address, i128>,
    /// Required deposit per ballot category.
    pub deposits: DepositSchedule,
    /// Every ballot ever created; the ballot with id `i` is at index
    /// `i - 1`.
    pub ballots: Seq<BallotView>,
}

impl DaoView {
    /// Structural well-formedness: ballot ids line up with the registry,
    /// deposits recorded in ballots and in the schedule are strictly
    /// positive, and an unconfigured contract is still in its fresh state.
    pub open spec fn wf(self) -> bool {
        &&& self.last_ballot_id == self.ballots.len()
        &&& self.initialized ==> self.deposits.all_positive()
        &&& forall|i: int| 0 <= i < self.ballots.len() ==> self.ballots[i].deposit > 0
        &&& !self.initialized ==> {
            &&& self.ballots.len() == 0
            &&& self.dao_balance == 0
            &&& self.balances.dom() == Set::<Address>::empty()
        }
    }

    /// No balance is negative: the treasury and every claimable balance.
    pub open spec fn nonneg(self) -> bool {
        &&& self.dao_balance >= 0
        &&& forall|a: Address| bal(self.balances, a) >= 0
    }
}

/// `s` holds the same principal at two different positions.
pub open spec fn has_duplicate(s: Seq<Address>) -> bool {
    exists|i: int, j: int| 0 <= i < j < s.len() && s[i] == s[j]
}

/// One-time bootstrap. Requires the configured admin's own authorization;
/// fails on re-initialization, a non-positive funding amount, or a deposit
/// schedule with a non-positive entry. On success the funding amount
/// becomes the treasury balance and the schedule is installed; the caller
/// owes a token transfer of `cfg.amount` from `cfg.admin` to the contract.
pub open spec fn spec_config(pre: DaoView, ctx: CallContext, cfg: ContractConfig) -> (DaoView,
    Result<(), Error>) {
    if !ctx.authorized(cfg.admin) {
        (pre, Err(Error::Unauthorized))
    } else if pre.initialized {
        (pre, Err(Error::AlreadyInitialized))
    } else if cfg.amount <= 0 {
        (pre, Err(Error::InvalidAmount))
    } else if !cfg.deposit_params.all_positive() {
        (pre, Err(Error::InvalidAmount))
    } else {
        (
            DaoView {
                initialized: true,
                admin: cfg.admin,
                token: cfg.token,
                last_unlock: cfg.start_date,
                dao_balance: cfg.amount,
                deposits: cfg.deposit_params,
                ..pre
            },
            Ok(()),
        )
    }
}

/// Replaces the deposit schedule. Admin-gated; a schedule with any
/// non-positive amount is rejected as a whole.
pub open spec fn spec_set_deposit(pre: DaoView, ctx: CallContext, params: DepositSchedule) -> (
    DaoView,
    Result<(), Error>,
) {
    if !(pre.initialized && ctx.authorized(pre.admin)) {
        (pre, Err(Error::Unauthorized))
    } else if !params.all_positive() {
        (pre, Err(Error::InvalidAmount))
    } else {
        (DaoView { deposits: params, ..pre }, Ok(()))
    }
}

/// Creates a Draft ballot. Initiator-gated; title and description lengths
/// are bounded; the category's scheduled deposit is charged to the
/// initiator (the caller owes that token transfer) and credited to the
/// treasury; the new ballot receives the next sequential id.
pub open spec fn spec_create_ballot(
    pre: DaoView,
    ctx: CallContext,
    params: BallotInitParams,
) -> (DaoView, Result<u64, Error>) {
    if !ctx.authorized(params.initiator) {
        (pre, Err(Error::Unauthorized))
    } else if params.title@.len() < 10 || params.title@.len() > 40 || params.description@.len() < 10
        || params.description@.len() > 160 {
        (pre, Err(Error::InvalidBallotParams))
    } else {
        let deposit = pre.deposits.spec_amount_of(params.category);
        if !in_i128(pre.dao_balance + deposit) {
            (pre, Err(Error::Overflow))
        } else {
            let id = (pre.last_ballot_id + 1) as u64;
            let ballot = BallotView {
                initiator: params.initiator,
                category: params.category,
                title: params.title@,
                description: params.description@,
                status: BallotStatus::Draft,
                deposit: deposit,
                created: ctx.timestamp,
            };
            (
                DaoView {
                    last_ballot_id: id,
                    dao_balance: (pre.dao_balance + deposit) as i128,
                    ballots: pre.ballots.push(ballot),
                    ..pre
                },
                Ok(id),
            )
        }
    }
}

/// Pure lookup of a ballot by id.
pub open spec fn spec_get_ballot(pre: DaoView, ballot_id: u64) -> Result<BallotView, Error> {
    if 1 <= ballot_id <= pre.ballots.len() {
        Ok(pre.ballots[ballot_id - 1])
    } else {
        Err(Error::BallotNotFound)
    }
}

/// Resolves a Draft ballot. Admin-gated; on accept the full deposit is
/// burned, on reject a quarter of it (rounded down); the treasury shrinks
/// by the burned amount, which is returned so the caller can perform the
/// burn against the token service.
pub open spec fn spec_vote(pre: DaoView, ctx: CallContext, ballot_id: u64, accepted: bool) -> (
    DaoView,
    Result<i128, Error>,
) {
    if !(pre.initialized && ctx.authorized(pre.admin)) {
        (pre, Err(Error::Unauthorized))
    } else if !(1 <= ballot_id <= pre.ballots.len()) {
        (pre, Err(Error::BallotNotFound))
    } else {
        let ballot = pre.ballots[ballot_id - 1];
        if ballot.status != BallotStatus::Draft {
            (pre, Err(Error::BallotClosed))
        } else if !accepted && !in_i128(ballot.deposit * 25) {
            (pre, Err(Error::Overflow))
        } else {
            let burned = if accepted {
                ballot.deposit
            } else {
                trunc_div(ballot.deposit * 25, 100) as i128
            };
            if !in_i128(pre.dao_balance - burned) {
                (pre, Err(Error::Overflow))
            } else {
                let status = if accepted {
                    BallotStatus::Accepted
                } else {
                    BallotStatus::Rejected
                };
                (
                    DaoView {
                        dao_balance: (pre.dao_balance - burned) as i128,
                        ballots: pre.ballots.update(
                            ballot_id - 1,
                            BallotView { status: status, ..ballot },
                        ),
                        ..pre
                    },
                    Ok(burned),
                )
            }
        }
    }
}

/// Retracts a ballot; gated on the recorded initiator. A Rejected ballot
/// refunds 75% of the deposit; a Draft ballot refunds 125%, but only once
/// the voting window has elapsed; Accepted and Retracted ballots refund
/// nothing. The treasury shrinks by the refund, which is returned so the
/// caller can transfer it back to the initiator.
pub open spec fn spec_retract_ballot(pre: DaoView, ctx: CallContext, ballot_id: u64) -> (
    DaoView,
    Result<i128, Error>,
) {
    if !(1 <= ballot_id <= pre.ballots.len()) {
        (pre, Err(Error::BallotNotFound))
    } else {
        let ballot = pre.ballots[ballot_id - 1];
        if !ctx.authorized(ballot.initiator) {
            (pre, Err(Error::Unauthorized))
        } else if ballot.status == BallotStatus::Accepted || ballot.status
            == BallotStatus::Retracted {
            (pre, Err(Error::RefundUnavailable))
        } else if ballot.status == BallotStatus::Draft && (ctx.timestamp as int) < ballot.created
            + BALLOT_DURATION {
            (pre, Err(Error::RefundUnavailable))
        } else {
            let pct: i128 = if ballot.status == BallotStatus::Rejected {
                75
            } else {
                125
            };
            if !in_i128(ballot.deposit * pct) {
                (pre, Err(Error::Overflow))
            } else {
                let refunded = trunc_div(ballot.deposit * pct, 100) as i128;
                if !in_i128(pre.dao_balance - refunded) {
                    (pre, Err(Error::Overflow))
                } else {
                    (
                        DaoView {
                            dao_balance: (pre.dao_balance - refunded) as i128,
                            ballots: pre.ballots.update(
                                ballot_id - 1,
                                BallotView { status: BallotStatus::Retracted, ..ballot },
                            ),
                            ..pre
                        },
                        Ok(refunded),
                    )
                }
            }
        }
    }
}

/// The claimable amount of `claimant`; gated on the claimant itself.
pub open spec fn spec_available(pre: DaoView, ctx: CallContext, claimant: Address) -> Result<
    i128,
    Error,
> {
    if !ctx.authorized(claimant) {
        Err(Error::Unauthorized)
    } else {
        Ok(bal(pre.balances, claimant))
    }
}

/// Withdraws `amount` from the claimant's claimable balance; gated on the
/// claimant. The amount must be positive and within the claimable balance;
/// the caller owes a token transfer of `amount` from the contract to `to`.
pub open spec fn spec_claim(
    pre: DaoView,
    ctx: CallContext,
    claimant: Address,
    to: Address,
    amount: i128,
) -> (DaoView, Result<(), Error>) {
    if !ctx.authorized(claimant) {
        (pre, Err(Error::Unauthorized))
    } else {
        let available = bal(pre.balances, claimant);
        if amount <= 0 || available < amount {
            (pre, Err(Error::InvalidAmount))
        } else {
            (
                DaoView {
                    balances: pre.balances.insert(claimant, (available - amount) as i128),
                    ..pre
                },
                Ok(()),
            )
        }
    }
}

/// Share of the treasury unlocked for all operators together: 0.24%,
/// rounded toward zero.
pub open spec fn operators_total(dao_balance: i128) -> int {
    trunc_div(dao_balance * OPERATORS_SHARE, PERCENTAGE_FACTOR as int)
}

/// What a single operator receives out of [`operators_total`].
pub open spec fn per_operator(dao_balance: i128, n: int) -> int
    recommends
        n >= 1,
{
    trunc_div(operators_total(dao_balance), n)
}

/// Share of the treasury unlocked for the developer organization: 0.06%,
/// rounded toward zero.
pub open spec fn developer_total(dao_balance: i128) -> int {
    trunc_div(dao_balance * DEVELOPERS_SHARE, PERCENTAGE_FACTOR as int)
}

/// The sum actually disbursed by one unlock: each operator's share counted
/// once, plus the developer share. The remainder of the integer divisions
/// stays in the treasury.
pub open spec fn unlock_disbursed(dao_balance: i128, n: int) -> int {
    n * per_operator(dao_balance, n) + developer_total(dao_balance)
}

/// Some checked arithmetic step of the unlock computation would leave the
/// 128-bit range.
pub open spec fn unlock_overflows(pre: DaoView, developer: Address, operators: Seq<Address>)
    -> bool {
    let n = operators.len() as int;
    let per = per_operator(pre.dao_balance, n);
    let dev = developer_total(pre.dao_balance);
    ||| !in_i128(pre.dao_balance * OPERATORS_SHARE)
    ||| exists|i: int|
        0 <= i < n && !in_i128(bal(pre.balances, operators[i]) + per)
    ||| !in_i128(n * per)
    ||| !in_i128(pre.dao_balance * DEVELOPERS_SHARE)
    ||| !in_i128(
        bal(pre.balances, developer) + (if operators.contains(developer) {
            per
        } else {
            0
        }) + dev,
    )
    ||| !in_i128(n * per + dev)
    ||| !in_i128(pre.dao_balance - unlock_disbursed(pre.dao_balance, n))
}

/// The claimable balances after one unlock: every operator is credited the
/// per-operator share, and the developer additionally receives the
/// developer share.
pub open spec fn unlock_balances(pre: DaoView, developer: Address, operators: Seq<Address>) -> Map<
    Address,
    i128,
> {
    let n = operators.len() as int;
    let per = per_operator(pre.dao_balance, n);
    let dev = developer_total(pre.dao_balance);
    Map::new(
        |a: Address| pre.balances.dom().contains(a) || operators.contains(a) || a == developer,
        |a: Address|
            (bal(pre.balances, a) + (if operators.contains(a) {
                per
            } else {
                0
            }) + (if a == developer {
                dev
            } else {
                0
            })) as i128,
    )
}

/// Weekly distribution. Admin-gated; available only one full unlock period
/// after the previous one; the operator list must be non-empty and free of
/// duplicates. Both shares are percentages of the same pre-call treasury
/// balance; the treasury shrinks by the sum actually disbursed, and
/// `last_unlock` advances by exactly one period.
pub open spec fn spec_unlock(
    pre: DaoView,
    ctx: CallContext,
    developer: Address,
    operators: Seq<Address>,
) -> (DaoView, Result<(), Error>) {
    if !(pre.initialized && ctx.authorized(pre.admin)) {
        (pre, Err(Error::Unauthorized))
    } else if (ctx.timestamp as int) < pre.last_unlock + UNLOCK_PERIOD {
        (pre, Err(Error::UnlockUnavailable))
    } else if operators.len() == 0 || has_duplicate(operators) {
        (pre, Err(Error::InvalidOperators))
    } else if unlock_overflows(pre, developer, operators) {
        (pre, Err(Error::Overflow))
    } else {
        let n = operators.len() as int;
        (
            DaoView {
                last_unlock: (pre.last_unlock + UNLOCK_PERIOD) as u64,
                dao_balance: (pre.dao_balance - unlock_disbursed(pre.dao_balance, n)) as i128,
                balances: unlock_balances(pre, developer, operators),
                ..pre
            },
            Ok(()),
        )
    }
}

} // verus!
