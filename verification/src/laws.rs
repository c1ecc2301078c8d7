//! Laws of the contract: theorems about the transition functions of
//! [`crate::model`], stated over all inputs and proved once and for all.
//!
//! Each executable operation is verified to agree with its transition
//! function, so everything proved here holds of the executable contract as
//! well.

use vstd::prelude::*;

use vstd::arithmetic::div_mod::{lemma_div_by_multiple, lemma_div_is_ordered,
    lemma_fundamental_div_mod, lemma_mod_bound};
use vstd::arithmetic::mul::{lemma_mul_inequality, lemma_mul_is_commutative,
    lemma_mul_is_distributive_add, lemma_mul_nonnegative};

use crate::balances::bal;
use crate::context::CallContext;
use crate::math;
use crate::model::{developer_total, operators_total, per_operator, spec_claim, spec_config,
    spec_create_ballot, spec_retract_ballot, spec_set_deposit, spec_unlock, spec_vote,
    unlock_disbursed, DaoView};
use crate::types::{Address, BallotInitParams, BallotStatus, ContractConfig, DepositSchedule,
    Error};
use crate::{BALLOT_DURATION, UNLOCK_PERIOD};

verus! {

broadcast use vstd::set::group_set_axioms, vstd::map::group_map_axioms;

// ---------------------------------------------------------------------------
// Ballot ids grow strictly, one at a time.
// ---------------------------------------------------------------------------

/// Two successive successful ballot creations return consecutive ids: each
/// id is one more than the previous, and the stored counter always equals
/// the most recently returned id.
pub proof fn lemma_ballot_ids_increase(
    s0: DaoView,
    ctx1: CallContext,
    p1: BallotInitParams,
    s1: DaoView,
    id1: u64,
    ctx2: CallContext,
    p2: BallotInitParams,
    s2: DaoView,
    id2: u64,
)
    requires
        s0.last_ballot_id < u64::MAX,
        s1.last_ballot_id < u64::MAX,
        spec_create_ballot(s0, ctx1, p1) == (s1, Ok::<u64, Error>(id1)),
        spec_create_ballot(s1, ctx2, p2) == (s2, Ok::<u64, Error>(id2)),
    ensures
        id1 == s0.last_ballot_id + 1,
        s1.last_ballot_id == id1,
        id2 == id1 + 1,
        s2.last_ballot_id == id2,
{
}

// ---------------------------------------------------------------------------
// No balance ever becomes negative.
// ---------------------------------------------------------------------------

/// Configuration leaves no negative balance behind: the treasury starts at
/// the strictly positive funding amount and claimable balances are
/// untouched.
pub proof fn lemma_config_preserves_nonneg(
    pre: DaoView,
    ctx: CallContext,
    cfg: ContractConfig,
    post: DaoView,
    r: Result<(), Error>,
)
    requires
        pre.nonneg(),
        spec_config(pre, ctx, cfg) == (post, r),
    ensures
        post.nonneg(),
{
}

/// Replacing the deposit schedule touches no balance.
pub proof fn lemma_set_deposit_preserves_nonneg(
    pre: DaoView,
    ctx: CallContext,
    params: DepositSchedule,
    post: DaoView,
    r: Result<(), Error>,
)
    requires
        pre.nonneg(),
        spec_set_deposit(pre, ctx, params) == (post, r),
    ensures
        post.nonneg(),
{
}

/// Creating a ballot adds its strictly positive deposit to the treasury
/// and touches no claimable balance.
pub proof fn lemma_create_ballot_preserves_nonneg(
    pre: DaoView,
    ctx: CallContext,
    params: BallotInitParams,
    post: DaoView,
    r: Result<u64, Error>,
)
    requires
        pre.wf(),
        pre.nonneg(),
        ctx.authorized(params.initiator) ==> pre.initialized,
        spec_create_ballot(pre, ctx, params) == (post, r),
    ensures
        post.nonneg(),
{
}

/// A claim never drives a balance negative: it withdraws a positive amount
/// bounded by the claimable balance.
pub proof fn lemma_claim_preserves_nonneg(
    pre: DaoView,
    ctx: CallContext,
    claimant: Address,
    to: Address,
    amount: i128,
    post: DaoView,
    r: Result<(), Error>,
)
    requires
        pre.nonneg(),
        spec_claim(pre, ctx, claimant, to, amount) == (post, r),
    ensures
        post.nonneg(),
{
    if r is Ok {
        let available = bal(pre.balances, claimant);
        assert forall|a: Address| bal(post.balances, a) >= 0 by {
            if a != claimant {
                assert(bal(post.balances, a) == bal(pre.balances, a));
            }
        }
    }
}

/// A vote keeps the treasury non-negative as long as it can cover the
/// burned amount. (A vote that burns more than the treasury currently
/// holds is the one way the treasury ledger can go negative; the token
/// service still holds the funds, since deposits always enter the
/// contract's account in full.)
pub proof fn lemma_vote_preserves_nonneg(
    pre: DaoView,
    ctx: CallContext,
    ballot_id: u64,
    accepted: bool,
    post: DaoView,
    burned: i128,
)
    requires
        pre.wf(),
        pre.nonneg(),
        spec_vote(pre, ctx, ballot_id, accepted) == (post, Ok::<i128, Error>(burned)),
        burned <= pre.dao_balance,
    ensures
        burned >= 0,
        post.nonneg(),
{
    let ballot = pre.ballots[ballot_id - 1];
    assert(ballot.deposit > 0);
    if !accepted {
        math::lemma_trunc_div_bounds(ballot.deposit * 25, 100);
        lemma_mul_nonnegative(ballot.deposit as int, 25);
    }
}

/// A retraction keeps the treasury non-negative as long as it can cover
/// the refunded amount.
pub proof fn lemma_retract_preserves_nonneg(
    pre: DaoView,
    ctx: CallContext,
    ballot_id: u64,
    post: DaoView,
    refunded: i128,
)
    requires
        pre.wf(),
        pre.nonneg(),
        spec_retract_ballot(pre, ctx, ballot_id) == (post, Ok::<i128, Error>(refunded)),
        refunded <= pre.dao_balance,
    ensures
        refunded >= 0,
        post.nonneg(),
{
    let ballot = pre.ballots[ballot_id - 1];
    assert(ballot.deposit > 0);
    if ballot.status == BallotStatus::Rejected {
        math::lemma_trunc_div_bounds(ballot.deposit * 75, 100);
        lemma_mul_nonnegative(ballot.deposit as int, 75);
    } else {
        math::lemma_trunc_div_bounds(ballot.deposit * 125, 100);
        lemma_mul_nonnegative(ballot.deposit as int, 125);
    }
}

/// For non-negative summands, the floors of two quotients never exceed the
/// floor of the quotient of the sum.
proof fn lemma_div_sum_le(a: int, b: int, d: int)
    requires
        a >= 0,
        b >= 0,
        d >= 1,
    ensures
        a / d + b / d <= (a + b) / d,
{
    let qa = a / d;
    let qb = b / d;
    lemma_fundamental_div_mod(a, d);
    lemma_fundamental_div_mod(b, d);
    lemma_mod_bound(a, d);
    lemma_mod_bound(b, d);
    assert(d * (qa + qb) == d * qa + d * qb) by {
        lemma_mul_is_distributive_add(d, qa, qb);
    }
    assert(d * (qa + qb) <= a + b);
    vstd::arithmetic::div_mod::lemma_div_pos_is_pos(a, d);
    vstd::arithmetic::div_mod::lemma_div_pos_is_pos(b, d);
    lemma_div_is_ordered(d * (qa + qb), a + b, d);
    assert((d * (qa + qb)) / d == qa + qb) by {
        lemma_mul_is_commutative(d, qa + qb);
        lemma_div_by_multiple(qa + qb, d);
    }
}

/// Distributing a non-negative amount over `n` recipients disburses at
/// most the amount: `n * (x / n) <= x`.
proof fn lemma_mul_div_le_self(x: int, n: int)
    requires
        x >= 0,
        n >= 1,
    ensures
        0 <= n * (x / n) <= x,
{
    lemma_fundamental_div_mod(x, n);
    lemma_mod_bound(x, n);
    vstd::arithmetic::div_mod::lemma_div_pos_is_pos(x, n);
    lemma_mul_nonnegative(n, x / n);
}

/// Out of a non-negative treasury, one unlock disburses a non-negative sum
/// that never exceeds the treasury: the operators' and the developer's
/// shares together stay within 0.30% of it.
pub proof fn lemma_disbursed_bounds(dao_balance: i128, n: int)
    requires
        dao_balance >= 0,
        n >= 1,
    ensures
        0 <= unlock_disbursed(dao_balance, n) <= dao_balance,
{
    let dao = dao_balance as int;
    lemma_mul_nonnegative(dao, 24);
    lemma_mul_nonnegative(dao, 6);
    let ops_total = operators_total(dao_balance);
    let dev = developer_total(dao_balance);
    vstd::arithmetic::div_mod::lemma_div_pos_is_pos(dao * 24, 10000);
    vstd::arithmetic::div_mod::lemma_div_pos_is_pos(dao * 6, 10000);
    lemma_mul_div_le_self(ops_total, n);
    lemma_div_sum_le(dao * 24, dao * 6, 10000);
    assert(dao * 24 + dao * 6 == dao * 30) by {
        lemma_mul_is_distributive_add(dao, 24, 6);
    }
    assert(dao * 30 <= dao * 10000) by {
        lemma_mul_inequality(30, 10000, dao);
        lemma_mul_is_commutative(30, dao);
        lemma_mul_is_commutative(10000, dao);
    }
    lemma_div_is_ordered(dao * 30, dao * 10000, 10000);
    lemma_div_by_multiple(dao, 10000);
}

/// An unlock out of a non-negative treasury leaves every balance
/// non-negative: each credit is non-negative, and the treasury loses no
/// more than it holds.
pub proof fn lemma_unlock_preserves_nonneg(
    pre: DaoView,
    ctx: CallContext,
    developer: Address,
    operators: Seq<Address>,
    post: DaoView,
)
    requires
        pre.nonneg(),
        spec_unlock(pre, ctx, developer, operators) == (post, Ok::<(), Error>(())),
    ensures
        post.nonneg(),
{
    let n = operators.len() as int;
    let per = per_operator(pre.dao_balance, n);
    let dev = developer_total(pre.dao_balance);
    let dao = pre.dao_balance as int;
    lemma_mul_nonnegative(dao, 24);
    lemma_mul_nonnegative(dao, 6);
    vstd::arithmetic::div_mod::lemma_div_pos_is_pos(dao * 24, 10000);
    vstd::arithmetic::div_mod::lemma_div_pos_is_pos(dao * 6, 10000);
    vstd::arithmetic::div_mod::lemma_div_pos_is_pos(operators_total(pre.dao_balance), n);
    lemma_disbursed_bounds(pre.dao_balance, n);
    assert(post.dao_balance >= 0);
    assert forall|a: Address| bal(post.balances, a) >= 0 by {
        assert(bal(pre.balances, a) >= 0);
    }
}

// ---------------------------------------------------------------------------
// Configuration happens at most once.
// ---------------------------------------------------------------------------

/// After a successful configuration, every further authorized `config`
/// call fails with `AlreadyInitialized` and leaves the state identical.
pub proof fn lemma_config_only_once(
    s0: DaoView,
    ctx1: CallContext,
    cfg1: ContractConfig,
    s1: DaoView,
    ctx2: CallContext,
    cfg2: ContractConfig,
)
    requires
        spec_config(s0, ctx1, cfg1) == (s1, Ok::<(), Error>(())),
        ctx2.authorized(cfg2.admin),
    ensures
        spec_config(s1, ctx2, cfg2) == (s1, Err::<(), Error>(Error::AlreadyInitialized)),
{
}

// ---------------------------------------------------------------------------
// Ballot lifecycle.
// ---------------------------------------------------------------------------

/// Voting on a ballot that is no longer a Draft always fails with
/// `BallotClosed` and mutates neither the ballot nor the treasury.
pub proof fn lemma_vote_closed_fails(pre: DaoView, ctx: CallContext, ballot_id: u64, accepted: bool)
    requires
        pre.initialized,
        ctx.authorized(pre.admin),
        1 <= ballot_id <= pre.ballots.len(),
        pre.ballots[ballot_id - 1].status != BallotStatus::Draft,
    ensures
        spec_vote(pre, ctx, ballot_id, accepted) == (pre, Err::<i128, Error>(Error::BallotClosed)),
{
}

/// Retracting a Draft ballot before the voting window has elapsed fails
/// with `RefundUnavailable` and changes nothing.
pub proof fn lemma_retract_draft_early_fails(pre: DaoView, ctx: CallContext, ballot_id: u64)
    requires
        1 <= ballot_id <= pre.ballots.len(),
        pre.ballots[ballot_id - 1].status == BallotStatus::Draft,
        ctx.authorized(pre.ballots[ballot_id - 1].initiator),
        (ctx.timestamp as int) < pre.ballots[ballot_id - 1].created + BALLOT_DURATION,
    ensures
        spec_retract_ballot(pre, ctx, ballot_id) == (
            pre,
            Err::<i128, Error>(Error::RefundUnavailable),
        ),
{
}

/// Once the voting window has elapsed, retracting a Draft ballot succeeds
/// and refunds 125% of the deposit, rounded down.
pub proof fn lemma_retract_draft_refunds(pre: DaoView, ctx: CallContext, ballot_id: u64)
    requires
        pre.wf(),
        1 <= ballot_id <= pre.ballots.len(),
        pre.ballots[ballot_id - 1].status == BallotStatus::Draft,
        ctx.authorized(pre.ballots[ballot_id - 1].initiator),
        (ctx.timestamp as int) >= pre.ballots[ballot_id - 1].created + BALLOT_DURATION,
        math::in_i128(pre.ballots[ballot_id - 1].deposit * 125),
        math::in_i128(
            pre.dao_balance - math::trunc_div(pre.ballots[ballot_id - 1].deposit * 125, 100),
        ),
    ensures
        spec_retract_ballot(pre, ctx, ballot_id).1 == Ok::<i128, Error>(
            math::trunc_div(pre.ballots[ballot_id - 1].deposit * 125, 100) as i128,
        ),
        spec_retract_ballot(pre, ctx, ballot_id).0.dao_balance == pre.dao_balance
            - math::trunc_div(pre.ballots[ballot_id - 1].deposit * 125, 100),
        spec_retract_ballot(pre, ctx, ballot_id).0.ballots[ballot_id - 1].status
            == BallotStatus::Retracted,
{
}

/// Retracting a Rejected ballot succeeds and refunds 75% of the deposit,
/// rounded down.
pub proof fn lemma_retract_rejected_refunds(pre: DaoView, ctx: CallContext, ballot_id: u64)
    requires
        pre.wf(),
        1 <= ballot_id <= pre.ballots.len(),
        pre.ballots[ballot_id - 1].status == BallotStatus::Rejected,
        ctx.authorized(pre.ballots[ballot_id - 1].initiator),
        math::in_i128(pre.ballots[ballot_id - 1].deposit * 75),
        math::in_i128(
            pre.dao_balance - math::trunc_div(pre.ballots[ballot_id - 1].deposit * 75, 100),
        ),
    ensures
        spec_retract_ballot(pre, ctx, ballot_id).1 == Ok::<i128, Error>(
            math::trunc_div(pre.ballots[ballot_id - 1].deposit * 75, 100) as i128,
        ),
        spec_retract_ballot(pre, ctx, ballot_id).0.dao_balance == pre.dao_balance
            - math::trunc_div(pre.ballots[ballot_id - 1].deposit * 75, 100),
        spec_retract_ballot(pre, ctx, ballot_id).0.ballots[ballot_id - 1].status
            == BallotStatus::Retracted,
{
}

/// A vote only ever succeeds on a Draft ballot, and moves it to Accepted
/// or Rejected according to the decision; every other ballot and every
/// other field of the voted ballot stay as they were.
pub proof fn lemma_vote_success_was_draft(
    pre: DaoView,
    ctx: CallContext,
    ballot_id: u64,
    accepted: bool,
    post: DaoView,
    burned: i128,
)
    requires
        spec_vote(pre, ctx, ballot_id, accepted) == (post, Ok::<i128, Error>(burned)),
    ensures
        1 <= ballot_id <= pre.ballots.len(),
        pre.ballots[ballot_id - 1].status == BallotStatus::Draft,
        post.ballots[ballot_id - 1].status == (if accepted {
            BallotStatus::Accepted
        } else {
            BallotStatus::Rejected
        }),
        forall|i: int|
            0 <= i < pre.ballots.len() && i != ballot_id - 1 ==> post.ballots[i]
                == pre.ballots[i],
        post.ballots[ballot_id - 1] == (crate::types::BallotView {
            status: post.ballots[ballot_id - 1].status,
            ..pre.ballots[ballot_id - 1]
        }),
{
}

/// A retraction only ever succeeds on a Draft or Rejected ballot, and
/// moves it to Retracted; a Retracted ballot can therefore never be
/// retracted again.
pub proof fn lemma_retract_success_was_draft_or_rejected(
    pre: DaoView,
    ctx: CallContext,
    ballot_id: u64,
    post: DaoView,
    refunded: i128,
)
    requires
        spec_retract_ballot(pre, ctx, ballot_id) == (post, Ok::<i128, Error>(refunded)),
    ensures
        1 <= ballot_id <= pre.ballots.len(),
        pre.ballots[ballot_id - 1].status == BallotStatus::Draft || pre.ballots[ballot_id
            - 1].status == BallotStatus::Rejected,
        post.ballots[ballot_id - 1].status == BallotStatus::Retracted,
        forall|i: int|
            0 <= i < pre.ballots.len() && i != ballot_id - 1 ==> post.ballots[i]
                == pre.ballots[i],
{
}

/// Retracting an Accepted or already Retracted ballot always fails with
/// `RefundUnavailable` and changes nothing.
pub proof fn lemma_retract_terminal_fails(pre: DaoView, ctx: CallContext, ballot_id: u64)
    requires
        1 <= ballot_id <= pre.ballots.len(),
        ctx.authorized(pre.ballots[ballot_id - 1].initiator),
        pre.ballots[ballot_id - 1].status == BallotStatus::Accepted || pre.ballots[ballot_id
            - 1].status == BallotStatus::Retracted,
    ensures
        spec_retract_ballot(pre, ctx, ballot_id) == (
            pre,
            Err::<i128, Error>(Error::RefundUnavailable),
        ),
{
}

// ---------------------------------------------------------------------------
// The unlock schedule.
// ---------------------------------------------------------------------------

/// Two successful unlocks advance `last_unlock` by exactly one unlock
/// period each, and each could only happen once a full period had elapsed.
pub proof fn lemma_unlock_schedule(
    s0: DaoView,
    ctx1: CallContext,
    dev1: Address,
    ops1: Seq<Address>,
    s1: DaoView,
    ctx2: CallContext,
    dev2: Address,
    ops2: Seq<Address>,
    s2: DaoView,
)
    requires
        spec_unlock(s0, ctx1, dev1, ops1) == (s1, Ok::<(), Error>(())),
        spec_unlock(s1, ctx2, dev2, ops2) == (s2, Ok::<(), Error>(())),
    ensures
        ctx1.timestamp >= s0.last_unlock + UNLOCK_PERIOD,
        s1.last_unlock == s0.last_unlock + UNLOCK_PERIOD,
        ctx2.timestamp >= s1.last_unlock + UNLOCK_PERIOD,
        s2.last_unlock == s1.last_unlock + UNLOCK_PERIOD,
{
}

/// An unlock attempted before one full period has elapsed fails with
/// `UnlockUnavailable` and changes nothing.
pub proof fn lemma_unlock_too_early_fails(
    pre: DaoView,
    ctx: CallContext,
    developer: Address,
    operators: Seq<Address>,
)
    requires
        pre.initialized,
        ctx.authorized(pre.admin),
        (ctx.timestamp as int) < pre.last_unlock + UNLOCK_PERIOD,
    ensures
        spec_unlock(pre, ctx, developer, operators) == (
            pre,
            Err::<(), Error>(Error::UnlockUnavailable),
        ),
{
}

/// An operator list that contains the same address twice always makes
/// `unlock` fail with `InvalidOperators`.
pub proof fn lemma_unlock_duplicate_operators_fails(
    pre: DaoView,
    ctx: CallContext,
    developer: Address,
    operators: Seq<Address>,
    i: int,
    j: int,
)
    requires
        pre.initialized,
        ctx.authorized(pre.admin),
        (ctx.timestamp as int) >= pre.last_unlock + UNLOCK_PERIOD,
        0 <= i < j < operators.len(),
        operators[i] == operators[j],
    ensures
        spec_unlock(pre, ctx, developer, operators) == (
            pre,
            Err::<(), Error>(Error::InvalidOperators),
        ),
{
    assert(crate::model::has_duplicate(operators));
}

// ---------------------------------------------------------------------------
// Claims stay within the claimable balance.
// ---------------------------------------------------------------------------

/// A claim for more than the claimable balance always fails with
/// `InvalidAmount` and changes nothing.
pub proof fn lemma_claim_over_available_fails(
    pre: DaoView,
    ctx: CallContext,
    claimant: Address,
    to: Address,
    amount: i128,
)
    requires
        ctx.authorized(claimant),
        amount > bal(pre.balances, claimant),
    ensures
        spec_claim(pre, ctx, claimant, to, amount) == (pre, Err::<(), Error>(Error::InvalidAmount)),
{
}

/// Claiming the full claimable balance leaves exactly zero behind.
pub proof fn lemma_claim_full_empties(
    pre: DaoView,
    ctx: CallContext,
    claimant: Address,
    to: Address,
    post: DaoView,
)
    requires
        spec_claim(pre, ctx, claimant, to, bal(pre.balances, claimant)) == (
            post,
            Ok::<(), Error>(()),
        ),
    ensures
        bal(post.balances, claimant) == 0,
{
}

} // verus!
