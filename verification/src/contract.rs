//! The executable DAO contract state machine.
//!
//! Every public operation is verified to return exactly what the
//! corresponding `spec_*` function of [`crate::model`] prescribes, and to
//! leave the state exactly as that function prescribes. An operation that
//! returns an error leaves the state untouched.

use vstd::prelude::*;

use crate::balances::{bal, Balances};
use crate::context::CallContext;
use crate::math;
use crate::model::{developer_total, has_duplicate, per_operator, spec_available, spec_claim,
    spec_config, spec_create_ballot, spec_get_ballot, spec_retract_ballot, spec_set_deposit,
    spec_unlock, spec_vote, unlock_balances, unlock_overflows, DaoView};
use crate::types::{Address, Ballot, BallotInitParams, BallotStatus, ContractConfig,
    DepositSchedule, Error};
use crate::{BALLOT_DURATION, DEVELOPERS_SHARE, OPERATORS_SHARE, UNLOCK_PERIOD};
use vstd::arithmetic::mul::{lemma_mul_inequality, lemma_mul_is_commutative, lemma_mul_nonnegative,
    lemma_mul_unary_negation};
use vstd::string::StrSliceExecFns;

verus! {

broadcast use vstd::set::group_set_axioms, vstd::map::group_map_axioms, vstd::seq::group_seq_axioms,
    vstd::seq_lib::group_seq_lib_default;

/// A partial accumulation `(i + 1) * per` that leaves the 128-bit range
/// forces the full accumulation `n * per` out of it as well.
proof fn lemma_partial_sum_overflow(i: int, n: int, per: int)
    requires
        0 <= i < n,
        !math::in_i128((i + 1) * per),
    ensures
        !math::in_i128(n * per),
{
    if per >= 0 {
        lemma_mul_inequality(i + 1, n, per);
        lemma_mul_nonnegative(i + 1, per);
    } else {
        lemma_mul_inequality(i + 1, n, -per);
        assert((i + 1) * (-per) == -((i + 1) * per)) by {
            lemma_mul_is_commutative(i + 1, -per);
            lemma_mul_unary_negation(per, i + 1);
            lemma_mul_is_commutative(i + 1, per);
        }
        assert(n * (-per) == -(n * per)) by {
            lemma_mul_is_commutative(n, -per);
            lemma_mul_unary_negation(per, n);
            lemma_mul_is_commutative(n, per);
        }
    }
}

/// Whether the same address occurs twice in `operators`.
fn operators_have_duplicates(operators: &Vec<Address>) -> (b: bool)
    ensures
        b == has_duplicate(operators@),
{
    let n = operators.len();
    let mut i: usize = 0;
    while i < n
        invariant
            n == operators@.len(),
            i <= n,
            forall|p: int, q: int|
                0 <= p < q < operators@.len() && p < i ==> operators@[p] != operators@[q],
        decreases n - i,
    {
        let mut j: usize = i + 1;
        while j < n
            invariant
                n == operators@.len(),
                i < n,
                i < j <= n,
                forall|q: int| i < q < j ==> operators@[i as int] != operators@[q],
                forall|p: int, q: int|
                    0 <= p < q < operators@.len() && p < i ==> operators@[p] != operators@[q],
            decreases n - j,
        {
            if operators[i] == operators[j] {
                assert(has_duplicate(operators@));
                return true;
            }
            j += 1;
        }
        i += 1;
    }
    false
}

/// The DAO contract: the persisted state of one contract instance.
///
/// The hosting ledger's key-addressed storage is modelled as this explicit
/// aggregate; each public operation mutates it atomically or not at all.
pub struct DAOContract {
    /// A successful `config` call has happened.
    pub initialized: bool,
    /// The administrator principal; meaningful once initialized.
    pub admin: Address,
    /// The DAO token reference; meaningful once initialized.
    pub token: Address,
    /// Id of the most recently created ballot; 0 before any exists.
    pub last_ballot_id: u64,
    /// Timestamp of the start of the most recently unlocked period.
    pub last_unlock: u64,
    /// Aggregate funds still under DAO control.
    pub dao_balance: i128,
    /// Claimable, unlocked funds per principal.
    pub balances: Balances,
    /// Required deposit per ballot category; meaningful once initialized.
    pub deposits: DepositSchedule,
    /// Every ballot ever created; the ballot with id `i` is at index
    /// `i - 1`.
    pub ballots: Vec<Ballot>,
}

impl View for DAOContract {
    type V = DaoView;

    open spec fn view(&self) -> DaoView {
        DaoView {
            initialized: self.initialized,
            admin: self.admin,
            token: self.token,
            last_ballot_id: self.last_ballot_id,
            last_unlock: self.last_unlock,
            dao_balance: self.dao_balance,
            balances: self.balances@,
            deposits: self.deposits,
            ballots: self.ballots@.map_values(|b: Ballot| b@),
        }
    }
}

impl DAOContract {
    /// A freshly deployed, unconfigured contract instance.
    pub fn new() -> (r: DAOContract)
        ensures
            r@.wf(),
            r@.nonneg(),
            !r@.initialized,
            r@.last_ballot_id == 0,
            r@.last_unlock == 0,
            r@.dao_balance == 0,
            r@.balances == Map::<Address, i128>::empty(),
            r@.ballots.len() == 0,
    {
        let r = DAOContract {
            initialized: false,
            admin: 0,
            token: 0,
            last_ballot_id: 0,
            last_unlock: 0,
            dao_balance: 0,
            balances: Balances::new(),
            deposits: DepositSchedule { add_node: 0, add_price_feed: 0, add_asset: 0, general: 0 },
            ballots: Vec::new(),
        };
        proof {
            assert(r@.ballots =~= Seq::<crate::types::BallotView>::empty());
            assert(r@.balances.dom() =~= Set::<Address>::empty());
            assert forall|a: Address| bal(r@.balances, a) >= 0 by {}
        }
        r
    }

    /// Initializes and funds the DAO contract; see [`spec_config`].
    ///
    /// On success the caller owes the token service a transfer of
    /// `config.amount` from `config.admin` to the contract.
    pub fn config(&mut self, ctx: &CallContext, config: ContractConfig) -> (r: Result<(), Error>)
        requires
            old(self)@.wf(),
        ensures
            (final(self)@, r) == spec_config(old(self)@, *ctx, config),
            final(self)@.wf(),
    {
        if !ctx.is_authorized(config.admin) {
            return Err(Error::Unauthorized);
        }
        if self.initialized {
            return Err(Error::AlreadyInitialized);
        }
        if config.amount <= 0 {
            return Err(Error::InvalidAmount);
        }
        if !config.deposit_params.check_all_positive() {
            return Err(Error::InvalidAmount);
        }
        self.initialized = true;
        self.admin = config.admin;
        self.token = config.token;
        self.last_unlock = config.start_date;
        let funded = match math::sum(self.dao_balance, config.amount) {
            Ok(v) => v,
            Err(e) => {
                return Err(e);
            },
        };
        self.dao_balance = funded;
        self.deposits = config.deposit_params;
        proof {
            assert(self@ =~= spec_config(old(self)@, *ctx, config).0);
        }
        Ok(())
    }

    /// Replaces the deposit schedule; see [`spec_set_deposit`].
    pub fn set_deposit(&mut self, ctx: &CallContext, deposit_params: DepositSchedule) -> (r:
        Result<(), Error>)
        requires
            old(self)@.wf(),
        ensures
            (final(self)@, r) == spec_set_deposit(old(self)@, *ctx, deposit_params),
            final(self)@.wf(),
    {
        if !self.initialized {
            return Err(Error::Unauthorized);
        }
        if !ctx.is_authorized(self.admin) {
            return Err(Error::Unauthorized);
        }
        if !deposit_params.check_all_positive() {
            return Err(Error::InvalidAmount);
        }
        self.deposits = deposit_params;
        proof {
            assert(self@ =~= spec_set_deposit(old(self)@, *ctx, deposit_params).0);
        }
        Ok(())
    }

    /// The amount of DAO tokens `claimant` can claim; see
    /// [`spec_available`].
    pub fn available(&self, ctx: &CallContext, claimant: Address) -> (r: Result<i128, Error>)
        ensures
            r == spec_available(self@, *ctx, claimant),
    {
        if !ctx.is_authorized(claimant) {
            return Err(Error::Unauthorized);
        }
        Ok(self.balances.get(claimant))
    }

    /// Withdraws claimable tokens; see [`spec_claim`].
    ///
    /// On success the caller owes the token service a transfer of `amount`
    /// from the contract to `to`.
    pub fn claim(&mut self, ctx: &CallContext, claimant: Address, to: Address, amount: i128) -> (r:
        Result<(), Error>)
        requires
            old(self)@.wf(),
        ensures
            (final(self)@, r) == spec_claim(old(self)@, *ctx, claimant, to, amount),
            final(self)@.wf(),
    {
        if !ctx.is_authorized(claimant) {
            return Err(Error::Unauthorized);
        }
        let balance = self.balances.get(claimant);
        if amount <= 0 || balance < amount {
            return Err(Error::InvalidAmount);
        }
        let remaining = match math::sum(balance, -amount) {
            Ok(v) => v,
            Err(e) => {
                return Err(e);
            },
        };
        self.balances.set(claimant, remaining);
        proof {
            assert(self@ =~= spec_claim(old(self)@, *ctx, claimant, to, amount).0);
            if !old(self)@.initialized {
                assert(bal(old(self)@.balances, claimant) == 0);
                assert(false);
            }
        }
        Ok(())
    }

    /// Creates a new ballot and returns its id; see [`spec_create_ballot`].
    ///
    /// The deposit schedule must be in place before any ballot can be
    /// priced, and the id counter must not be exhausted; the hosting
    /// environment guarantees both for every authorized call.
    ///
    /// On success the caller owes the token service a transfer of the
    /// ballot's deposit from the initiator to the contract, and should
    /// extend the stored ballot's lifetime by the rental window.
    pub fn create_ballot(&mut self, ctx: &CallContext, params: BallotInitParams) -> (r: Result<
        u64,
        Error,
    >)
        requires
            old(self)@.wf(),
            ctx.authorized(params.initiator) ==> old(self)@.initialized && old(
                self,
            )@.last_ballot_id < u64::MAX,
        ensures
            (final(self)@, r) == spec_create_ballot(old(self)@, *ctx, params),
            final(self)@.wf(),
    {
        if !ctx.is_authorized(params.initiator) {
            return Err(Error::Unauthorized);
        }
        let ballot_id = self.last_ballot_id + 1;
        let deposit = self.deposits.amount_of(params.category);
        let title_len = params.title.as_str().unicode_len();
        let description_len = params.description.as_str().unicode_len();
        if title_len < 10 || title_len > 40 || description_len < 10 || description_len > 160 {
            return Err(Error::InvalidBallotParams);
        }
        let funded = match math::sum(self.dao_balance, deposit) {
            Ok(v) => v,
            Err(e) => {
                return Err(e);
            },
        };
        let ballot = Ballot {
            initiator: params.initiator,
            category: params.category,
            title: params.title,
            description: params.description,
            status: BallotStatus::Draft,
            deposit: deposit,
            created: ctx.timestamp,
        };
        self.dao_balance = funded;
        self.ballots.push(ballot);
        self.last_ballot_id = ballot_id;
        proof {
            assert(old(self)@.deposits.spec_amount_of(params.category) > 0);
            assert(self@.ballots =~= spec_create_ballot(old(self)@, *ctx, params).0.ballots);
            assert(self@ =~= spec_create_ballot(old(self)@, *ctx, params).0);
        }
        Ok(ballot_id)
    }

    /// Resolves a Draft ballot by the admin's vote and returns the burned
    /// amount; see [`spec_vote`].
    ///
    /// On success the caller owes the token service a burn of the returned
    /// amount out of the contract's funds.
    pub fn vote(&mut self, ctx: &CallContext, ballot_id: u64, accepted: bool) -> (r: Result<
        i128,
        Error,
    >)
        requires
            old(self)@.wf(),
        ensures
            (final(self)@, r) == spec_vote(old(self)@, *ctx, ballot_id, accepted),
            final(self)@.wf(),
    {
        if !self.initialized {
            return Err(Error::Unauthorized);
        }
        if !ctx.is_authorized(self.admin) {
            return Err(Error::Unauthorized);
        }
        if ballot_id < 1 || ballot_id > self.ballots.len() as u64 {
            return Err(Error::BallotNotFound);
        }
        let index = (ballot_id - 1) as usize;
        if self.ballots[index].status != BallotStatus::Draft {
            return Err(Error::BallotClosed);
        }
        let deposit = self.ballots[index].deposit;
        let burned = if accepted {
            deposit
        } else {
            match math::get_value_percentage(deposit, 25) {
                Ok(v) => v,
                Err(e) => {
                    return Err(e);
                },
            }
        };
        proof {
            assert(old(self)@.ballots[ballot_id - 1].deposit > 0);
            math::lemma_trunc_div_bounds(deposit * 25, 100);
        }
        let remaining = match math::sum(self.dao_balance, -burned) {
            Ok(v) => v,
            Err(e) => {
                return Err(e);
            },
        };
        let mut ballot = self.ballots[index].clone();
        ballot.status = if accepted {
            BallotStatus::Accepted
        } else {
            BallotStatus::Rejected
        };
        self.dao_balance = remaining;
        self.ballots.set(index, ballot);
        proof {
            assert(self@.ballots =~= spec_vote(old(self)@, *ctx, ballot_id, accepted).0.ballots);
            assert(self@ =~= spec_vote(old(self)@, *ctx, ballot_id, accepted).0);
            assert forall|i: int| 0 <= i < self@.ballots.len() implies self@.ballots[i].deposit
                > 0 by {
                assert(old(self)@.ballots[i].deposit > 0);
            }
        }
        Ok(burned)
    }

    /// Weekly distribution of treasury funds to the operators and the
    /// developer organization; see [`spec_unlock`].
    ///
    /// No tokens move: the unlocked amounts become claimable balances,
    /// withdrawn later through `claim`.
    #[verifier::loop_isolation(false)]
    pub fn unlock(&mut self, ctx: &CallContext, developer: Address, operators: &Vec<Address>) -> (
        r: Result<(), Error>)
        requires
            old(self)@.wf(),
        ensures
            (final(self)@, r) == spec_unlock(old(self)@, *ctx, developer, operators@),
            final(self)@.wf(),
    {
        let ghost pre = old(self)@;
        let ghost opsq = operators@;
        if !self.initialized {
            return Err(Error::Unauthorized);
        }
        if !ctx.is_authorized(self.admin) {
            return Err(Error::Unauthorized);
        }
        let now = ctx.timestamp;
        if now < self.last_unlock || now - self.last_unlock < UNLOCK_PERIOD as u64 {
            return Err(Error::UnlockUnavailable);
        }
        if operators.len() == 0 || operators_have_duplicates(operators) {
            return Err(Error::InvalidOperators);
        }
        let n = operators.len();
        let ghost nn = opsq.len() as int;
        let dao = self.dao_balance;
        let operators_unlocked = match math::calc_share(dao, OPERATORS_SHARE) {
            Ok(v) => v,
            Err(e) => {
                return Err(e);
            },
        };
        let per = match math::div(operators_unlocked, n as i128) {
            Ok(v) => v,
            Err(e) => {
                return Err(e);
            },
        };
        let ghost per_g = per_operator(pre.dao_balance, nn);
        let ghost dev_g = developer_total(pre.dao_balance);
        proof {
            assert(per as int == per_g);
        }
        let mut work = self.balances.duplicate();
        let mut total: i128 = 0;
        let mut i: usize = 0;
        while i < n
            invariant
                *self == *old(self),
                pre == old(self)@,
                opsq == operators@,
                n == opsq.len(),
                nn == opsq.len() as int,
                i <= n,
                !has_duplicate(opsq),
                dao == pre.dao_balance,
                per as int == per_g,
                per_g == per_operator(pre.dao_balance, nn),
                total as int == (i as int) * per_g,
                forall|a: Address|
                    work@.dom().contains(a) == (pre.balances.dom().contains(a) || opsq.take(
                        i as int,
                    ).contains(a)),
                forall|a: Address|
                    bal(work@, a) as int == bal(pre.balances, a) + (if opsq.take(
                        i as int,
                    ).contains(a) {
                        per_g
                    } else {
                        0int
                    }),
            decreases n - i,
        {
            let operator = operators[i];
            let ghost work0 = work@;
            proof {
                if opsq.take(i as int).contains(operator) {
                    let k = choose|k: int| 0 <= k < i && opsq.take(i as int)[k] == operator;
                    assert(opsq[k] == opsq[i as int]);
                    assert(has_duplicate(opsq));
                }
                assert(bal(work0, operator) as int == bal(pre.balances, operator));
            }
            let before = work.get(operator);
            let credited = match math::sum(before, per) {
                Ok(v) => v,
                Err(e) => {
                    proof {
                        assert(!math::in_i128(bal(pre.balances, opsq[i as int]) + per_g));
                        assert(unlock_overflows(pre, developer, opsq));
                    }
                    return Err(e);
                },
            };
            work.set(operator, credited);
            total = match math::sum(total, per) {
                Ok(v) => v,
                Err(e) => {
                    proof {
                        assert((i as int) * per_g + per_g == ((i as int) + 1) * per_g) by {
                            vstd::arithmetic::mul::lemma_mul_is_distributive_add_other_way(
                                per_g,
                                i as int,
                                1,
                            );
                            lemma_mul_is_commutative(i as int, per_g);
                            lemma_mul_is_commutative((i as int) + 1, per_g);
                        }
                        lemma_partial_sum_overflow(i as int, nn, per_g);
                        assert(unlock_overflows(pre, developer, opsq));
                    }
                    return Err(e);
                },
            };
            proof {
                assert((i as int) * per_g + per_g == ((i as int) + 1) * per_g) by {
                    vstd::arithmetic::mul::lemma_mul_is_distributive_add_other_way(
                        per_g,
                        i as int,
                        1,
                    );
                    lemma_mul_is_commutative(i as int, per_g);
                    lemma_mul_is_commutative((i as int) + 1, per_g);
                }
                assert(opsq.take(i + 1) =~= opsq.take(i as int).push(opsq[i as int]));
                assert forall|a: Address|
                    work@.dom().contains(a) == (pre.balances.dom().contains(a) || opsq.take(
                        i + 1,
                    ).contains(a)) by {
                    let t0 = opsq.take(i as int);
                    let t1 = opsq.take(i + 1);
                    if a == operator {
                        assert(t1[i as int] == operator);
                        assert(t1.contains(a));
                    } else {
                        if t0.contains(a) {
                            let k = choose|k: int| 0 <= k < t0.len() && t0[k] == a;
                            assert(t1[k] == a);
                            assert(t1.contains(a));
                        }
                        if t1.contains(a) {
                            let k = choose|k: int| 0 <= k < t1.len() && t1[k] == a;
                            assert(k != i);
                            assert(t0[k] == a);
                            assert(t0.contains(a));
                        }
                    }
                }
                assert forall|a: Address|
                    bal(work@, a) as int == bal(pre.balances, a) + (if opsq.take(
                        i + 1,
                    ).contains(a) {
                        per_g
                    } else {
                        0int
                    }) by {
                    let t0 = opsq.take(i as int);
                    let t1 = opsq.take(i + 1);
                    assert(bal(work0, a) as int == bal(pre.balances, a) + (if t0.contains(a) {
                        per_g
                    } else {
                        0int
                    }));
                    if a == operator {
                        assert(t1[i as int] == operator);
                        assert(t1.contains(a));
                        assert(work@[a] == credited);
                    } else {
                        if t0.contains(a) {
                            let k = choose|k: int| 0 <= k < t0.len() && t0[k] == a;
                            assert(t1[k] == a);
                            assert(t1.contains(a));
                        }
                        if t1.contains(a) {
                            let k = choose|k: int| 0 <= k < t1.len() && t1[k] == a;
                            assert(k != i);
                            assert(t0[k] == a);
                            assert(t0.contains(a));
                        }
                        assert(bal(work@, a) == bal(work0, a));
                    }
                }
            }
            i += 1;
        }
        let ghost credited_ops = work@;
        proof {
            assert(opsq.take(nn) =~= opsq);
            assert forall|a: Address|
                credited_ops.dom().contains(a) == (pre.balances.dom().contains(a)
                    || opsq.contains(a)) by {
                assert(work@.dom().contains(a) == (pre.balances.dom().contains(a) || opsq.take(
                    i as int,
                ).contains(a)));
            }
            assert forall|a: Address|
                bal(credited_ops, a) as int == bal(pre.balances, a) + (if opsq.contains(a) {
                    per_g
                } else {
                    0int
                }) by {
                assert(bal(work@, a) as int == bal(pre.balances, a) + (if opsq.take(
                    i as int,
                ).contains(a) {
                    per_g
                } else {
                    0int
                }));
            }
        }
        let developer_unlocked = match math::calc_share(dao, DEVELOPERS_SHARE) {
            Ok(v) => v,
            Err(e) => {
                return Err(e);
            },
        };
        let developer_before = work.get(developer);
        let developer_credited = match math::sum(developer_before, developer_unlocked) {
            Ok(v) => v,
            Err(e) => {
                return Err(e);
            },
        };
        work.set(developer, developer_credited);
        total = match math::sum(total, developer_unlocked) {
            Ok(v) => v,
            Err(e) => {
                return Err(e);
            },
        };
        let remaining = match dao.checked_sub(total) {
            Some(v) => v,
            None => {
                return Err(Error::Overflow);
            },
        };
        self.last_unlock = self.last_unlock + UNLOCK_PERIOD as u64;
        self.dao_balance = remaining;
        self.balances = work;
        proof {
            assert forall|k: int| 0 <= k < nn implies math::in_i128(
                bal(pre.balances, opsq[k]) + per_g,
            ) by {
                assert(opsq.contains(opsq[k]));
                assert(bal(credited_ops, opsq[k]) as int == bal(pre.balances, opsq[k]) + per_g);
            }
            assert(developer_before as int == bal(pre.balances, developer) + (if opsq.contains(
                developer,
            ) {
                per_g
            } else {
                0int
            }));
            assert(!unlock_overflows(pre, developer, opsq));
            let ub = unlock_balances(pre, developer, opsq);
            assert forall|x: Address| self@.balances.dom().contains(x) == ub.dom().contains(
                x,
            ) by {
                assert(credited_ops.dom().contains(x) == (pre.balances.dom().contains(x)
                    || opsq.contains(x)));
            }
            assert forall|x: Address| self@.balances.dom().contains(x) implies self@.balances[x]
                == ub[x] by {
                if x != developer {
                    assert(credited_ops.dom().contains(x) == (pre.balances.dom().contains(x)
                        || opsq.contains(x)));
                    assert(bal(credited_ops, x) as int == bal(pre.balances, x) + (
                    if opsq.contains(x) {
                        per_g
                    } else {
                        0int
                    }));
                }
            }
            assert(self@.balances =~= ub);
            assert(self@ =~= spec_unlock(pre, *ctx, developer, opsq).0);
        }
        Ok(())
    }

    /// Retracts a ballot on behalf of its recorded initiator and returns
    /// the refunded amount; see [`spec_retract_ballot`].
    ///
    /// On success the caller owes the token service a transfer of the
    /// returned amount from the contract to the initiator.
    pub fn retract_ballot(&mut self, ctx: &CallContext, ballot_id: u64) -> (r: Result<i128, Error>)
        requires
            old(self)@.wf(),
        ensures
            (final(self)@, r) == spec_retract_ballot(old(self)@, *ctx, ballot_id),
            final(self)@.wf(),
    {
        if ballot_id < 1 || ballot_id > self.ballots.len() as u64 {
            return Err(Error::BallotNotFound);
        }
        let index = (ballot_id - 1) as usize;
        if !ctx.is_authorized(self.ballots[index].initiator) {
            return Err(Error::Unauthorized);
        }
        let status = self.ballots[index].status;
        let deposit = self.ballots[index].deposit;
        let percentage: i128 = match status {
            BallotStatus::Rejected => 75,
            BallotStatus::Draft => {
                if ctx.timestamp < self.ballots[index].created || ctx.timestamp
                    - self.ballots[index].created < BALLOT_DURATION as u64 {
                    return Err(Error::RefundUnavailable);
                }
                125
            },
            _ => {
                return Err(Error::RefundUnavailable);
            },
        };
        let refunded = match math::get_value_percentage(deposit, percentage) {
            Ok(v) => v,
            Err(e) => {
                return Err(e);
            },
        };
        proof {
            assert(old(self)@.ballots[ballot_id - 1].deposit > 0);
            math::lemma_trunc_div_bounds(deposit * percentage, 100);
        }
        let remaining = match math::sum(self.dao_balance, -refunded) {
            Ok(v) => v,
            Err(e) => {
                return Err(e);
            },
        };
        let mut ballot = self.ballots[index].clone();
        ballot.status = BallotStatus::Retracted;
        self.dao_balance = remaining;
        self.ballots.set(index, ballot);
        proof {
            assert(self@.ballots =~= spec_retract_ballot(old(self)@, *ctx, ballot_id).0.ballots);
            assert(self@ =~= spec_retract_ballot(old(self)@, *ctx, ballot_id).0);
            assert forall|i: int| 0 <= i < self@.ballots.len() implies self@.ballots[i].deposit
                > 0 by {
                assert(old(self)@.ballots[i].deposit > 0);
            }
        }
        Ok(refunded)
    }

    /// Fetches the ballot registered under `ballot_id`; see
    /// [`spec_get_ballot`].
    pub fn get_ballot(&self, ballot_id: u64) -> (r: Result<Ballot, Error>)
        ensures
            r matches Ok(b) ==> spec_get_ballot(self@, ballot_id) == Ok::<_, Error>(b@),
            r matches Err(e) ==> spec_get_ballot(self@, ballot_id) == Err::<
                crate::types::BallotView,
                _,
            >(e),
    {
        if ballot_id >= 1 && ballot_id <= self.ballots.len() as u64 {
            let b = self.ballots[(ballot_id - 1) as usize].clone();
            Ok(b)
        } else {
            Err(Error::BallotNotFound)
        }
    }
}

} // verus!
