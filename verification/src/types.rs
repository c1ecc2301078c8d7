//! Data model: principals, ballot records, configuration, and error kinds.

use vstd::prelude::*;

verus! {

/// A principal: an account capable of being authorization-checked.
///
/// The hosting ledger's opaque account addresses are represented by plain
/// integers; the library only ever compares them for equality.
pub type Address = u64;

/// Lifecycle status of a ballot.
///
/// `Draft` is the only initial state; `Accepted` and `Retracted` are
/// terminal; `Rejected` still permits retraction.
#[derive(Clone, Copy, Debug, PartialEq, Eq, Structural)]
pub enum BallotStatus {
    /// Recently created, no decision yet.
    Draft,
    /// Accepted by the DAO members.
    Accepted,
    /// Rejected by the DAO members.
    Rejected,
    /// Retracted by the initiator.
    Retracted,
}

/// Category of a ballot; the key into the deposit schedule.
#[derive(Clone, Copy, Debug, PartialEq, Eq, Structural)]
pub enum BallotCategory {
    AddNode,
    AddPriceFeed,
    AddAsset,
    General,
}

impl BallotCategory {
    /// All categories, in their canonical order.
    pub fn iterator() -> (r: Vec<BallotCategory>)
        ensures
            r@ == seq![
                BallotCategory::AddNode,
                BallotCategory::AddPriceFeed,
                BallotCategory::AddAsset,
                BallotCategory::General,
            ],
    {
        let mut v: Vec<BallotCategory> = Vec::new();
        v.push(BallotCategory::AddNode);
        v.push(BallotCategory::AddPriceFeed);
        v.push(BallotCategory::AddAsset);
        v.push(BallotCategory::General);
        proof {
            assert(v@ =~= seq![
                BallotCategory::AddNode,
                BallotCategory::AddPriceFeed,
                BallotCategory::AddAsset,
                BallotCategory::General,
            ]);
        }
        v
    }
}

/// Contract-specific error kinds.
///
/// Every error is fatal to the call that reports it: the operation has had
/// no effect on the state.
#[derive(Clone, Copy, Debug, PartialEq, Eq, Structural)]
pub enum Error {
    /// The contract is not initialized.
    NotInitialized,
    /// The contract has already been initialized earlier.
    AlreadyInitialized,
    /// The caller is not authorized to perform the operation.
    Unauthorized,
    /// The operation amount is invalid.
    InvalidAmount,
    /// Invalid ballot creation parameters.
    InvalidBallotParams,
    /// Overflow occurred during the operation.
    Overflow,
    /// The operators parameter is invalid.
    InvalidOperators,
    /// The last unlock was performed less than one unlock period ago.
    UnlockUnavailable,
    /// The ballot's deposit cannot be refunded (yet).
    RefundUnavailable,
    /// No ballot is registered under this id.
    BallotNotFound,
    /// Voting on this ballot has ended; it cannot be modified.
    BallotClosed,
}

/// Required deposit amount for each ballot category.
///
/// A schedule is valid only when every amount is strictly positive; partial
/// schedules are rejected as a whole.
#[derive(Clone, Copy, Debug, PartialEq, Eq, Structural)]
pub struct DepositSchedule {
    pub add_node: i128,
    pub add_price_feed: i128,
    pub add_asset: i128,
    pub general: i128,
}

impl DepositSchedule {
    /// The amount this schedule requires for `category`.
    pub open spec fn spec_amount_of(self, category: BallotCategory) -> i128 {
        match category {
            BallotCategory::AddNode => self.add_node,
            BallotCategory::AddPriceFeed => self.add_price_feed,
            BallotCategory::AddAsset => self.add_asset,
            BallotCategory::General => self.general,
        }
    }

    /// Every category's amount is strictly positive.
    pub open spec fn all_positive(self) -> bool {
        forall|c: BallotCategory| self.spec_amount_of(c) > 0
    }

    /// Looks up the amount required for `category`.
    pub fn amount_of(&self, category: BallotCategory) -> (r: i128)
        ensures
            r == self.spec_amount_of(category),
    {
        match category {
            BallotCategory::AddNode => self.add_node,
            BallotCategory::AddPriceFeed => self.add_price_feed,
            BallotCategory::AddAsset => self.add_asset,
            BallotCategory::General => self.general,
        }
    }

    /// True when every category's amount is strictly positive.
    pub fn check_all_positive(&self) -> (r: bool)
        ensures
            r == self.all_positive(),
    {
        let r = self.add_node > 0 && self.add_price_feed > 0 && self.add_asset > 0
            && self.general > 0;
        proof {
            if r {
                assert forall|c: BallotCategory| self.spec_amount_of(c) > 0 by {
                    match c {
                        BallotCategory::AddNode => {}
                        BallotCategory::AddPriceFeed => {}
                        BallotCategory::AddAsset => {}
                        BallotCategory::General => {}
                    }
                }
            } else {
                if self.add_node <= 0 {
                    assert(self.spec_amount_of(BallotCategory::AddNode) <= 0);
                } else if self.add_price_feed <= 0 {
                    assert(self.spec_amount_of(BallotCategory::AddPriceFeed) <= 0);
                } else if self.add_asset <= 0 {
                    assert(self.spec_amount_of(BallotCategory::AddAsset) <= 0);
                } else {
                    assert(self.spec_amount_of(BallotCategory::General) <= 0);
                }
            }
        }
        r
    }
}

/// One-time bootstrap payload for the contract.
#[derive(Clone, Copy, Debug, PartialEq, Eq, Structural)]
pub struct ContractConfig {
    /// Admin account.
    pub admin: Address,
    /// DAO token reference.
    pub token: Address,
    /// Initial funding amount; must be strictly positive.
    pub amount: i128,
    /// Initial deposit amounts for each ballot category.
    pub deposit_params: DepositSchedule,
    /// DAO start timestamp; becomes the initial `last_unlock`.
    pub start_date: u64,
}

/// A ballot registered in the DAO contract.
#[derive(Debug)]
pub struct Ballot {
    /// The initiator account.
    pub initiator: Address,
    /// Ballot category.
    pub category: BallotCategory,
    /// Short title; 10 to 40 characters.
    pub title: String,
    /// Description text or URL; 10 to 160 characters.
    pub description: String,
    /// Current lifecycle status.
    pub status: BallotStatus,
    /// Deposited DAO token amount, fixed at creation time.
    pub deposit: i128,
    /// Creation timestamp.
    pub created: u64,
}

/// Mathematical model of a [`Ballot`].
#[verifier::ext_equal]
pub ghost struct BallotView {
    pub initiator: Address,
    pub category: BallotCategory,
    pub title: Seq<char>,
    pub description: Seq<char>,
    pub status: BallotStatus,
    pub deposit: i128,
    pub created: u64,
}

impl View for Ballot {
    type V = BallotView;

    open spec fn view(&self) -> BallotView {
        BallotView {
            initiator: self.initiator,
            category: self.category,
            title: self.title@,
            description: self.description@,
            status: self.status,
            deposit: self.deposit,
            created: self.created,
        }
    }
}

impl Clone for Ballot {
    fn clone(&self) -> (r: Ballot)
        ensures
            r@ == self@,
    {
        Ballot {
            initiator: self.initiator,
            category: self.category,
            title: self.title.clone(),
            description: self.description.clone(),
            status: self.status,
            deposit: self.deposit,
            created: self.created,
        }
    }
}

/// Initialization parameters of a new ballot.
#[derive(Debug)]
pub struct BallotInitParams {
    /// The initiator account.
    pub initiator: Address,
    /// Ballot category.
    pub category: BallotCategory,
    /// Short title; 10 to 40 characters.
    pub title: String,
    /// Description text or URL; 10 to 160 characters.
    pub description: String,
}

} // verus!
