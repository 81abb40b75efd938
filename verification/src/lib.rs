//! A donation ledger for a NEAR contract: it splits each incoming payment
//! between a one-time storage reservation and the payout to a beneficiary,
//! and keeps the running total of every donor.

pub mod account;
pub mod amount;
pub mod donations;
pub mod history;
pub mod ledger;

use crate::account::AccountId;
use crate::amount::MAX_AMOUNT;
use crate::donations::DonationView;
use crate::ledger::{distinct_accounts, Ledger};
use vstd::prelude::*;

verus! {

/// The account that receives donations until an owner is set.
pub const DEFAULT_OWNER: &'static str = "v2.faucet.nonofficial.testnet";

/// The state of the contract: the beneficiary and the ledger of donors.
pub struct Contract {
    owner: AccountId,
    donations: Ledger,
}

/// The state of the contract as plain values: the owner's name and the
/// donation records in the order in which the donors first appeared.
pub struct ContractView {
    pub owner: Seq<char>,
    pub donations: Seq<DonationView>,
}

/// What holds of every state that a contract can be in: no account has two
/// records, and no total exceeds `MAX_AMOUNT`.
pub open spec fn valid_state(state: ContractView) -> bool {
    &&& distinct_accounts(state.donations)
    &&& forall|i: int|
        0 <= i < state.donations.len() ==> (#[trigger] state.donations[i]).total_amount
            <= MAX_AMOUNT
}

/// The state of a contract that `owner` benefits from and that nobody has
/// donated to.
pub open spec fn opened(owner: Seq<char>) -> ContractView {
    ContractView { owner, donations: Seq::empty() }
}

/// The state after the beneficiary is changed to `new_owner`.
pub open spec fn owner_changed(state: ContractView, new_owner: Seq<char>) -> ContractView {
    ContractView { owner: new_owner, donations: state.donations }
}

impl View for Contract {
    type V = ContractView;

    closed spec fn view(&self) -> ContractView {
        ContractView { owner: self.owner@, donations: self.donations@ }
    }
}

impl Default for Contract {
    /// The state of a contract that was deployed and not yet initialised: no
    /// donors, and `DEFAULT_OWNER` as beneficiary. Donations made in this
    /// state are accepted and forwarded to that account.
    fn default() -> (r: Contract)
        ensures
            r@ == opened(DEFAULT_OWNER@),
    {
        Contract { owner: AccountId::new(DEFAULT_OWNER), donations: Ledger::new() }
    }
}

impl Contract {
    /// The state of a freshly initialised contract: `owner` as beneficiary
    /// and no donors.
    pub fn init(owner: AccountId) -> (r: Contract)
        ensures
            r@ == opened(owner@),
    {
        Contract { owner, donations: Ledger::new() }
    }

    /// The state with `owner` as beneficiary and `donations` as ledger: a
    /// state that was saved, put together again.
    pub fn from_parts(owner: AccountId, donations: Ledger) -> (r: Contract)
        ensures
            r@ == (ContractView { owner: owner@, donations: donations@ }),
            valid_state(r@),
    {
        proof {
            use_type_invariant(&donations);
            donations.lemma_totals_bounded();
        }
        Contract { owner, donations }
    }

    /// The beneficiary.
    pub fn get_owner(&self) -> (r: &AccountId)
        ensures
            r@ == self@.owner,
    {
        &self.owner
    }

    /// Makes `new_owner` the beneficiary. The ledger is left as it is.
    pub fn change_owner(&mut self, new_owner: AccountId)
        ensures
            final(self)@ == owner_changed(old(self)@, new_owner@),
            valid_state(final(self)@),
    {
        proof {
            use_type_invariant(&self.donations);
            self.donations.lemma_totals_bounded();
        }
        self.owner = new_owner
    }
}

} // verus!
