//! Donation records and the donation protocol.

use crate::account::AccountId;
use crate::amount::{append_decimal, decimal, saturating_sum, Amount, STORAGE_COST};
use crate::ledger::{page, recorded, total_of};
use crate::{valid_state, Contract, ContractView};
use vstd::prelude::*;
use vstd::string::*;

verus! {

/// What a reader sees of one donor: the account and the total it has given.
#[derive(Debug, PartialEq, Eq)]
pub struct Donation {
    pub account_id: AccountId,
    pub total_amount: Amount,
}

/// A donation record as plain values: the account's name and the total in
/// yoctoNEAR.
pub struct DonationView {
    pub account_id: Seq<char>,
    pub total_amount: nat,
}

impl View for Donation {
    type V = DonationView;

    open spec fn view(&self) -> DonationView {
        DonationView { account_id: self.account_id@, total_amount: self.total_amount@ }
    }
}

impl Clone for Donation {
    fn clone(&self) -> (r: Donation)
        ensures
            r@ == self@,
    {
        Donation { account_id: self.account_id.clone(), total_amount: self.total_amount }
    }
}

/// The records of `donations` as plain values, in the same order.
pub open spec fn donation_views(donations: Seq<Donation>) -> Seq<DonationView> {
    donations.map_values(|d: Donation| d@)
}

/// Where a listing starts when the reader names no position.
pub const DEFAULT_FROM_INDEX: u64 = 0;

/// How many records a listing holds at most when the reader names no limit.
pub const DEFAULT_LIMIT: u64 = 10;

/// Why a donation was turned down.
#[derive(Clone, Copy, Debug, PartialEq, Eq, Structural)]
pub enum DonationError {
    /// The attached deposit does not exceed `STORAGE_COST`.
    InsufficientDeposit,
}

/// The text shown to a donor whose deposit is too small. It names the amount
/// that a deposit has to exceed, in yoctoNEAR.
pub open spec fn insufficient_deposit_message() -> Seq<char> {
    "Attach at least "@ + decimal(STORAGE_COST as nat)
        + " yoctoNEAR to cover for the storage cost"@
}

impl DonationError {
    /// The text that goes to the caller with this error.
    pub fn message(&self) -> (r: String)
        ensures
            r@ == insufficient_deposit_message(),
    {
        let mut out = String::from_str("Attach at least ");
        append_decimal(&mut out, STORAGE_COST);
        out.append(" yoctoNEAR to cover for the storage cost");
        out
    }
}

/// What an accepted donation leaves to be done outside the ledger, and what
/// the donor is told.
#[derive(Debug)]
pub struct Receipt {
    /// The donor's total after this donation.
    pub total: Amount,
    /// `total` in yoctoNEAR, as plain base-ten digits: the value handed back
    /// to the donor.
    pub total_text: String,
    /// The account that is paid.
    pub beneficiary: AccountId,
    /// The amount to transfer to `beneficiary`.
    pub forwarded: Amount,
    /// The line to log.
    pub log: String,
}

/// Whether a deposit is large enough to be accepted: it has to exceed
/// `STORAGE_COST`.
pub open spec fn accepted(deposit: nat) -> bool {
    deposit > STORAGE_COST
}

/// The part of an accepted deposit that goes to the beneficiary. A donor
/// whose total so far is zero leaves `STORAGE_COST` with the contract; any
/// other donor's deposit is passed on whole.
pub open spec fn forwarded_share(previous_total: nat, deposit: nat) -> nat
    recommends
        accepted(deposit),
{
    if previous_total == 0 {
        (deposit - STORAGE_COST) as nat
    } else {
        deposit
    }
}

/// The state after `donor` calls `donate` with `deposit` attached. A deposit
/// that is not accepted changes nothing. An accepted one is added, with
/// saturation, to the donor's total: the total counts what the donor sent,
/// not what was passed on.
pub open spec fn donated(state: ContractView, donor: Seq<char>, deposit: nat) -> ContractView {
    if accepted(deposit) {
        ContractView {
            owner: state.owner,
            donations: recorded(
                state.donations,
                donor,
                saturating_sum(total_of(state.donations, donor), deposit),
            ),
        }
    } else {
        state
    }
}

/// The line logged for an accepted donation. It names the donor, the deposit
/// and the donor's new total, both in yoctoNEAR.
pub open spec fn thanks_line(donor: Seq<char>, deposit: nat, total: nat) -> Seq<char> {
    "Thank you "@ + donor + " for donating "@ + decimal(deposit)
        + " yoctoNEAR! You donated a total of "@ + decimal(total) + " yoctoNEAR"@
}

/// Writes the line logged for an accepted donation.
fn write_thanks_line(donor: &AccountId, deposit: Amount, total: Amount) -> (r: String)
    ensures
        r@ == thanks_line(donor@, deposit@, total@),
{
    let mut out = String::from_str("Thank you ");
    out.append(donor.as_str());
    out.append(" for donating ");
    append_decimal(&mut out, deposit.as_yoctonear());
    out.append(" yoctoNEAR! You donated a total of ");
    append_decimal(&mut out, total.as_yoctonear());
    out.append(" yoctoNEAR");
    out
}

impl Contract {
    /// Takes a donation of `deposit` from `donor`.
    ///
    /// A deposit that does not exceed `STORAGE_COST` is turned down and
    /// nothing changes. Otherwise the deposit is added to the donor's total,
    /// and the receipt says what is to be paid to the beneficiary: the
    /// deposit less `STORAGE_COST` if the donor's total was zero, the whole
    /// deposit if not.
    pub fn donate(&mut self, donor: AccountId, deposit: Amount) -> (r: Result<
        Receipt,
        DonationError,
    >)
        ensures
            final(self)@ == donated(old(self)@, donor@, deposit@),
            valid_state(final(self)@),
            match r {
                Ok(receipt) => {
                    &&& accepted(deposit@)
                    &&& receipt.total@ == saturating_sum(
                        total_of(old(self)@.donations, donor@),
                        deposit@,
                    )
                    &&& receipt.total_text@ == decimal(receipt.total@)
                    &&& receipt.beneficiary@ == old(self)@.owner
                    &&& receipt.forwarded@ == forwarded_share(
                        total_of(old(self)@.donations, donor@),
                        deposit@,
                    )
                    &&& receipt.log@ == thanks_line(donor@, deposit@, receipt.total@)
                },
                Err(e) => {
                    &&& !accepted(deposit@)
                    &&& e == DonationError::InsufficientDeposit
                    &&& final(self)@ == old(self)@
                },
            },
    {
        proof {
            use_type_invariant(&self.donations);
            self.donations.lemma_totals_bounded();
        }
        if !deposit.exceeds(Amount::from_yoctonear(STORAGE_COST)) {
            return Err(DonationError::InsufficientDeposit);
        }
        let donated_so_far = self.donations.lookup(&donor);
        let forwarded = if donated_so_far.is_zero() {
            deposit.saturating_sub(Amount::from_yoctonear(STORAGE_COST))
        } else {
            deposit
        };
        let total = donated_so_far.saturating_add(deposit);
        let log = write_thanks_line(&donor, deposit, total);
        self.donations.upsert(donor, total);
        proof {
            self.donations.lemma_totals_bounded();
        }
        Ok(
            Receipt {
                total,
                total_text: total.to_decimal_string(),
                beneficiary: self.owner.clone(),
                forwarded,
                log,
            },
        )
    }

    /// The record of `account_id`: its total so far, or zero if it never
    /// donated.
    pub fn get_donation_for_account(&self, account_id: AccountId) -> (r: Donation)
        ensures
            r@.account_id == account_id@,
            r@.total_amount == total_of(self@.donations, account_id@),
    {
        Donation { total_amount: self.donations.lookup(&account_id), account_id }
    }

    /// The number of accounts that have donated.
    pub fn number_of_donors(&self) -> (r: usize)
        ensures
            r == self@.donations.len(),
    {
        self.donations.count()
    }

    /// The records of at most `limit` donors in the order in which they first
    /// donated, starting at position `from_index`. Without a position the
    /// listing starts at `DEFAULT_FROM_INDEX`; without a limit it holds at
    /// most `DEFAULT_LIMIT` records.
    pub fn get_donations(&self, from_index: Option<u64>, limit: Option<u64>) -> (r: Vec<Donation>)
        ensures
            donation_views(r@) == page(
                self@.donations,
                match from_index {
                    Some(n) => n as nat,
                    None => DEFAULT_FROM_INDEX as nat,
                },
                match limit {
                    Some(n) => n as nat,
                    None => DEFAULT_LIMIT as nat,
                },
            ),
    {
        let from_index = match from_index {
            Some(n) => n,
            None => DEFAULT_FROM_INDEX,
        };
        let limit = match limit {
            Some(n) => n,
            None => DEFAULT_LIMIT,
        };
        self.donations.iterate(from_index, limit)
    }
}

} // verus!
