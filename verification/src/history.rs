//! Histories: what holds of the state after any sequence of calls.
//!
//! The calls that change the state are `donate` and `change_owner`; the
//! reading calls take the state by shared reference and leave it as it is.

use crate::amount::{saturating_sum, MAX_AMOUNT, STORAGE_COST};
use crate::donations::{accepted, donated, forwarded_share};
use crate::ledger::{
    donor_index, has_donor, lemma_recorded_distinct, lemma_recorded_totals, recorded, total_of,
};
use crate::{opened, owner_changed, valid_state, ContractView};
use vstd::prelude::*;

verus! {

/// A call that changes the state, with what the host hands it.
pub enum Call {
    /// `donate`, called by `donor` with `deposit` attached.
    Donate { donor: Seq<char>, deposit: nat },
    /// `change_owner`, called with `new_owner`.
    ChangeOwner { new_owner: Seq<char> },
}

/// The state after `call` is made in `state`.
pub open spec fn after_call(state: ContractView, call: Call) -> ContractView {
    match call {
        Call::Donate { donor, deposit } => donated(state, donor, deposit),
        Call::ChangeOwner { new_owner } => owner_changed(state, new_owner),
    }
}

/// The state after `calls` are made in `state`, one after the other.
pub open spec fn after_calls(state: ContractView, calls: Seq<Call>) -> ContractView
    decreases calls.len(),
{
    if calls.len() == 0 {
        state
    } else {
        after_call(after_calls(state, calls.drop_last()), calls.last())
    }
}

/// Whether `call` is a donation by `donor` that is accepted.
pub open spec fn donates(call: Call, donor: Seq<char>) -> bool {
    call matches Call::Donate { donor: d, deposit } && d == donor && accepted(deposit)
}

/// What `call` adds to the deposits of `donor`: the deposit of an accepted
/// donation by `donor`, and nothing for any other call.
pub open spec fn deposit_by(call: Call, donor: Seq<char>) -> nat {
    match call {
        Call::Donate { donor: d, deposit } => if d == donor && accepted(deposit) {
            deposit
        } else {
            0
        },
        Call::ChangeOwner { .. } => 0,
    }
}

/// The sum of the deposits of all accepted donations by `donor` among
/// `calls`.
pub open spec fn deposited(calls: Seq<Call>, donor: Seq<char>) -> nat
    decreases calls.len(),
{
    if calls.len() == 0 {
        0
    } else {
        deposited(calls.drop_last(), donor) + deposit_by(calls.last(), donor)
    }
}

/// Whether `donor` makes an accepted donation among `calls`.
pub open spec fn has_donated(calls: Seq<Call>, donor: Seq<char>) -> bool {
    exists|k: int| 0 <= k < calls.len() && donates(#[trigger] calls[k], donor)
}

/// Whether the call at position `k` of `calls` is the first accepted
/// donation by `donor`.
pub open spec fn first_donation_at(calls: Seq<Call>, k: int, donor: Seq<char>) -> bool {
    &&& 0 <= k < calls.len()
    &&& donates(calls[k], donor)
    &&& forall|m: int| 0 <= m < k ==> !donates(#[trigger] calls[m], donor)
}

/// A sum of amounts, held at `MAX_AMOUNT` where it would pass it.
pub open spec fn saturated(sum: nat) -> nat {
    if sum > MAX_AMOUNT {
        MAX_AMOUNT as nat
    } else {
        sum
    }
}

/// A call leaves a valid state valid.
pub proof fn lemma_call_keeps_valid(state: ContractView, call: Call)
    requires
        valid_state(state),
    ensures
        valid_state(after_call(state, call)),
{
    match call {
        Call::Donate { donor, deposit } => {
            if accepted(deposit) {
                let total = saturating_sum(total_of(state.donations, donor), deposit);
                let after = recorded(state.donations, donor, total);
                lemma_recorded_distinct(state.donations, donor, total);
                assert forall|i: int| 0 <= i < after.len() implies (#[trigger] after[i]).total_amount
                    <= MAX_AMOUNT by {
                    if has_donor(state.donations, donor) {
                        if i != donor_index(state.donations, donor) {
                            assert(after[i] == state.donations[i]);
                        }
                    } else {
                        if i < state.donations.len() {
                            assert(after[i] == state.donations[i]);
                        }
                    }
                }
            }
        },
        Call::ChangeOwner { new_owner } => {},
    }
}

/// Any sequence of calls leaves a valid state valid.
pub proof fn lemma_calls_keep_valid(state: ContractView, calls: Seq<Call>)
    requires
        valid_state(state),
    ensures
        valid_state(after_calls(state, calls)),
    decreases calls.len(),
{
    if calls.len() > 0 {
        lemma_calls_keep_valid(state, calls.drop_last());
        lemma_call_keeps_valid(after_calls(state, calls.drop_last()), calls.last());
    }
}

/// In a valid state no total that can be looked up exceeds `MAX_AMOUNT`.
pub proof fn lemma_total_bounded(state: ContractView, donor: Seq<char>)
    requires
        valid_state(state),
    ensures
        total_of(state.donations, donor) <= MAX_AMOUNT,
{
    if has_donor(state.donations, donor) {
        let k = donor_index(state.donations, donor);
        assert(state.donations[k].total_amount <= MAX_AMOUNT);
    }
}

/// What one call does to a donor's total and to who has a record: an accepted
/// donation by the donor adds its deposit, with saturation, and gives the
/// donor a record; any other call leaves both as they are.
pub proof fn lemma_total_after_call(state: ContractView, call: Call, donor: Seq<char>)
    requires
        valid_state(state),
    ensures
        total_of(after_call(state, call).donations, donor) == saturating_sum(
            total_of(state.donations, donor),
            deposit_by(call, donor),
        ),
        has_donor(after_call(state, call).donations, donor) <==> has_donor(state.donations, donor)
            || donates(call, donor),
{
    lemma_total_bounded(state, donor);
    match call {
        Call::Donate { donor: d, deposit } => {
            if accepted(deposit) {
                let total = saturating_sum(total_of(state.donations, d), deposit);
                lemma_recorded_totals(state.donations, d, total, donor);
            }
        },
        Call::ChangeOwner { new_owner } => {},
    }
}

/// A donor's total never falls: after any sequence of calls it is at least
/// what it was before them.
pub proof fn lemma_totals_never_fall(state: ContractView, calls: Seq<Call>, donor: Seq<char>)
    requires
        valid_state(state),
    ensures
        total_of(after_calls(state, calls).donations, donor) >= total_of(state.donations, donor),
    decreases calls.len(),
{
    if calls.len() > 0 {
        let before = after_calls(state, calls.drop_last());
        lemma_totals_never_fall(state, calls.drop_last(), donor);
        lemma_calls_keep_valid(state, calls.drop_last());
        lemma_total_bounded(before, donor);
        lemma_total_after_call(before, calls.last(), donor);
    }
}

/// After any sequence of calls a donor's total is what it was before them
/// plus the deposits of the donor's accepted donations among them, held at
/// `MAX_AMOUNT`.
pub proof fn lemma_total_grows_by_deposits(state: ContractView, calls: Seq<Call>, donor: Seq<char>)
    requires
        valid_state(state),
    ensures
        total_of(after_calls(state, calls).donations, donor) == saturated(
            total_of(state.donations, donor) + deposited(calls, donor),
        ),
    decreases calls.len(),
{
    lemma_total_bounded(state, donor);
    if calls.len() > 0 {
        let before = after_calls(state, calls.drop_last());
        lemma_total_grows_by_deposits(state, calls.drop_last(), donor);
        lemma_calls_keep_valid(state, calls.drop_last());
        lemma_total_after_call(before, calls.last(), donor);
    }
}

/// The total recorded for a donor is the saturating sum of the deposits of
/// all accepted donations that the donor has made since the contract was
/// opened.
pub proof fn lemma_total_is_sum_of_deposits(owner: Seq<char>, calls: Seq<Call>, donor: Seq<char>)
    ensures
        total_of(after_calls(opened(owner), calls).donations, donor) == saturated(
            deposited(calls, donor),
        ),
{
    assert(!has_donor(opened(owner).donations, donor));
    lemma_total_grows_by_deposits(opened(owner), calls, donor);
}

/// A donor's deposits add up to more than nothing exactly if the donor has
/// made an accepted donation.
pub proof fn lemma_deposited_by_donors(calls: Seq<Call>, donor: Seq<char>)
    ensures
        deposited(calls, donor) > 0 <==> has_donated(calls, donor),
    decreases calls.len(),
{
    if calls.len() > 0 {
        let earlier = calls.drop_last();
        lemma_deposited_by_donors(earlier, donor);
        if has_donated(earlier, donor) {
            let k = choose|k: int| 0 <= k < earlier.len() && donates(#[trigger] earlier[k], donor);
            assert(donates(calls[k], donor));
        }
        if donates(calls.last(), donor) {
            assert(donates(calls[calls.len() - 1], donor));
        }
        if has_donated(calls, donor) && !donates(calls.last(), donor) {
            let k = choose|k: int| 0 <= k < calls.len() && donates(#[trigger] calls[k], donor);
            assert(donates(earlier[k], donor));
        }
    }
}

/// The first accepted donation of a donor leaves `STORAGE_COST` with the
/// contract and passes on the rest of the deposit; every later one is passed
/// on whole.
pub proof fn lemma_first_donation_split(
    owner: Seq<char>,
    calls: Seq<Call>,
    donor: Seq<char>,
    deposit: nat,
)
    requires
        accepted(deposit),
    ensures
        forwarded_share(total_of(after_calls(opened(owner), calls).donations, donor), deposit)
            == if has_donated(calls, donor) {
            deposit
        } else {
            (deposit - STORAGE_COST) as nat
        },
{
    lemma_total_is_sum_of_deposits(owner, calls, donor);
    lemma_deposited_by_donors(calls, donor);
}

/// The accounts with a record are those that have made an accepted donation
/// since the contract was opened.
pub proof fn lemma_recorded_are_donors(owner: Seq<char>, calls: Seq<Call>, donor: Seq<char>)
    ensures
        has_donor(after_calls(opened(owner), calls).donations, donor) <==> has_donated(
            calls,
            donor,
        ),
    decreases calls.len(),
{
    if calls.len() > 0 {
        let earlier = calls.drop_last();
        let before = after_calls(opened(owner), earlier);
        lemma_recorded_are_donors(owner, earlier, donor);
        lemma_calls_keep_valid(opened(owner), earlier);
        lemma_total_after_call(before, calls.last(), donor);
        if has_donated(earlier, donor) {
            let k = choose|k: int| 0 <= k < earlier.len() && donates(#[trigger] earlier[k], donor);
            assert(donates(calls[k], donor));
        }
        if donates(calls.last(), donor) {
            assert(donates(calls[calls.len() - 1], donor));
        }
        if has_donated(calls, donor) && !donates(calls.last(), donor) {
            let k = choose|k: int| 0 <= k < calls.len() && donates(#[trigger] calls[k], donor);
            assert(donates(earlier[k], donor));
        }
    }
}

/// A first donation among all but the last call is a first donation among
/// all calls.
proof fn lemma_first_donation_stays(calls: Seq<Call>, k: int, donor: Seq<char>)
    requires
        calls.len() > 0,
        first_donation_at(calls.drop_last(), k, donor),
    ensures
        first_donation_at(calls, k, donor),
{
    let earlier = calls.drop_last();
    assert(calls[k] == earlier[k]);
    assert forall|m: int| 0 <= m < k implies !donates(#[trigger] calls[m], donor) by {
        assert(calls[m] == earlier[m]);
    }
}

/// A donor who has made an accepted donation has made a first one.
pub proof fn lemma_first_donation_exists(calls: Seq<Call>, donor: Seq<char>)
    requires
        has_donated(calls, donor),
    ensures
        exists|k: int| first_donation_at(calls, k, donor),
    decreases calls.len(),
{
    let earlier = calls.drop_last();
    if has_donated(earlier, donor) {
        lemma_first_donation_exists(earlier, donor);
        let k = choose|k: int| first_donation_at(earlier, k, donor);
        lemma_first_donation_stays(calls, k, donor);
    } else {
        let last = calls.len() - 1;
        let k = choose|k: int| 0 <= k < calls.len() && donates(#[trigger] calls[k], donor);
        if k < last {
            assert(donates(earlier[k], donor));
        }
        assert forall|m: int| 0 <= m < last implies !donates(#[trigger] calls[m], donor) by {
            assert(calls[m] == earlier[m]);
        }
        assert(first_donation_at(calls, last, donor));
    }
}

/// A call never moves a record: every account that had a record has it at
/// the same position afterwards.
pub proof fn lemma_call_keeps_places(state: ContractView, call: Call, i: int)
    requires
        0 <= i < state.donations.len(),
    ensures
        i < after_call(state, call).donations.len(),
        after_call(state, call).donations[i].account_id == state.donations[i].account_id,
{
}

/// Calls never move a record: after any sequence of calls every account
/// that had a record has it at the same position.
pub proof fn lemma_donors_keep_their_place(state: ContractView, calls: Seq<Call>, i: int)
    requires
        0 <= i < state.donations.len(),
    ensures
        i < after_calls(state, calls).donations.len(),
        after_calls(state, calls).donations[i].account_id == state.donations[i].account_id,
    decreases calls.len(),
{
    if calls.len() > 0 {
        lemma_donors_keep_their_place(state, calls.drop_last(), i);
        lemma_call_keeps_places(after_calls(state, calls.drop_last()), calls.last(), i);
    }
}

/// Donors are listed in the order of their first accepted donations: of two
/// records, the one listed first belongs to the account that donated first.
pub proof fn lemma_listed_in_order_of_first_donation(
    owner: Seq<char>,
    calls: Seq<Call>,
    i: int,
    j: int,
)
    requires
        0 <= i < j < after_calls(opened(owner), calls).donations.len(),
    ensures
        exists|a: int, b: int|
            a < b && #[trigger] first_donation_at(
                calls,
                a,
                after_calls(opened(owner), calls).donations[i].account_id,
            ) && #[trigger] first_donation_at(
                calls,
                b,
                after_calls(opened(owner), calls).donations[j].account_id,
            ),
    decreases calls.len(),
{
    let listed = after_calls(opened(owner), calls).donations;
    let earlier = calls.drop_last();
    let before = after_calls(opened(owner), earlier).donations;
    assert(listed == after_call(after_calls(opened(owner), earlier), calls.last()).donations);
    lemma_call_keeps_places(after_calls(opened(owner), earlier), calls.last(), i);
    if j < before.len() {
        lemma_call_keeps_places(after_calls(opened(owner), earlier), calls.last(), j);
        lemma_listed_in_order_of_first_donation(owner, earlier, i, j);
        let (a, b) = choose|a: int, b: int|
            a < b && #[trigger] first_donation_at(earlier, a, before[i].account_id)
                && #[trigger] first_donation_at(earlier, b, before[j].account_id);
        lemma_first_donation_stays(calls, a, listed[i].account_id);
        lemma_first_donation_stays(calls, b, listed[j].account_id);
    } else {
        let newcomer = listed[j].account_id;
        let last = calls.len() - 1;
        assert(donates(calls[last], newcomer) && !has_donor(before, newcomer));
        lemma_recorded_are_donors(owner, earlier, newcomer);
        assert forall|m: int| 0 <= m < last implies !donates(#[trigger] calls[m], newcomer) by {
            assert(calls[m] == earlier[m]);
        }
        assert(first_donation_at(calls, last, newcomer));
        assert(has_donor(before, before[i].account_id));
        lemma_recorded_are_donors(owner, earlier, before[i].account_id);
        lemma_first_donation_exists(earlier, before[i].account_id);
        let a = choose|a: int| first_donation_at(earlier, a, before[i].account_id);
        lemma_first_donation_stays(calls, a, listed[i].account_id);
    }
}

/// Only `change_owner` changes the beneficiary: after any number of
/// donations, accepted or not, the owner is who it was.
pub proof fn lemma_donations_keep_owner(state: ContractView, calls: Seq<Call>)
    requires
        forall|k: int| 0 <= k < calls.len() ==> #[trigger] calls[k] is Donate,
    ensures
        after_calls(state, calls).owner == state.owner,
    decreases calls.len(),
{
    if calls.len() > 0 {
        let earlier = calls.drop_last();
        assert forall|k: int| 0 <= k < earlier.len() implies #[trigger] earlier[k] is Donate by {
            assert(earlier[k] == calls[k]);
        }
        lemma_donations_keep_owner(state, earlier);
        assert(calls[calls.len() - 1] is Donate);
    }
}

/// What `call` brings in: the deposit of an accepted donation, and nothing
/// for any other call.
pub open spec fn taken_in(call: Call) -> nat {
    match call {
        Call::Donate { donor, deposit } => if accepted(deposit) {
            deposit
        } else {
            0
        },
        Call::ChangeOwner { .. } => 0,
    }
}

/// What `call`, made in `state`, pays to the beneficiary: the forwarded
/// share of an accepted donation, and nothing for any other call.
pub open spec fn paid_out(state: ContractView, call: Call) -> nat {
    match call {
        Call::Donate { donor, deposit } => if accepted(deposit) {
            forwarded_share(total_of(state.donations, donor), deposit)
        } else {
            0
        },
        Call::ChangeOwner { .. } => 0,
    }
}

/// What the contract has kept of all that `calls`, made in `state`, brought
/// in: the deposits less what was paid to the beneficiary.
pub open spec fn kept(state: ContractView, calls: Seq<Call>) -> int
    decreases calls.len(),
{
    if calls.len() == 0 {
        0
    } else {
        kept(state, calls.drop_last()) + taken_in(calls.last()) - paid_out(
            after_calls(state, calls.drop_last()),
            calls.last(),
        )
    }
}

/// Since it was opened the contract has kept `STORAGE_COST` for each account
/// that has donated, and nothing else.
pub proof fn lemma_keeps_storage_cost_per_donor(owner: Seq<char>, calls: Seq<Call>)
    ensures
        kept(opened(owner), calls) == STORAGE_COST * after_calls(
            opened(owner),
            calls,
        ).donations.len(),
    decreases calls.len(),
{
    if calls.len() > 0 {
        let earlier = calls.drop_last();
        let before = after_calls(opened(owner), earlier);
        lemma_keeps_storage_cost_per_donor(owner, earlier);
        match calls.last() {
            Call::Donate { donor, deposit } => {
                if accepted(deposit) {
                    lemma_total_is_sum_of_deposits(owner, earlier, donor);
                    lemma_deposited_by_donors(earlier, donor);
                    lemma_recorded_are_donors(owner, earlier, donor);
                }
            },
            Call::ChangeOwner { new_owner } => {},
        }
    }
}

} // verus!
