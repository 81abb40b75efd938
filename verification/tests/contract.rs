use donation::account::AccountId;
use donation::amount::{Amount, MAX_AMOUNT, STORAGE_COST};
use donation::donations::{Donation, DonationError};
use donation::{Contract, DEFAULT_OWNER};
use near_sdk::NearToken;

const OWNER: &str = "beneficiary";
const ONE_NEAR: NearToken = NearToken::from_near(1);

fn account(name: &str) -> AccountId {
    AccountId::new(name)
}

fn amount(tokens: NearToken) -> Amount {
    Amount::from_yoctonear(tokens.as_yoctonear())
}

fn tokens(amount: Amount) -> NearToken {
    NearToken::from_yoctonear(amount.as_yoctonear())
}

fn record(name: &str, total: NearToken) -> Donation {
    Donation { account_id: account(name), total_amount: amount(total) }
}

#[test]
fn init() {
    let contract = Contract::init(account(OWNER));
    assert_eq!(
        contract.get_owner().as_str(),
        OWNER.parse::<near_sdk::AccountId>().unwrap().to_string()
    );
}

#[test]
fn donate() {
    let mut contract = Contract::init(account(OWNER));

    contract.donate(account("alice"), amount(ONE_NEAR)).unwrap();
    let first_donation = contract.get_donation_for_account(account("alice"));

    assert_eq!(tokens(first_donation.total_amount), ONE_NEAR);

    contract.donate(account("bob"), amount(ONE_NEAR.saturating_mul(2))).unwrap();
    let second_donation = contract.get_donation_for_account(account("bob"));

    assert_eq!(tokens(second_donation.total_amount), ONE_NEAR.saturating_mul(2));

    // Alice donates again
    contract.donate(account("alice"), amount(ONE_NEAR)).unwrap();
    let first_donation = contract.get_donation_for_account(account("alice"));

    assert_eq!(tokens(first_donation.total_amount), ONE_NEAR.saturating_mul(2));
    assert_eq!(contract.number_of_donors(), 2);
}

#[test]
fn main() {
    let storage_cost = NearToken::from_millinear(1);
    let mut contract = Contract::init(account("owner"));
    let mut owner_balance = NearToken::from_near(10);
    let owner_balance_before = owner_balance;

    let receipt = contract.donate(account("alice"), amount(ONE_NEAR)).unwrap();
    assert_eq!(receipt.beneficiary, account("owner"));
    owner_balance = owner_balance.saturating_add(tokens(receipt.forwarded));

    let receipt = contract.donate(account("bob"), amount(ONE_NEAR)).unwrap();
    owner_balance = owner_balance.saturating_add(tokens(receipt.forwarded));

    let receipt = contract.donate(account("alice"), amount(ONE_NEAR.saturating_mul(3))).unwrap();
    owner_balance = owner_balance.saturating_add(tokens(receipt.forwarded));

    assert_eq!(contract.number_of_donors(), 2);

    let donation = contract.get_donation_for_account(account("alice"));
    assert_eq!(tokens(donation.total_amount), NearToken::from_near(4));

    let donations = contract.get_donations(None, None);
    assert_eq!(
        donations,
        vec![record("alice", NearToken::from_near(4)), record("bob", NearToken::from_near(1))]
    );

    let donation_amount = NearToken::from_near(5).saturating_sub(storage_cost.saturating_mul(2));
    let expected_balance = owner_balance_before.saturating_add(donation_amount);
    assert_eq!(owner_balance, expected_balance);
}

#[test]
fn storage_cost_is_one_millinear() {
    assert_eq!(STORAGE_COST, NearToken::from_millinear(1).as_yoctonear());
    assert_eq!(STORAGE_COST, 1_000_000_000_000_000_000_000);
    assert_eq!(MAX_AMOUNT, u128::MAX);
}

#[test]
fn first_donation() {
    let mut contract = Contract::init(account(OWNER));
    let receipt = contract.donate(account("alice"), amount(ONE_NEAR)).unwrap();

    assert_eq!(tokens(contract.get_donation_for_account(account("alice")).total_amount), ONE_NEAR);
    assert_eq!(receipt.total, amount(ONE_NEAR));
    assert_eq!(
        receipt.forwarded.as_yoctonear(),
        1_000_000_000_000_000_000_000_000 - 1_000_000_000_000_000_000_000
    );
    assert_eq!(receipt.beneficiary, account(OWNER));
    assert_eq!(receipt.total_text, "1000000000000000000000000");
    assert_eq!(contract.number_of_donors(), 1);
}

#[test]
fn second_donor() {
    let mut contract = Contract::init(account(OWNER));
    contract.donate(account("alice"), amount(ONE_NEAR)).unwrap();
    let receipt = contract.donate(account("bob"), amount(ONE_NEAR.saturating_mul(2))).unwrap();

    assert_eq!(
        tokens(contract.get_donation_for_account(account("bob")).total_amount),
        NearToken::from_near(2)
    );
    assert_eq!(receipt.forwarded.as_yoctonear(), 1_999_000_000_000_000_000_000_000);
    assert_eq!(receipt.total_text, "2000000000000000000000000");
    assert_eq!(contract.number_of_donors(), 2);
    assert_eq!(
        contract.get_donations(None, None),
        vec![record("alice", NearToken::from_near(1)), record("bob", NearToken::from_near(2))]
    );
}

#[test]
fn repeat_donor() {
    let mut contract = Contract::init(account(OWNER));
    contract.donate(account("alice"), amount(ONE_NEAR)).unwrap();
    contract.donate(account("bob"), amount(ONE_NEAR.saturating_mul(2))).unwrap();
    let receipt = contract.donate(account("alice"), amount(ONE_NEAR.saturating_mul(3))).unwrap();

    assert_eq!(
        tokens(contract.get_donation_for_account(account("alice")).total_amount),
        NearToken::from_near(4)
    );
    assert_eq!(receipt.forwarded.as_yoctonear(), 3_000_000_000_000_000_000_000_000);
    assert_eq!(receipt.total_text, "4000000000000000000000000");
    assert_eq!(contract.number_of_donors(), 2);
    assert_eq!(
        contract.get_donations(None, None),
        vec![record("alice", NearToken::from_near(4)), record("bob", NearToken::from_near(2))]
    );
}

#[test]
fn cumulative_payout() {
    let mut contract = Contract::init(account(OWNER));
    let mut paid: u128 = 0;
    paid += contract.donate(account("alice"), amount(ONE_NEAR)).unwrap().forwarded.as_yoctonear();
    paid += contract
        .donate(account("bob"), amount(ONE_NEAR.saturating_mul(2)))
        .unwrap()
        .forwarded
        .as_yoctonear();
    paid += contract
        .donate(account("alice"), amount(ONE_NEAR.saturating_mul(3)))
        .unwrap()
        .forwarded
        .as_yoctonear();

    assert_eq!(paid, 6 * ONE_NEAR.as_yoctonear() - 2 * STORAGE_COST);
    assert_eq!(paid, 5_998_000_000_000_000_000_000_000);
}

#[test]
fn below_gate() {
    let mut contract = Contract::init(account(OWNER));
    contract.donate(account("alice"), amount(ONE_NEAR)).unwrap();

    let outcome = contract.donate(account("bob"), Amount::from_yoctonear(STORAGE_COST));

    assert_eq!(outcome.unwrap_err(), DonationError::InsufficientDeposit);
    assert_eq!(contract.number_of_donors(), 1);
    assert_eq!(contract.get_donation_for_account(account("bob")).total_amount, Amount::zero());
    assert_eq!(contract.get_donations(None, None), vec![record("alice", ONE_NEAR)]);
}

#[test]
fn query_missing_donor() {
    let mut contract = Contract::init(account(OWNER));
    contract.donate(account("alice"), amount(ONE_NEAR)).unwrap();

    let donation = contract.get_donation_for_account(account("charlie"));

    assert_eq!(donation, record("charlie", NearToken::from_yoctonear(0)));
    assert_eq!(contract.number_of_donors(), 1);
    assert_eq!(contract.get_donations(None, None), vec![record("alice", ONE_NEAR)]);
}

#[test]
fn init_leaves_no_donors() {
    let contract = Contract::init(account(OWNER));
    assert_eq!(contract.get_owner(), &account(OWNER));
    assert_eq!(contract.number_of_donors(), 0);
    assert!(contract.get_donations(None, None).is_empty());
}

#[test]
fn default_owner_is_the_placeholder() {
    let contract = Contract::default();
    assert_eq!(DEFAULT_OWNER, "v2.faucet.nonofficial.testnet");
    assert_eq!(contract.get_owner().as_str(), "v2.faucet.nonofficial.testnet");
    assert_eq!(contract.number_of_donors(), 0);
}

#[test]
fn donation_before_init_goes_to_the_placeholder() {
    let mut contract = Contract::default();
    let receipt = contract.donate(account("alice"), amount(ONE_NEAR)).unwrap();
    assert_eq!(receipt.beneficiary.as_str(), "v2.faucet.nonofficial.testnet");
    assert_eq!(contract.number_of_donors(), 1);
}

#[test]
fn change_owner_keeps_the_ledger() {
    let mut contract = Contract::init(account(OWNER));
    contract.donate(account("alice"), amount(ONE_NEAR)).unwrap();

    contract.change_owner(account("heir"));

    assert_eq!(contract.get_owner(), &account("heir"));
    assert_eq!(contract.get_donations(None, None), vec![record("alice", ONE_NEAR)]);
    let receipt = contract.donate(account("bob"), amount(ONE_NEAR)).unwrap();
    assert_eq!(receipt.beneficiary, account("heir"));
}

#[test]
fn deposit_just_above_the_gate() {
    let mut contract = Contract::init(account(OWNER));
    let receipt = contract.donate(account("alice"), Amount::from_yoctonear(STORAGE_COST + 1)).unwrap();
    assert_eq!(receipt.forwarded.as_yoctonear(), 1);
    assert_eq!(receipt.total.as_yoctonear(), STORAGE_COST + 1);
    assert_eq!(receipt.total_text, "1000000000000000000001");
}

#[test]
fn gate_rejects_every_small_deposit() {
    let mut contract = Contract::init(account(OWNER));
    for deposit in [0, 1, STORAGE_COST - 1, STORAGE_COST] {
        let outcome = contract.donate(account("alice"), Amount::from_yoctonear(deposit));
        assert_eq!(outcome.unwrap_err(), DonationError::InsufficientDeposit);
        assert_eq!(contract.number_of_donors(), 0);
        assert_eq!(contract.get_owner(), &account(OWNER));
    }
}

#[test]
fn gate_keeps_a_known_donor_unchanged() {
    let mut contract = Contract::init(account(OWNER));
    contract.donate(account("alice"), amount(ONE_NEAR)).unwrap();
    let outcome = contract.donate(account("alice"), Amount::from_yoctonear(STORAGE_COST));
    assert!(matches!(outcome, Err(DonationError::InsufficientDeposit)));
    assert_eq!(contract.get_donations(None, None), vec![record("alice", ONE_NEAR)]);
}

#[test]
fn insufficient_deposit_message_names_the_minimum() {
    assert_eq!(
        DonationError::InsufficientDeposit.message(),
        "Attach at least 1000000000000000000000 yoctoNEAR to cover for the storage cost"
    );
}

#[test]
fn log_line_names_donor_deposit_and_total() {
    let mut contract = Contract::init(account(OWNER));
    contract.donate(account("alice"), amount(ONE_NEAR)).unwrap();
    let receipt = contract.donate(account("alice"), Amount::from_yoctonear(STORAGE_COST + 5)).unwrap();
    assert_eq!(
        receipt.log,
        "Thank you alice for donating 1000000000000000000005 yoctoNEAR! \
         You donated a total of 1001000000000000000000005 yoctoNEAR"
    );
}

#[test]
fn totals_never_fall() {
    let mut contract = Contract::init(account(OWNER));
    let mut last = 0;
    for deposit in [STORAGE_COST + 1, u128::MAX / 2, STORAGE_COST, u128::MAX / 2, u128::MAX, 7] {
        let _ = contract.donate(account("alice"), Amount::from_yoctonear(deposit));
        let _ = contract.donate(account("bob"), Amount::from_yoctonear(deposit / 2));
        let total = contract.get_donation_for_account(account("alice")).total_amount.as_yoctonear();
        assert!(total >= last);
        last = total;
    }
    assert_eq!(last, u128::MAX);
}

#[test]
fn total_is_the_saturating_sum_of_accepted_deposits() {
    let mut contract = Contract::init(account(OWNER));
    let deposits = [STORAGE_COST + 1, 5, 3 * STORAGE_COST, STORAGE_COST, 2 * STORAGE_COST];
    let mut expected: u128 = 0;
    for deposit in deposits {
        if contract.donate(account("alice"), Amount::from_yoctonear(deposit)).is_ok() {
            expected = expected.saturating_add(deposit);
        }
        contract.donate(account("bob"), amount(ONE_NEAR)).unwrap();
    }
    assert_eq!(expected, 6 * STORAGE_COST + 1);
    assert_eq!(
        contract.get_donation_for_account(account("alice")).total_amount.as_yoctonear(),
        6_000_000_000_000_000_000_001
    );
    assert_eq!(
        tokens(contract.get_donation_for_account(account("bob")).total_amount),
        NearToken::from_near(5)
    );
}

#[test]
fn total_saturates_at_the_ceiling() {
    let mut contract = Contract::init(account(OWNER));
    contract.donate(account("alice"), Amount::from_yoctonear(u128::MAX - 1)).unwrap();
    let receipt = contract.donate(account("alice"), Amount::from_yoctonear(STORAGE_COST + 1)).unwrap();
    assert_eq!(receipt.total.as_yoctonear(), u128::MAX);
    assert_eq!(receipt.forwarded.as_yoctonear(), STORAGE_COST + 1);
    assert_eq!(receipt.total_text, "340282366920938463463374607431768211455");
    assert_eq!(
        contract.get_donation_for_account(account("alice")).total_amount.as_yoctonear(),
        u128::MAX
    );
}

#[test]
fn donors_are_listed_in_order_of_first_donation() {
    let mut contract = Contract::init(account(OWNER));
    for name in ["carol", "alice", "bob", "alice", "carol", "dave", "bob"] {
        contract.donate(account(name), amount(ONE_NEAR)).unwrap();
    }
    let _ = contract.donate(account("erin"), Amount::from_yoctonear(STORAGE_COST));
    let listed = contract.get_donations(Some(0), Some(u64::MAX));
    assert_eq!(
        listed,
        vec![
            record("carol", NearToken::from_near(2)),
            record("alice", NearToken::from_near(2)),
            record("bob", NearToken::from_near(2)),
            record("dave", NearToken::from_near(1)),
        ]
    );
}

#[test]
fn reads_change_nothing() {
    let mut contract = Contract::init(account(OWNER));
    contract.donate(account("alice"), amount(ONE_NEAR)).unwrap();
    contract.donate(account("bob"), amount(ONE_NEAR)).unwrap();

    let owner = contract.get_owner().clone();
    let donors = contract.number_of_donors();
    let alice = contract.get_donation_for_account(account("alice"));
    let nobody = contract.get_donation_for_account(account("nobody"));
    let listed = contract.get_donations(None, None);

    assert_eq!(contract.get_owner(), &owner);
    assert_eq!(contract.number_of_donors(), donors);
    assert_eq!(contract.get_donation_for_account(account("alice")), alice);
    assert_eq!(contract.get_donation_for_account(account("nobody")), nobody);
    assert_eq!(contract.get_donations(None, None), listed);
    assert_eq!(donors, 2);
}

#[test]
fn only_the_first_donation_is_charged_for_storage() {
    let mut contract = Contract::init(account(OWNER));
    let deposit = 3 * STORAGE_COST;
    let first = contract.donate(account("alice"), Amount::from_yoctonear(deposit)).unwrap();
    let second = contract.donate(account("alice"), Amount::from_yoctonear(deposit)).unwrap();
    let third = contract.donate(account("alice"), Amount::from_yoctonear(deposit)).unwrap();
    let other = contract.donate(account("bob"), Amount::from_yoctonear(deposit)).unwrap();
    assert_eq!(first.forwarded.as_yoctonear(), 2 * STORAGE_COST);
    assert_eq!(second.forwarded.as_yoctonear(), 3 * STORAGE_COST);
    assert_eq!(third.forwarded.as_yoctonear(), 3 * STORAGE_COST);
    assert_eq!(other.forwarded.as_yoctonear(), 2 * STORAGE_COST);
}

#[test]
fn a_rejected_donation_does_not_count_as_the_first() {
    let mut contract = Contract::init(account(OWNER));
    let _ = contract.donate(account("alice"), Amount::from_yoctonear(STORAGE_COST));
    let receipt = contract.donate(account("alice"), amount(ONE_NEAR)).unwrap();
    assert_eq!(receipt.forwarded.as_yoctonear(), ONE_NEAR.as_yoctonear() - STORAGE_COST);
}

#[test]
fn listing_defaults_to_the_first_ten() {
    let mut contract = Contract::init(account(OWNER));
    let names = [
        "d00", "d01", "d02", "d03", "d04", "d05", "d06", "d07", "d08", "d09", "d10", "d11",
    ];
    for name in names {
        contract.donate(account(name), amount(ONE_NEAR)).unwrap();
    }
    let listed = contract.get_donations(None, None);
    assert_eq!(listed.len(), 10);
    assert_eq!(listed[0], record("d00", ONE_NEAR));
    assert_eq!(listed[9], record("d09", ONE_NEAR));

    let tail = contract.get_donations(Some(10), None);
    assert_eq!(tail, vec![record("d10", ONE_NEAR), record("d11", ONE_NEAR)]);

    let middle = contract.get_donations(Some(3), Some(2));
    assert_eq!(middle, vec![record("d03", ONE_NEAR), record("d04", ONE_NEAR)]);

    let first = contract.get_donations(None, Some(1));
    assert_eq!(first, vec![record("d00", ONE_NEAR)]);

    assert!(contract.get_donations(Some(12), None).is_empty());
    assert!(contract.get_donations(Some(u64::MAX), Some(u64::MAX)).is_empty());
    assert!(contract.get_donations(Some(0), Some(0)).is_empty());
    assert_eq!(contract.get_donations(Some(11), Some(u64::MAX)), vec![record("d11", ONE_NEAR)]);
    assert_eq!(contract.get_donations(Some(0), Some(u64::MAX)).len(), 12);
}
