//! The ledger: each donor's running total, kept in the order in which the
//! donors first appeared.

use crate::account::AccountId;
use crate::amount::{Amount, MAX_AMOUNT};
use crate::donations::{donation_views, Donation, DonationView};
use vstd::prelude::*;

verus! {

/// Whether `account` has a record among `entries`.
pub open spec fn has_donor(entries: Seq<DonationView>, account: Seq<char>) -> bool {
    exists|i: int| 0 <= i < entries.len() && (#[trigger] entries[i]).account_id == account
}

/// The position of the record of `account` among `entries`, where it has one.
pub open spec fn donor_index(entries: Seq<DonationView>, account: Seq<char>) -> int {
    choose|i: int| 0 <= i < entries.len() && (#[trigger] entries[i]).account_id == account
}

/// The total recorded for `account`: zero where it has no record.
pub open spec fn total_of(entries: Seq<DonationView>, account: Seq<char>) -> nat {
    if has_donor(entries, account) {
        entries[donor_index(entries, account)].total_amount
    } else {
        0
    }
}

/// `entries` after `total` is recorded for `account`: its record is
/// overwritten where it stands, or a new record is added at the end.
pub open spec fn recorded(entries: Seq<DonationView>, account: Seq<char>, total: nat) -> Seq<
    DonationView,
> {
    let record = DonationView { account_id: account, total_amount: total };
    if has_donor(entries, account) {
        entries.update(donor_index(entries, account), record)
    } else {
        entries.push(record)
    }
}

/// At most `limit` records of `entries`, starting at position `from_index`:
/// nothing where `from_index` is past the end, and the rest where `limit`
/// reaches beyond it.
pub open spec fn page(entries: Seq<DonationView>, from_index: nat, limit: nat) -> Seq<
    DonationView,
> {
    let start = if from_index < entries.len() {
        from_index as int
    } else {
        entries.len() as int
    };
    let end = if from_index + limit < entries.len() {
        (from_index + limit) as int
    } else {
        entries.len() as int
    };
    entries.subrange(start, end)
}

/// No account has two records among `entries`.
pub open spec fn distinct_accounts(entries: Seq<DonationView>) -> bool {
    forall|i: int, j: int|
        0 <= i < j < entries.len() ==> (#[trigger] entries[i]).account_id != (
        #[trigger] entries[j]).account_id
}

/// Where no account has two records, the record of an account is the one at
/// any position that names it.
pub proof fn lemma_donor_index_unique(entries: Seq<DonationView>, i: int)
    requires
        distinct_accounts(entries),
        0 <= i < entries.len(),
    ensures
        has_donor(entries, entries[i].account_id),
        donor_index(entries, entries[i].account_id) == i,
{
    let account = entries[i].account_id;
    let j = donor_index(entries, account);
    assert(0 <= j < entries.len() && entries[j].account_id == account);
    if j < i {
        assert(entries[j].account_id != entries[i].account_id);
    } else if i < j {
        assert(entries[i].account_id != entries[j].account_id);
    }
}

/// Recording a total keeps the records free of repeated accounts.
pub proof fn lemma_recorded_distinct(entries: Seq<DonationView>, account: Seq<char>, total: nat)
    requires
        distinct_accounts(entries),
    ensures
        distinct_accounts(recorded(entries, account, total)),
{
    let after = recorded(entries, account, total);
    if has_donor(entries, account) {
        assert forall|i: int, j: int| 0 <= i < j < after.len() implies (#[trigger] after[i]).account_id
            != (#[trigger] after[j]).account_id by {
            assert(after[i].account_id == entries[i].account_id);
            assert(after[j].account_id == entries[j].account_id);
        }
    } else {
        assert forall|i: int, j: int| 0 <= i < j < after.len() implies (#[trigger] after[i]).account_id
            != (#[trigger] after[j]).account_id by {
            if j < entries.len() {
                assert(after[i] == entries[i]);
                assert(after[j] == entries[j]);
            } else {
                assert(after[i] == entries[i]);
                assert(after[j].account_id == account);
            }
        }
    }
}

/// What recording a total does to the totals that can be looked up: the
/// account named gets the new total, and every other account keeps its own.
/// An account has a record afterwards exactly if it had one or is the one
/// named.
pub proof fn lemma_recorded_totals(
    entries: Seq<DonationView>,
    account: Seq<char>,
    total: nat,
    other: Seq<char>,
)
    requires
        distinct_accounts(entries),
    ensures
        total_of(recorded(entries, account, total), other) == if other == account {
            total
        } else {
            total_of(entries, other)
        },
        has_donor(recorded(entries, account, total), other) <==> other == account || has_donor(
            entries,
            other,
        ),
{
    let after = recorded(entries, account, total);
    lemma_recorded_distinct(entries, account, total);
    let place = if has_donor(entries, account) {
        donor_index(entries, account)
    } else {
        entries.len() as int
    };
    assert(0 <= place < after.len() && after[place].account_id == account);
    assert forall|i: int| 0 <= i < after.len() && i != place implies 0 <= i < entries.len()
        && #[trigger] after[i] == entries[i] by {}
    if other == account {
        lemma_donor_index_unique(after, place);
    } else if has_donor(entries, other) {
        let m = donor_index(entries, other);
        assert(after[m] == entries[m]);
        lemma_donor_index_unique(after, m);
        lemma_donor_index_unique(entries, m);
    } else {
        assert forall|i: int| 0 <= i < after.len() implies (#[trigger] after[i]).account_id
            != other by {
            if i != place {
                assert(after[i] == entries[i]);
            }
        }
    }
}

/// A page that starts at the first record and whose limit reaches the last
/// one holds every record.
pub proof fn lemma_whole_page(entries: Seq<DonationView>, limit: nat)
    requires
        limit >= entries.len(),
    ensures
        page(entries, 0, limit) == entries,
{
    assert(page(entries, 0, limit) =~= entries);
}

/// Each donor's running total, in the order of first appearance. No account
/// has two records.
pub struct Ledger {
    entries: Vec<Donation>,
}

impl View for Ledger {
    type V = Seq<DonationView>;

    closed spec fn view(&self) -> Seq<DonationView> {
        donation_views(self.entries@)
    }
}

impl Ledger {
    /// What holds of every ledger: no account has two records.
    #[verifier::type_invariant]
    pub open spec fn well_formed(self) -> bool {
        distinct_accounts(self@)
    }

    /// No total in a ledger exceeds `MAX_AMOUNT`.
    pub proof fn lemma_totals_bounded(self)
        ensures
            forall|i: int|
                0 <= i < self@.len() ==> (#[trigger] self@[i]).total_amount <= MAX_AMOUNT,
    {
    }

    /// A ledger without records.
    pub fn new() -> (r: Ledger)
        ensures
            r@ == Seq::<DonationView>::empty(),
    {
        let r = Ledger { entries: Vec::new() };
        assert(r@ =~= Seq::<DonationView>::empty());
        r
    }

    /// The ledger that holds `records` in their order. There is none where an
    /// account has two of them.
    pub fn from_records(records: Vec<Donation>) -> (r: Option<Ledger>)
        ensures
            r is Some <==> distinct_accounts(donation_views(records@)),
            r matches Some(ledger) ==> ledger@ == donation_views(records@),
    {
        let ghost views = donation_views(records@);
        let mut j: usize = 0;
        while j < records.len()
            invariant
                j <= records.len(),
                views == donation_views(records@),
                forall|a: int, b: int|
                    0 <= a < b < j ==> (#[trigger] views[a]).account_id != (
                    #[trigger] views[b]).account_id,
            decreases records.len() - j,
        {
            let mut i: usize = 0;
            while i < j
                invariant
                    i <= j < records.len(),
                    views == donation_views(records@),
                    forall|a: int|
                        0 <= a < i ==> (#[trigger] views[a]).account_id != views[j as int].account_id,
                decreases j - i,
            {
                if records[i].account_id == records[j].account_id {
                    assert(views[i as int].account_id == views[j as int].account_id);
                    return None;
                }
                i += 1;
            }
            j += 1;
        }
        Some(Ledger { entries: records })
    }

    /// The position of the record of `account`, if it has one.
    fn find(&self, account: &AccountId) -> (r: Option<usize>)
        ensures
            distinct_accounts(self@),
            match r {
                Some(i) => i < self@.len() && self@[i as int].account_id == account@
                    && has_donor(self@, account@) && donor_index(self@, account@) == i,
                None => !has_donor(self@, account@),
            },
    {
        proof {
            use_type_invariant(self);
        }
        let mut i: usize = 0;
        while i < self.entries.len()
            invariant
                i <= self.entries.len(),
                self@ == donation_views(self.entries@),
                distinct_accounts(self@),
                forall|k: int| 0 <= k < i ==> (#[trigger] self@[k]).account_id != account@,
            decreases self.entries.len() - i,
        {
            if self.entries[i].account_id == *account {
                proof {
                    lemma_donor_index_unique(self@, i as int);
                }
                return Some(i);
            }
            i += 1;
        }
        None
    }

    /// The total recorded for `account`, or zero if it has none.
    pub fn lookup(&self, account: &AccountId) -> (r: Amount)
        ensures
            r@ == total_of(self@, account@),
    {
        match self.find(account) {
            Some(i) => self.entries[i].total_amount,
            None => Amount::zero(),
        }
    }

    /// Records `amount` as the total of `account`. A known account keeps its
    /// place in the order; a new one goes to the end.
    pub fn upsert(&mut self, account: AccountId, amount: Amount)
        ensures
            final(self)@ == recorded(old(self)@, account@, amount@),
            distinct_accounts(final(self)@),
    {
        let found = self.find(&account);
        proof {
            lemma_recorded_distinct(self@, account@, amount@);
        }
        let record = Donation { account_id: account, total_amount: amount };
        let mut entries: Vec<Donation> = Vec::new();
        std::mem::swap(&mut entries, &mut self.entries);
        match found {
            Some(i) => {
                entries.set(i, record);
            },
            None => {
                entries.push(record);
            },
        }
        assert(donation_views(entries@) =~= recorded(old(self)@, account@, amount@));
        self.entries = entries;
    }

    /// The number of accounts with a record.
    pub fn count(&self) -> (r: usize)
        ensures
            r == self@.len(),
    {
        self.entries.len()
    }

    /// At most `limit` records in the order of first appearance, starting at
    /// position `from_index`.
    pub fn iterate(&self, from_index: u64, limit: u64) -> (r: Vec<Donation>)
        ensures
            donation_views(r@) == page(self@, from_index as nat, limit as nat),
    {
        let len = self.entries.len();
        let mut out: Vec<Donation> = Vec::new();
        if from_index >= len as u64 {
            assert(donation_views(out@) =~= page(self@, from_index as nat, limit as nat));
            return out;
        }
        let start = from_index as usize;
        let end = if limit < (len - start) as u64 {
            start + limit as usize
        } else {
            len
        };
        let mut i = start;
        while i < end
            invariant
                start <= i <= end <= self.entries.len(),
                self@ == donation_views(self.entries@),
                donation_views(out@) == self@.subrange(start as int, i as int),
            decreases end - i,
        {
            let record = self.entries[i].clone();
            let ghost before = out@;
            out.push(record);
            assert(self@[i as int] == record@);
            assert(donation_views(out@) =~= donation_views(before).push(record@));
            assert(donation_views(out@) =~= self@.subrange(start as int, i + 1));
            i += 1;
        }
        assert(donation_views(out@) =~= page(self@, from_index as nat, limit as nat));
        out
    }
}

} // verus!
