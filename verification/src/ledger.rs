//! The ledger: every account, and the record of every deposit and withdrawal.

use crate::account::{records_after, target, Account, Balances};
use crate::amount::{Amount, Dec};
use crate::transaction::{
    AccountId, Transaction, TransactionAmount, TransactionError, TransactionId,
};
use std::collections::hash_map::Entry;
use std::collections::HashMap;
use vstd::prelude::*;

verus! {

broadcast use vstd::std_specs::hash::group_hash_axioms;

/// Where a recorded deposit or withdrawal stands.
///
/// A record starts `Settled`. A dispute makes it `Disputed`; from there a
/// resolve makes it `Settled` again and a chargeback makes it `ChargeBacked`,
/// which it then stays.
#[derive(Clone, Copy, Debug, PartialEq, Eq, Structural)]
pub enum ProcessedTransactionState {
    Settled,
    Disputed,
    ChargeBacked,
}

/// The record of a deposit or withdrawal that was applied.
#[derive(Clone, Copy, Debug)]
pub struct ProcessedTransaction {
    pub amount: TransactionAmount,
    pub state: ProcessedTransactionState,
}

/// The key of a record: the account it belongs to and its transaction id.
pub type RecordKey = (AccountId, TransactionId);

/// The records of all accounts, in one map.
pub struct ProcessedTxs(HashMap<u64, ProcessedTransaction>);

/// The slot of the backing map that holds the record `tx` of `account`.
spec fn slot(account: AccountId, tx: TransactionId) -> u64 {
    (account as u64 * 0x1_0000_0000 + tx as u64) as u64
}

impl View for ProcessedTxs {
    type V = Map<RecordKey, ProcessedTransaction>;

    closed spec fn view(&self) -> Map<RecordKey, ProcessedTransaction> {
        Map::new(
            |k: RecordKey| self.0@.contains_key(slot(k.0, k.1)),
            |k: RecordKey| self.0@[slot(k.0, k.1)],
        )
    }
}

impl Default for ProcessedTxs {
    /// No records.
    fn default() -> (r: ProcessedTxs)
        ensures
            r@ == Map::<RecordKey, ProcessedTransaction>::empty(),
    {
        let r = ProcessedTxs(HashMap::new());
        assert(r@ =~= Map::<RecordKey, ProcessedTransaction>::empty());
        r
    }
}

/// The records of one account: a window into the records of all accounts
/// through which only that account's records can be read and written.
pub struct ProcessedTxsForAccount<'a> {
    /// The records of all accounts.
    pub processed: &'a mut ProcessedTxs,
    /// The account whose records can be reached.
    pub account: AccountId,
}

fn slot_of(account: AccountId, tx: TransactionId) -> (r: u64)
    ensures
        r == slot(account, tx),
{
    account as u64 * 0x1_0000_0000 + tx as u64
}

impl<'a> ProcessedTxsForAccount<'a> {
    /// The window into `processed` for the account `id`.
    pub fn for_account(processed: &'a mut ProcessedTxs, id: AccountId) -> (r:
        ProcessedTxsForAccount<'a>)
        ensures
            r.account == id,
            *r.processed == *old(processed),
            *final(r.processed) == *final(processed),
    {
        ProcessedTxsForAccount { processed, account: id }
    }

    /// The record that the account has of the transaction `tx`, if any.
    pub open spec fn record(&self, tx: TransactionId) -> Option<ProcessedTransaction> {
        self.processed@.get((self.account, tx))
    }

    /// Finds the account's record of the transaction `tx`. A record that
    /// another account holds under the same id is not found. What the caller
    /// writes through the result becomes the record.
    pub fn find<'b>(&'b mut self, tx: TransactionId) -> (r: Option<&'b mut ProcessedTransaction>)
        ensures
            match r {
                Some(found) => old(self).record(tx) == Some(*found) && final(self).processed@
                    == old(self).processed@.insert((old(self).account, tx), *final(found)),
                None => old(self).record(tx) is None && final(self).processed@ == old(
                    self,
                ).processed@,
            },
            final(self).account == old(self).account,
            *final(final(self).processed) == *final(old(self).processed),
    {
        let key = slot_of(self.account, tx);
        match self.processed.0.entry(key) {
            Entry::Occupied(entry) => Some(entry.into_mut()),
            Entry::Vacant(_) => None,
        }
    }

    /// Records `tx` under `id` for the account, in place of any record it had
    /// under that id.
    pub fn insert_processed(&mut self, id: TransactionId, tx: ProcessedTransaction)
        ensures
            final(self).processed@ == old(self).processed@.insert((old(self).account, id), tx),
            final(self).account == old(self).account,
            *final(final(self).processed) == *final(old(self).processed),
    {
        let key = slot_of(self.account, id);
        self.processed.0.insert(key, tx);
    }
}

/// The mathematical model of a ledger.
pub struct LedgerView {
    /// The accounts that a transaction has named so far.
    pub accounts: Map<AccountId, Balances>,
    /// The record of every deposit and withdrawal that was applied.
    pub records: Map<RecordKey, ProcessedTransaction>,
}

impl LedgerView {
    /// The total of every account can be computed without overflow.
    pub open spec fn totals_representable(self) -> bool {
        forall|id: AccountId| #[trigger]
            self.accounts.contains_key(id) ==> self.accounts[id].available.plus(
                self.accounts[id].held,
            ) is Some
    }

    /// A ledger that nothing was applied to.
    pub open spec fn empty() -> LedgerView {
        LedgerView { accounts: Map::empty(), records: Map::empty() }
    }

    /// Every record that was charged back belongs to an account that is
    /// frozen.
    pub open spec fn wf(self) -> bool {
        forall|k: RecordKey|
            #![trigger self.records.contains_key(k)]
            self.records.contains_key(k) && self.records[k].state
                == ProcessedTransactionState::ChargeBacked ==> self.accounts.contains_key(k.0)
                && self.accounts[k.0].frozen
    }

    /// The balances of `account`: those of an untouched account where no
    /// transaction has named it yet.
    pub open spec fn balances(self, account: AccountId) -> Balances {
        if self.accounts.contains_key(account) {
            self.accounts[account]
        } else {
            Balances::empty()
        }
    }

    /// What `account` has on record under the id that `tx` names.
    pub open spec fn record(self, account: AccountId, tx: Transaction) -> Option<
        ProcessedTransaction,
    > {
        self.records.get((account, target(tx)))
    }

    /// Whether `tx` on `account` is applied or rejected, and why.
    pub open spec fn verdict(self, account: AccountId, tx: Transaction) -> Result<
        (),
        TransactionError,
    > {
        self.balances(account).verdict(self.record(account, tx), tx)
    }

    /// Decimal arithmetic can carry `tx` on `account` out.
    pub open spec fn representable(self, account: AccountId, tx: Transaction) -> bool {
        self.balances(account).representable(self.record(account, tx), tx)
    }

    /// The ledger after `tx` on `account`. The account exists from then on,
    /// whether `tx` was applied or rejected.
    pub open spec fn after(self, account: AccountId, tx: Transaction) -> LedgerView {
        LedgerView {
            accounts: self.accounts.insert(
                account,
                self.balances(account).after(self.record(account, tx), tx),
            ),
            records: records_after(self.records, account, self.balances(account), tx),
        }
    }

    /// The ledger after the transactions `steps`, each with its account,
    /// applied in their order.
    pub open spec fn after_all(self, steps: Seq<(AccountId, Transaction)>) -> LedgerView
        decreases steps.len(),
    {
        if steps.len() == 0 {
            self
        } else {
            self.after_all(steps.drop_last()).after(steps.last().0, steps.last().1)
        }
    }
}

/// Applying a transaction keeps every charged-back record with a frozen
/// account.
pub proof fn lemma_step_keeps_wf(ledger: LedgerView, account: AccountId, tx: Transaction)
    requires
        ledger.wf(),
    ensures
        ledger.after(account, tx).wf(),
{
    let next = ledger.after(account, tx);
    assert forall|k: RecordKey|
        #![trigger next.records.contains_key(k)]
        next.records.contains_key(k) && next.records[k].state
            == ProcessedTransactionState::ChargeBacked implies next.accounts.contains_key(k.0)
        && next.accounts[k.0].frozen by {
        if k != (account, target(tx)) {
            assert(ledger.records.contains_key(k));
        } else if ledger.verdict(account, tx) is Err {
            assert(ledger.records.contains_key(k));
        }
    }
}

/// An account that is frozen stays frozen for the rest of the run, whatever
/// transactions follow, on it or on other accounts.
pub proof fn lemma_frozen_for_good(
    ledger: LedgerView,
    steps: Seq<(AccountId, Transaction)>,
    account: AccountId,
)
    requires
        ledger.accounts.contains_key(account),
        ledger.accounts[account].frozen,
    ensures
        ledger.after_all(steps).accounts.contains_key(account),
        ledger.after_all(steps).accounts[account].frozen,
    decreases steps.len(),
{
    if steps.len() > 0 {
        lemma_frozen_for_good(ledger, steps.drop_last(), account);
    }
}

/// A record that was charged back stays as it is for the rest of the run: no
/// transaction that follows, on any account, changes it.
pub proof fn lemma_charged_back_for_good(
    ledger: LedgerView,
    steps: Seq<(AccountId, Transaction)>,
    key: RecordKey,
)
    requires
        ledger.wf(),
        ledger.records.contains_key(key),
        ledger.records[key].state == ProcessedTransactionState::ChargeBacked,
    ensures
        ledger.after_all(steps).wf(),
        ledger.after_all(steps).records.contains_key(key),
        ledger.after_all(steps).records[key] == ledger.records[key],
    decreases steps.len(),
{
    if steps.len() > 0 {
        lemma_charged_back_for_good(ledger, steps.drop_last(), key);
        let before = ledger.after_all(steps.drop_last());
        lemma_step_keeps_wf(before, steps.last().0, steps.last().1);
        assert(before.records.contains_key(key));
    }
}

/// A rejected transaction leaves every record and the balances of its account
/// as they were, so applying it once more is rejected for the same reason and
/// changes nothing at all.
pub proof fn lemma_rejection_changes_nothing(ledger: LedgerView, account: AccountId, tx: Transaction)
    requires
        ledger.verdict(account, tx) is Err,
    ensures
        ledger.after(account, tx).records == ledger.records,
        ledger.after(account, tx).balances(account) == ledger.balances(account),
        ledger.after(account, tx).verdict(account, tx) == ledger.verdict(account, tx),
        ledger.after(account, tx).after(account, tx) == ledger.after(account, tx),
{
    let next = ledger.after(account, tx);
    assert(next.after(account, tx).accounts =~= next.accounts);
}

/// No transaction on one account changes the balances of another account or
/// any record of another account.
pub proof fn lemma_accounts_are_apart(
    ledger: LedgerView,
    account: AccountId,
    tx: Transaction,
    other: RecordKey,
)
    requires
        other.0 != account,
    ensures
        ledger.after(account, tx).balances(other.0) == ledger.balances(other.0),
        ledger.after(account, tx).records.get(other) == ledger.records.get(other),
{
}

/// The number of fractional digits to which a summary rounds its amounts.
pub const SUMMARY_SCALE: u32 = 4;

/// The state of one account as a summary of the ledger shows it.
#[derive(Clone, Copy, Debug)]
pub struct AccountSummary {
    /// The account.
    pub client: AccountId,
    /// Its available funds, rounded.
    pub available: Amount,
    /// Its held funds, rounded.
    pub held: Amount,
    /// Its available and held funds together, rounded after adding.
    pub total: Amount,
    /// Whether it is frozen.
    pub locked: bool,
}

/// The mathematical model of a summary line.
pub struct SummaryView {
    pub client: AccountId,
    pub available: Dec,
    pub held: Dec,
    pub total: Dec,
    pub locked: bool,
}

impl View for AccountSummary {
    type V = SummaryView;

    open spec fn view(&self) -> SummaryView {
        SummaryView {
            client: self.client,
            available: self.available@,
            held: self.held@,
            total: self.total@,
            locked: self.locked,
        }
    }
}

/// The summary line of the account `client` with the given balances, whose
/// total does not overflow.
pub open spec fn summary_of(client: AccountId, balances: Balances) -> SummaryView {
    SummaryView {
        client,
        available: balances.available.rescaled(SUMMARY_SCALE as nat),
        held: balances.held.rescaled(SUMMARY_SCALE as nat),
        total: balances.available.plus(balances.held)->0.rescaled(SUMMARY_SCALE as nat),
        locked: balances.frozen,
    }
}

/// All accounts and the records of all their deposits and withdrawals.
pub struct Ledger {
    accounts: HashMap<AccountId, Account>,
    processed_txs: ProcessedTxs,
}

impl View for Ledger {
    type V = LedgerView;

    closed spec fn view(&self) -> LedgerView {
        LedgerView {
            accounts: self.accounts@.map_values(|a: Account| a@),
            records: self.processed_txs@,
        }
    }
}

impl Default for Ledger {
    /// A ledger without accounts and without records.
    fn default() -> (r: Ledger)
        ensures
            r@ == LedgerView::empty(),
    {
        let r = Ledger { accounts: HashMap::new(), processed_txs: ProcessedTxs::default() };
        assert(r@.accounts =~= Map::<AccountId, Balances>::empty());
        r
    }
}

impl Ledger {
    /// Applies `tx` to `account`, which comes into being with nothing in it if
    /// no transaction has named it before. A rejected transaction changes no
    /// balance and no record.
    ///
    /// The balances must not overflow; `checked_apply_for_account` tests that.
    pub fn apply_for_account(&mut self, account: AccountId, tx: Transaction) -> (r: Result<
        (),
        TransactionError,
    >)
        requires
            old(self)@.representable(account, tx),
        ensures
            r == old(self)@.verdict(account, tx),
            final(self)@ == old(self)@.after(account, tx),
            old(self)@.wf() ==> final(self)@.wf(),
    {
        proof {
            if old(self)@.wf() {
                lemma_step_keeps_wf(old(self)@, account, tx);
            }
        }
        let mut txs_for_account = ProcessedTxsForAccount::for_account(
            &mut self.processed_txs,
            account,
        );
        let entry = self.accounts.entry(account).or_insert(Account::default());
        let r = entry.try_apply_transaction(&mut txs_for_account, tx);
        assert(self@.accounts =~= old(self)@.after(account, tx).accounts);
        r
    }

    /// Applies `tx` to `account` as `apply_for_account` does, unless a balance
    /// would overflow: then the ledger stays as it is and the result is `None`.
    pub fn checked_apply_for_account(&mut self, account: AccountId, tx: Transaction) -> (r: Option<
        Result<(), TransactionError>,
    >)
        ensures
            r is Some <==> old(self)@.representable(account, tx),
            r matches Some(outcome) ==> outcome == old(self)@.verdict(account, tx) && final(self)@
                == old(self)@.after(account, tx),
            r is None ==> final(self)@ == old(self)@,
            old(self)@.wf() ==> final(self)@.wf(),
    {
        if self.fits(account, tx) {
            Some(self.apply_for_account(account, tx))
        } else {
            None
        }
    }

    /// Whether decimal arithmetic can carry `tx` on `account` out.
    fn fits(&mut self, account: AccountId, tx: Transaction) -> (r: bool)
        ensures
            r == old(self)@.representable(account, tx),
            final(self)@ == old(self)@,
    {
        let mut txs_for_account = ProcessedTxsForAccount::for_account(
            &mut self.processed_txs,
            account,
        );
        match self.accounts.get(&account) {
            Some(found) => found.fits(&mut txs_for_account, tx),
            None => Account::default().fits(&mut txs_for_account, tx),
        }
    }

    /// One summary line for every account, in ascending order of the account
    /// ids, with every amount rounded to four fractional digits.
    ///
    /// No account's total may overflow; `checked_summaries` tests that.
    pub fn summaries(&self) -> (r: Vec<AccountSummary>)
        requires
            self@.totals_representable(),
        ensures
            forall|i: int, j: int| 0 <= i < j < r.len() ==> r[i].client < r[j].client,
            forall|i: int|
                0 <= i < r.len() ==> self@.accounts.contains_key(#[trigger] r[i].client) && r[i]@
                    == summary_of(r[i].client, self@.accounts[r[i].client]),
            forall|id: AccountId| #[trigger]
                self@.accounts.contains_key(id) ==> exists|i: int|
                    0 <= i < r.len() && r[i].client == id,
    {
        // Walking the ids upwards gives the lines in order without a sort.
        let mut rows: Vec<AccountSummary> = Vec::new();
        let mut next: u32 = 0;
        while next <= 0xFFFF
            invariant
                next <= 0x1_0000,
                self@.totals_representable(),
                forall|i: int, j: int| 0 <= i < j < rows.len() ==> rows[i].client < rows[j].client,
                forall|i: int| 0 <= i < rows.len() ==> (#[trigger] rows[i].client) < next,
                forall|i: int|
                    0 <= i < rows.len() ==> self@.accounts.contains_key(#[trigger] rows[i].client)
                        && rows[i]@ == summary_of(rows[i].client, self@.accounts[rows[i].client]),
                forall|id: AccountId|
                    id < next && #[trigger] self@.accounts.contains_key(id) ==> exists|i: int|
                        0 <= i < rows.len() && rows[i].client == id,
            decreases 0x1_0000 - next,
        {
            let client = next as AccountId;
            if let Some(found) = self.account(client) {
                let row = AccountSummary {
                    client,
                    available: found.available().rescale(SUMMARY_SCALE),
                    held: found.held().rescale(SUMMARY_SCALE),
                    total: found.total().rescale(SUMMARY_SCALE),
                    locked: found.is_frozen(),
                };
                let ghost before = rows@;
                rows.push(row);
                assert(rows[rows.len() - 1].client == client);
                assert forall|id: AccountId|
                    id < next + 1 && #[trigger] self@.accounts.contains_key(id) implies exists|
                    i: int,
                |
                    0 <= i < rows.len() && rows[i].client == id by {
                    if id == client {
                        assert(rows[rows.len() - 1].client == id);
                    } else {
                        let i = choose|i: int| 0 <= i < before.len() && before[i].client == id;
                        assert(rows[i].client == id);
                    }
                }
            }
            next = next + 1;
        }
        rows
    }

    /// The summary lines as `summaries` gives them, or `None` where the total
    /// of some account overflows.
    pub fn checked_summaries(&self) -> (r: Option<Vec<AccountSummary>>)
        ensures
            r is Some <==> self@.totals_representable(),
            r matches Some(rows) ==> {
                &&& forall|i: int, j: int|
                    0 <= i < j < rows.len() ==> rows[i].client < rows[j].client
                &&& forall|i: int|
                    0 <= i < rows.len() ==> self@.accounts.contains_key(#[trigger] rows[i].client)
                        && rows[i]@ == summary_of(rows[i].client, self@.accounts[rows[i].client])
                &&& forall|id: AccountId| #[trigger]
                    self@.accounts.contains_key(id) ==> exists|i: int|
                        0 <= i < rows.len() && rows[i].client == id
            },
    {
        let mut next: u32 = 0;
        while next <= 0xFFFF
            invariant
                next <= 0x1_0000,
                forall|id: AccountId|
                    id < next && #[trigger] self@.accounts.contains_key(id)
                        ==> self@.accounts[id].available.plus(self@.accounts[id].held) is Some,
            decreases 0x1_0000 - next,
        {
            let client = next as AccountId;
            if let Some(found) = self.account(client) {
                if found.checked_total().is_none() {
                    return None;
                }
            }
            next = next + 1;
        }
        Some(self.summaries())
    }

    /// The account `id`, if a transaction has named it.
    pub fn account(&self, id: AccountId) -> (r: Option<&Account>)
        ensures
            r is Some <==> self@.accounts.contains_key(id),
            r matches Some(found) ==> found@ == self@.accounts[id],
    {
        self.accounts.get(&id)
    }
}

} // verus!
