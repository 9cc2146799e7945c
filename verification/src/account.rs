//! One client's account and the rules by which a transaction changes it.

use crate::amount::{lemma_minus_then_plus, lemma_plus_then_minus, Amount, Dec};
use crate::ledger::{
    ProcessedTransaction, ProcessedTransactionState, ProcessedTxsForAccount, RecordKey,
};
use crate::transaction::{AccountId, Balance, Transaction, TransactionError, TransactionId};
use vstd::prelude::*;

verus! {

/// The mathematical model of an account: what it holds, and whether it is
/// frozen.
pub struct Balances {
    /// Funds the client can withdraw.
    pub available: Dec,
    /// Funds set aside while a dispute lasts.
    pub held: Dec,
    /// A frozen account takes no deposit and no withdrawal.
    pub frozen: bool,
}

/// The transaction id that `tx` names: the one it is recorded under, or the
/// one of the record it refers to.
pub open spec fn target(tx: Transaction) -> TransactionId {
    match tx {
        Transaction::Deposit { new_id, .. } => new_id,
        Transaction::Withdrawal { new_id, .. } => new_id,
        Transaction::Dispute { id } => id,
        Transaction::Resolve { id } => id,
        Transaction::Chargeback { id } => id,
    }
}

impl Balances {
    /// Both balances can be stored.
    pub open spec fn wf(self) -> bool {
        self.available.wf() && self.held.wf()
    }

    /// An account that nothing was applied to.
    pub open spec fn empty() -> Balances {
        Balances {
            available: Dec { mantissa: 0, scale: 0 },
            held: Dec { mantissa: 0, scale: 0 },
            frozen: false,
        }
    }

    /// Whether `tx` is applied or rejected, and why, where `record` is what
    /// the account has on record under the id that `tx` names.
    pub open spec fn verdict(self, record: Option<ProcessedTransaction>, tx: Transaction) -> Result<
        (),
        TransactionError,
    > {
        match tx {
            Transaction::Deposit { .. } => if self.frozen {
                Err(TransactionError::AccountFrozen)
            } else {
                Ok(())
            },
            Transaction::Withdrawal { amount, .. } => if self.frozen {
                Err(TransactionError::AccountFrozen)
            } else if self.available.less_than(amount@) {
                Err(TransactionError::InsufficientFunds)
            } else {
                Ok(())
            },
            Transaction::Dispute { .. } => match record {
                None => Err(TransactionError::NonexistentTransaction),
                Some(found) => if found.state != ProcessedTransactionState::Settled {
                    Err(TransactionError::NotSettled)
                } else {
                    Ok(())
                },
            },
            Transaction::Resolve { .. } | Transaction::Chargeback { .. } => match record {
                None => Err(TransactionError::NonexistentTransaction),
                Some(found) => if found.state != ProcessedTransactionState::Disputed {
                    Err(TransactionError::NotDisputed)
                } else {
                    Ok(())
                },
            },
        }
    }

    /// The amount that `tx` moves: its own, or that of the record it refers
    /// to.
    pub open spec fn moved(record: Option<ProcessedTransaction>, tx: Transaction) -> Dec {
        match tx {
            Transaction::Deposit { amount, .. } => amount@,
            Transaction::Withdrawal { amount, .. } => amount@,
            _ => record->0.amount@,
        }
    }

    /// The available balance once the accepted `tx` is applied, or `None`
    /// where it overflows.
    pub open spec fn available_after(
        self,
        record: Option<ProcessedTransaction>,
        tx: Transaction,
    ) -> Option<Dec> {
        let amount = Self::moved(record, tx);
        match tx {
            Transaction::Deposit { .. } => self.available.plus(amount),
            Transaction::Withdrawal { .. } => self.available.minus(amount),
            Transaction::Dispute { .. } => self.available.minus(amount),
            Transaction::Resolve { .. } => self.available.plus(amount),
            Transaction::Chargeback { .. } => Some(self.available),
        }
    }

    /// The held balance once the accepted `tx` is applied, or `None` where it
    /// overflows.
    pub open spec fn held_after(self, record: Option<ProcessedTransaction>, tx: Transaction)
        -> Option<Dec> {
        let amount = Self::moved(record, tx);
        match tx {
            Transaction::Deposit { .. } => Some(self.held),
            Transaction::Withdrawal { .. } => Some(self.held),
            Transaction::Dispute { .. } => self.held.plus(amount),
            Transaction::Resolve { .. } => self.held.minus(amount),
            Transaction::Chargeback { .. } => self.held.minus(amount),
        }
    }

    /// Decimal arithmetic can carry `tx` out: it is rejected, which takes no
    /// arithmetic, or neither balance overflows.
    pub open spec fn representable(self, record: Option<ProcessedTransaction>, tx: Transaction)
        -> bool {
        self.verdict(record, tx) is Ok ==> self.available_after(record, tx) is Some
            && self.held_after(record, tx) is Some
    }

    /// Moving `amount` from the available to the held funds and back again
    /// takes no rounding.
    pub open spec fn moves_exactly(self, amount: Dec) -> bool {
        &&& self.available.subtracts_exactly(amount)
        &&& self.available.exact_minus(amount).adds_exactly(amount)
        &&& self.held.adds_exactly(amount)
        &&& self.held.exact_plus(amount).subtracts_exactly(amount)
    }

    /// The account after `tx`: unchanged where `tx` is rejected.
    pub open spec fn after(self, record: Option<ProcessedTransaction>, tx: Transaction)
        -> Balances {
        if self.verdict(record, tx) is Err {
            self
        } else {
            Balances {
                available: self.available_after(record, tx)->0,
                held: self.held_after(record, tx)->0,
                frozen: self.frozen || tx is Chargeback,
            }
        }
    }

    /// What the account has on record under the id that `tx` names, after
    /// `tx`: unchanged where `tx` is rejected.
    pub open spec fn record_after(self, record: Option<ProcessedTransaction>, tx: Transaction)
        -> Option<ProcessedTransaction> {
        if self.verdict(record, tx) is Err {
            record
        } else {
            match tx {
                Transaction::Deposit { amount, .. } => Some(
                    ProcessedTransaction { amount, state: ProcessedTransactionState::Settled },
                ),
                Transaction::Withdrawal { amount, .. } => Some(
                    ProcessedTransaction { amount, state: ProcessedTransactionState::Settled },
                ),
                Transaction::Dispute { .. } => Some(
                    ProcessedTransaction {
                        amount: record->0.amount,
                        state: ProcessedTransactionState::Disputed,
                    },
                ),
                Transaction::Resolve { .. } => Some(
                    ProcessedTransaction {
                        amount: record->0.amount,
                        state: ProcessedTransactionState::Settled,
                    },
                ),
                Transaction::Chargeback { .. } => Some(
                    ProcessedTransaction {
                        amount: record->0.amount,
                        state: ProcessedTransactionState::ChargeBacked,
                    },
                ),
            }
        }
    }
}

/// The records of all accounts after `tx` was applied to `account`, whose
/// balances were `balances`: only the record that `tx` names, of that account,
/// can differ.
pub open spec fn records_after(
    records: Map<RecordKey, ProcessedTransaction>,
    account: AccountId,
    balances: Balances,
    tx: Transaction,
) -> Map<RecordKey, ProcessedTransaction> {
    let key = (account, target(tx));
    if balances.verdict(records.get(key), tx) is Ok {
        records.insert(key, balances.record_after(records.get(key), tx)->0)
    } else {
        records
    }
}

/// A frozen account stays frozen whatever is applied to it. It rejects every
/// deposit and every withdrawal as frozen, and it judges a dispute, a resolve
/// or a chargeback as an account that is not frozen would.
pub proof fn lemma_frozen_is_permanent(
    balances: Balances,
    record: Option<ProcessedTransaction>,
    tx: Transaction,
)
    requires
        balances.frozen,
    ensures
        balances.after(record, tx).frozen,
        tx is Deposit || tx is Withdrawal ==> balances.verdict(record, tx) == Err::<
            (),
            TransactionError,
        >(TransactionError::AccountFrozen),
        !(tx is Deposit || tx is Withdrawal) ==> balances.verdict(record, tx) == (Balances {
            frozen: false,
            ..balances
        }).verdict(record, tx),
{
}

/// A record that was charged back takes no further dispute, resolve or
/// chargeback: each is rejected, and record and balances stay as they are.
pub proof fn lemma_charged_back_is_final(
    balances: Balances,
    record: ProcessedTransaction,
    tx: Transaction,
)
    requires
        record.state == ProcessedTransactionState::ChargeBacked,
        tx is Dispute || tx is Resolve || tx is Chargeback,
    ensures
        balances.verdict(Some(record), tx) == Err::<(), TransactionError>(
            if tx is Dispute {
                TransactionError::NotSettled
            } else {
                TransactionError::NotDisputed
            },
        ),
        balances.record_after(Some(record), tx) == Some(record),
        balances.after(Some(record), tx) == balances,
{
}

/// A rejected transaction changes neither the balances nor the record, so
/// applying it once more is rejected for the same reason.
pub proof fn lemma_rejection_repeats(
    balances: Balances,
    record: Option<ProcessedTransaction>,
    tx: Transaction,
)
    requires
        balances.verdict(record, tx) is Err,
    ensures
        balances.after(record, tx) == balances,
        balances.record_after(record, tx) == record,
        balances.after(record, tx).verdict(balances.record_after(record, tx), tx)
            == balances.verdict(record, tx),
{
}

/// A dispute of a settled record followed by its resolve leaves the record
/// settled and both balances at the numbers they had before the dispute, where
/// moving the amount takes no rounding.
pub proof fn lemma_dispute_then_resolve(
    balances: Balances,
    record: ProcessedTransaction,
    id: TransactionId,
)
    requires
        balances.wf(),
        record.amount@.wf(),
        record.state == ProcessedTransactionState::Settled,
        balances.moves_exactly(record.amount@),
    ensures
        ({
            let dispute = Transaction::Dispute { id };
            let resolve = Transaction::Resolve { id };
            let disputed = balances.after(Some(record), dispute);
            let on_hold = balances.record_after(Some(record), dispute);
            let resolved = disputed.after(on_hold, resolve);
            &&& balances.verdict(Some(record), dispute) is Ok
            &&& disputed.verdict(on_hold, resolve) is Ok
            &&& resolved.available.same_value(balances.available)
            &&& resolved.held.same_value(balances.held)
            &&& resolved.frozen == balances.frozen
            &&& disputed.record_after(on_hold, resolve) == Some(record)
        }),
{
    lemma_minus_then_plus(balances.available, record.amount@);
    lemma_plus_then_minus(balances.held, record.amount@);
}

/// A deposit followed by its dispute and then its resolve leaves both balances
/// at the numbers they had after the deposit, where the deposit and the moving
/// of its amount take no rounding.
pub proof fn lemma_deposit_dispute_resolve(
    balances: Balances,
    previous: Option<ProcessedTransaction>,
    new_id: TransactionId,
    amount: Amount,
)
    requires
        balances.wf(),
        amount@.wf(),
        !balances.frozen,
        balances.available.adds_exactly(amount@),
        balances.after(previous, Transaction::Deposit { new_id, amount }).moves_exactly(amount@),
    ensures
        ({
            let deposit = Transaction::Deposit { new_id, amount };
            let dispute = Transaction::Dispute { id: new_id };
            let resolve = Transaction::Resolve { id: new_id };
            let deposited = balances.after(previous, deposit);
            let settled = balances.record_after(previous, deposit);
            let disputed = deposited.after(settled, dispute);
            let on_hold = deposited.record_after(settled, dispute);
            let resolved = disputed.after(on_hold, resolve);
            &&& balances.verdict(previous, deposit) is Ok
            &&& deposited.verdict(settled, dispute) is Ok
            &&& disputed.verdict(on_hold, resolve) is Ok
            &&& resolved.available.same_value(deposited.available)
            &&& resolved.held.same_value(deposited.held)
            &&& resolved.frozen == deposited.frozen
            &&& disputed.record_after(on_hold, resolve) == settled
        }),
{
    let deposit = Transaction::Deposit { new_id, amount };
    let deposited = balances.after(previous, deposit);
    let settled = balances.record_after(previous, deposit);
    lemma_dispute_then_resolve(deposited, settled->0, new_id);
}

/// The funds of one client.
#[derive(Debug)]
pub struct Account {
    frozen: bool,
    available: Amount,
    held: Amount,
}

impl View for Account {
    type V = Balances;

    closed spec fn view(&self) -> Balances {
        Balances { available: self.available@, held: self.held@, frozen: self.frozen }
    }
}

impl Default for Account {
    /// An account with nothing in it, not frozen.
    fn default() -> (r: Account)
        ensures
            r@ == Balances::empty(),
    {
        Account { frozen: false, available: Amount::zero(), held: Amount::zero() }
    }
}

impl Account {
    /// The funds set aside by disputes.
    pub fn held(&self) -> (r: Balance)
        ensures
            r@ == self@.held,
    {
        self.held
    }

    /// The funds the client can withdraw.
    pub fn available(&self) -> (r: Balance)
        ensures
            r@ == self@.available,
    {
        self.available
    }

    /// Available and held funds together. The sum must not overflow;
    /// `checked_total` tests that.
    pub fn total(&self) -> (r: Balance)
        requires
            self@.available.plus(self@.held) is Some,
        ensures
            Some(r@) == self@.available.plus(self@.held),
    {
        self.available.checked_add(self.held).unwrap()
    }

    /// Available and held funds together, or `None` where the sum overflows.
    pub fn checked_total(&self) -> (r: Option<Balance>)
        ensures
            r is Some <==> self@.available.plus(self@.held) is Some,
            r matches Some(total) ==> Some(total@) == self@.available.plus(self@.held),
    {
        if self.available.checked_add(self.held).is_some() {
            Some(self.total())
        } else {
            None
        }
    }

    /// Whether the account is frozen.
    pub fn is_frozen(&self) -> (r: bool)
        ensures
            r == self@.frozen,
    {
        self.frozen
    }

    /// Applies `transaction` to this account, whose records are `past_txs`.
    ///
    /// A deposit or withdrawal is recorded as settled under its id and moves
    /// its amount into or out of the available funds; a frozen account takes
    /// neither, and a withdrawal takes no more than is available. A dispute of
    /// a settled record moves its amount from available to held, a resolve of a
    /// disputed record moves it back, and a chargeback of a disputed record
    /// removes it from the held funds and freezes the account. A rejected
    /// transaction changes nothing.
    ///
    /// The balances must not overflow; `checked_apply_transaction` tests that.
    pub fn try_apply_transaction(
        &mut self,
        past_txs: &mut ProcessedTxsForAccount,
        transaction: Transaction,
    ) -> (r: Result<(), TransactionError>)
        requires
            old(self)@.representable(old(past_txs).record(target(transaction)), transaction),
        ensures
            r == old(self)@.verdict(old(past_txs).record(target(transaction)), transaction),
            final(self)@ == old(self)@.after(
                old(past_txs).record(target(transaction)),
                transaction,
            ),
            final(past_txs).processed@ == records_after(
                old(past_txs).processed@,
                old(past_txs).account,
                old(self)@,
                transaction,
            ),
            final(past_txs).account == old(past_txs).account,
            *final(final(past_txs).processed) == *final(old(past_txs).processed),
    {
        match transaction {
            Transaction::Deposit { new_id, amount } => {
                if self.frozen {
                    return Err(TransactionError::AccountFrozen);
                }
                past_txs.insert_processed(
                    new_id,
                    ProcessedTransaction { amount, state: ProcessedTransactionState::Settled },
                );
                self.available = self.available.checked_add(amount).unwrap();
            },
            Transaction::Withdrawal { new_id, amount } => {
                if self.frozen {
                    return Err(TransactionError::AccountFrozen);
                }
                if self.available.less_than(&amount) {
                    return Err(TransactionError::InsufficientFunds);
                }
                past_txs.insert_processed(
                    new_id,
                    ProcessedTransaction { amount, state: ProcessedTransactionState::Settled },
                );
                self.available = self.available.checked_sub(amount).unwrap();
            },
            Transaction::Dispute { id } => {
                let processed_transaction = match past_txs.find(id) {
                    Some(found) => found,
                    None => {
                        return Err(TransactionError::NonexistentTransaction);
                    },
                };
                if processed_transaction.state != ProcessedTransactionState::Settled {
                    return Err(TransactionError::NotSettled);
                }
                processed_transaction.state = ProcessedTransactionState::Disputed;
                self.available = self.available.checked_sub(processed_transaction.amount).unwrap();
                self.held = self.held.checked_add(processed_transaction.amount).unwrap();
            },
            Transaction::Resolve { id } => {
                let processed_transaction = match past_txs.find(id) {
                    Some(found) => found,
                    None => {
                        return Err(TransactionError::NonexistentTransaction);
                    },
                };
                if processed_transaction.state != ProcessedTransactionState::Disputed {
                    return Err(TransactionError::NotDisputed);
                }
                processed_transaction.state = ProcessedTransactionState::Settled;
                self.available = self.available.checked_add(processed_transaction.amount).unwrap();
                self.held = self.held.checked_sub(processed_transaction.amount).unwrap();
            },
            Transaction::Chargeback { id } => {
                let processed_transaction = match past_txs.find(id) {
                    Some(found) => found,
                    None => {
                        return Err(TransactionError::NonexistentTransaction);
                    },
                };
                if processed_transaction.state != ProcessedTransactionState::Disputed {
                    return Err(TransactionError::NotDisputed);
                }
                processed_transaction.state = ProcessedTransactionState::ChargeBacked;
                self.frozen = true;
                self.held = self.held.checked_sub(processed_transaction.amount).unwrap();
            },
        };
        Ok(())
    }

    /// Applies `transaction` as `try_apply_transaction` does, unless a balance
    /// would overflow: then nothing changes and the result is `None`.
    pub fn checked_apply_transaction(
        &mut self,
        past_txs: &mut ProcessedTxsForAccount,
        transaction: Transaction,
    ) -> (r: Option<Result<(), TransactionError>>)
        ensures
            r is Some <==> old(self)@.representable(
                old(past_txs).record(target(transaction)),
                transaction,
            ),
            r matches Some(outcome) ==> {
                &&& outcome == old(self)@.verdict(
                    old(past_txs).record(target(transaction)),
                    transaction,
                )
                &&& final(self)@ == old(self)@.after(
                    old(past_txs).record(target(transaction)),
                    transaction,
                )
                &&& final(past_txs).processed@ == records_after(
                    old(past_txs).processed@,
                    old(past_txs).account,
                    old(self)@,
                    transaction,
                )
            },
            r is None ==> final(self)@ == old(self)@ && final(past_txs).processed@ == old(
                past_txs,
            ).processed@,
            final(past_txs).account == old(past_txs).account,
            *final(final(past_txs).processed) == *final(old(past_txs).processed),
    {
        if self.fits(past_txs, transaction) {
            Some(self.try_apply_transaction(past_txs, transaction))
        } else {
            None
        }
    }

    /// Whether decimal arithmetic can carry `transaction` out, so that
    /// `try_apply_transaction` can be called. The records stay as they are.
    pub fn fits(&self, past_txs: &mut ProcessedTxsForAccount, transaction: Transaction) -> (r: bool)
        ensures
            r == self@.representable(old(past_txs).record(target(transaction)), transaction),
            final(past_txs).processed@ == old(past_txs).processed@,
            final(past_txs).account == old(past_txs).account,
            *final(final(past_txs).processed) == *final(old(past_txs).processed),
    {
        match transaction {
            Transaction::Deposit { amount, .. } => self.frozen || self.available.checked_add(
                amount,
            ).is_some(),
            Transaction::Withdrawal { amount, .. } => self.frozen || self.available.less_than(
                &amount,
            ) || self.available.checked_sub(amount).is_some(),
            Transaction::Dispute { id } => match peek(past_txs, id) {
                Some(found) => found.state != ProcessedTransactionState::Settled || (
                self.available.checked_sub(found.amount).is_some() && self.held.checked_add(
                    found.amount,
                ).is_some()),
                None => true,
            },
            Transaction::Resolve { id } => match peek(past_txs, id) {
                Some(found) => found.state != ProcessedTransactionState::Disputed || (
                self.available.checked_add(found.amount).is_some() && self.held.checked_sub(
                    found.amount,
                ).is_some()),
                None => true,
            },
            Transaction::Chargeback { id } => match peek(past_txs, id) {
                Some(found) => found.state != ProcessedTransactionState::Disputed
                    || self.held.checked_sub(found.amount).is_some(),
                None => true,
            },
        }
    }
}

/// A copy of the account's record of the transaction `id`, if it has one.
fn peek(past_txs: &mut ProcessedTxsForAccount, id: TransactionId) -> (r: Option<
    ProcessedTransaction,
>)
    ensures
        r == old(past_txs).record(id),
        final(past_txs).processed@ == old(past_txs).processed@,
        final(past_txs).account == old(past_txs).account,
        *final(final(past_txs).processed) == *final(old(past_txs).processed),
{
    let r = match past_txs.find(id) {
        Some(found) => Some(*found),
        None => None,
    };
    assert(past_txs.processed@ =~= old(past_txs).processed@);
    r
}

} // verus!
