//! The transactions a ledger accepts, and the reasons it rejects one.

use crate::amount::Amount;
use vstd::prelude::*;

verus! {

/// Identifies a deposit or a withdrawal.
pub type TransactionId = u32;

/// Identifies a client's account.
pub type AccountId = u16;

/// The amount that a deposit or a withdrawal moves.
pub type TransactionAmount = Amount;

/// A balance of an account.
pub type Balance = Amount;

/// One transaction, to be applied to one account.
#[derive(Clone, Copy, Debug, PartialEq)]
pub enum Transaction {
    /// Credits `amount` and records it under `new_id`.
    Deposit { new_id: TransactionId, amount: TransactionAmount },
    /// Debits `amount` and records it under `new_id`.
    Withdrawal { new_id: TransactionId, amount: TransactionAmount },
    /// Puts the amount of the recorded transaction `id` on hold.
    Dispute { id: TransactionId },
    /// Releases the amount of the disputed transaction `id`.
    Resolve { id: TransactionId },
    /// Reverses the disputed transaction `id` and freezes the account.
    Chargeback { id: TransactionId },
}

/// Why a transaction was not applied.
#[derive(Clone, Copy, Debug, PartialEq, Eq, Structural)]
pub enum TransactionError {
    /// A deposit or withdrawal on a frozen account.
    AccountFrozen,
    /// A withdrawal of more than is available.
    InsufficientFunds,
    /// A dispute, resolve or chargeback of a transaction the account has no
    /// record of.
    NonexistentTransaction,
    /// A dispute of a transaction that is not settled.
    NotSettled,
    /// A resolve or chargeback of a transaction that is not disputed.
    NotDisputed,
}

} // verus!
