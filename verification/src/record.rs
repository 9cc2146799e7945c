//! Input records: one line of a transaction file, before it is known to be a
//! complete transaction.

use crate::transaction::{AccountId, Transaction, TransactionAmount, TransactionId};
use vstd::prelude::*;

verus! {

/// The kind of transaction that a record names.
#[derive(Clone, Copy, Debug, PartialEq, Eq, Structural)]
pub enum RecordType {
    Deposit,
    Withdrawal,
    Dispute,
    Resolve,
    Chargeback,
}

/// One input record. Every kind of record may carry an amount, and only a
/// deposit or a withdrawal needs one.
#[derive(Clone, Copy, Debug)]
pub struct Record {
    pub record_type: RecordType,
    pub client: AccountId,
    pub tx: TransactionId,
    pub amount: Option<TransactionAmount>,
}

/// Why a record is no transaction.
#[derive(Clone, Copy, Debug, PartialEq, Eq, Structural)]
pub enum RecordError {
    /// A deposit or a withdrawal without an amount.
    MissingAmount,
}

/// The account and the transaction that `record` stands for. A deposit or a
/// withdrawal takes its amount from the record; the other kinds ignore the
/// amount.
pub open spec fn transaction_of(record: Record) -> Result<(AccountId, Transaction), RecordError> {
    match (record.record_type, record.amount) {
        (RecordType::Deposit, Some(amount)) => Ok(
            (record.client, Transaction::Deposit { new_id: record.tx, amount }),
        ),
        (RecordType::Withdrawal, Some(amount)) => Ok(
            (record.client, Transaction::Withdrawal { new_id: record.tx, amount }),
        ),
        (RecordType::Deposit, None) | (RecordType::Withdrawal, None) => Err(
            RecordError::MissingAmount,
        ),
        (RecordType::Dispute, _) => Ok((record.client, Transaction::Dispute { id: record.tx })),
        (RecordType::Resolve, _) => Ok((record.client, Transaction::Resolve { id: record.tx })),
        (RecordType::Chargeback, _) => Ok(
            (record.client, Transaction::Chargeback { id: record.tx }),
        ),
    }
}

/// Turns a record into the transaction it stands for and the account it is
/// for, or says what the record lacks.
pub fn record_to_transaction(record: &Record) -> (r: Result<(AccountId, Transaction), RecordError>)
    ensures
        r == transaction_of(*record),
{
    let tx = match record.record_type {
        RecordType::Deposit => match record.amount {
            Some(amount) => Transaction::Deposit { new_id: record.tx, amount },
            None => {
                return Err(RecordError::MissingAmount);
            },
        },
        RecordType::Withdrawal => match record.amount {
            Some(amount) => Transaction::Withdrawal { new_id: record.tx, amount },
            None => {
                return Err(RecordError::MissingAmount);
            },
        },
        RecordType::Dispute => Transaction::Dispute { id: record.tx },
        RecordType::Resolve => Transaction::Resolve { id: record.tx },
        RecordType::Chargeback => Transaction::Chargeback { id: record.tx },
    };
    Ok((record.client, tx))
}

} // verus!
