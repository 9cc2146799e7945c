//! A ledger of client accounts that takes deposits, withdrawals, disputes,
//! resolves and chargebacks.
//!
//! [`ledger::Ledger`] owns every account and the record of every deposit and
//! withdrawal. [`account::Account`] holds the rules by which one transaction
//! changes one account, and [`amount::Amount`] is the decimal number that all
//! funds are counted in. [`record`] turns input records into transactions.

pub mod account;
pub mod amount;
pub mod ledger;
pub mod record;
pub mod transaction;
