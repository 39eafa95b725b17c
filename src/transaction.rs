use vstd::prelude::*;

use crate::amount::Amount;

verus! {

/// The five kinds of record that the log holds.
#[derive(Clone, Copy, Debug, PartialEq, Eq, Structural)]
pub enum TransactionType {
    Deposit,
    Withdrawal,
    Dispute,
    Resolve,
    Chargeback,
}

/// One record of the log. Deposits and withdrawals carry an amount and are
/// identified by `tx_id`; the dispute family reuses the `tx_id` of the record
/// it refers to and carries no amount.
#[derive(Clone, Copy, Debug)]
pub struct Transaction {
    pub kind: TransactionType,
    pub client_id: u16,
    pub tx_id: u32,
    pub amount: Option<Amount>,
}

impl TransactionType {
    /// Deposits and withdrawals settle on their own; the other kinds refer
    /// to an earlier deposit or withdrawal.
    pub open spec fn is_direct(self) -> bool {
        self == TransactionType::Deposit || self == TransactionType::Withdrawal
    }
}

} // verus!
