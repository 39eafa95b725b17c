use vstd::prelude::*;

use crate::amount::Amount;
use crate::transaction::{Transaction, TransactionType};

verus! {

/// An account's state, with balances as mathematical integers of units.
pub ghost struct AccountView {
    pub client_id: u16,
    pub available: int,
    pub held: int,
    pub total: int,
    pub locked: bool,
}

impl AccountView {
    /// Total funds are the available funds plus the held funds.
    pub open spec fn is_balanced(self) -> bool {
        self.total == self.available + self.held
    }

    /// Every balance can be held in an `Amount`.
    pub open spec fn fits(self) -> bool {
        &&& i128::MIN <= self.available <= i128::MAX
        &&& i128::MIN <= self.held <= i128::MAX
        &&& i128::MIN <= self.total <= i128::MAX
    }
}

/// The state of an account that has seen no settlement yet.
pub open spec fn fresh_account(id: u16) -> AccountView {
    AccountView { client_id: id, available: 0, held: 0, total: 0, locked: false }
}

/// The optional record behind an optional reference.
pub open spec fn referenced(r: Option<&Transaction>) -> Option<Transaction> {
    match r {
        Some(t) => Some(*t),
        None => None,
    }
}

/// The amount that a settlement moves: a deposit's or withdrawal's own
/// amount, and for the dispute family the amount of the referenced record.
pub open spec fn moved_amount(tx: Transaction, ref_tx: Option<Transaction>) -> Option<int> {
    if tx.kind.is_direct() {
        match tx.amount {
            Some(a) => Some(a@),
            None => None,
        }
    } else {
        match ref_tx {
            Some(r) => match r.amount {
                Some(a) => Some(a@),
                None => None,
            },
            None => None,
        }
    }
}

/// The account after settling `tx` against it, with `ref_tx` the record that
/// a dispute, resolve or chargeback refers to. A record with no amount to
/// move, and a withdrawal above the available funds, leave it unchanged.
pub open spec fn settle(a: AccountView, tx: Transaction, ref_tx: Option<Transaction>) -> AccountView {
    match moved_amount(tx, ref_tx) {
        None => a,
        Some(x) => match tx.kind {
            TransactionType::Deposit => AccountView {
                available: a.available + x,
                total: a.total + x,
                ..a
            },
            TransactionType::Withdrawal => if a.available >= x {
                AccountView { available: a.available - x, total: a.total - x, ..a }
            } else {
                a
            },
            TransactionType::Dispute => AccountView {
                available: a.available - x,
                held: a.held + x,
                ..a
            },
            TransactionType::Resolve => AccountView {
                available: a.available + x,
                held: a.held - x,
                ..a
            },
            TransactionType::Chargeback => AccountView {
                held: a.held - x,
                total: a.total - x,
                locked: true,
                ..a
            },
        },
    }
}

/// The account after settling each `(record, referenced record)` pair of
/// `steps` in order.
pub open spec fn settle_all(a: AccountView, steps: Seq<(Transaction, Option<Transaction>)>) -> AccountView
    decreases steps.len(),
{
    if steps.len() == 0 {
        a
    } else {
        let last = steps.last();
        settle(settle_all(a, steps.drop_last()), last.0, last.1)
    }
}

/// A settlement never changes `total - (available + held)`: an account that
/// starts balanced stays balanced after any sequence of settlements.
pub proof fn lemma_settlements_keep_balance(
    a: AccountView,
    steps: Seq<(Transaction, Option<Transaction>)>,
)
    requires
        a.is_balanced(),
    ensures
        settle_all(a, steps).is_balanced(),
    decreases steps.len(),
{
    if steps.len() > 0 {
        lemma_settlements_keep_balance(a, steps.drop_last());
    }
}

/// A deposit of `A` into a fresh account leaves `A` available and in total,
/// nothing held, and the account unlocked.
pub proof fn lemma_deposit_into_fresh_account(id: u16, tx: Transaction, ref_tx: Option<Transaction>)
    requires
        tx.kind == TransactionType::Deposit,
        tx.amount is Some,
    ensures
        ({
            let r = settle(fresh_account(id), tx, ref_tx);
            let x = tx.amount.unwrap()@;
            &&& r.available == x
            &&& r.total == x
            &&& r.held == 0
            &&& !r.locked
        }),
{
}

/// A withdrawal of more than the available funds leaves the account unchanged.
pub proof fn lemma_withdrawal_over_available(a: AccountView, tx: Transaction, ref_tx: Option<Transaction>)
    requires
        tx.kind == TransactionType::Withdrawal,
        tx.amount matches Some(x) && a.available < x@,
    ensures
        settle(a, tx, ref_tx) == a,
{
}

/// Disputing a deposit of `A` moves `A` from the available funds to the held
/// funds and leaves the total unchanged.
pub proof fn lemma_dispute_of_deposit(a: AccountView, dispute: Transaction, deposit: Transaction)
    requires
        dispute.kind == TransactionType::Dispute,
        deposit.kind == TransactionType::Deposit,
        deposit.amount is Some,
    ensures
        ({
            let r = settle(a, dispute, Some(deposit));
            let x = deposit.amount.unwrap()@;
            &&& r.available == a.available - x
            &&& r.held == a.held + x
            &&& r.total == a.total
            &&& r.locked == a.locked
            &&& r.client_id == a.client_id
        }),
{
}

/// Resolving a dispute of a deposit of `A` moves `A` back from the held funds
/// to the available funds, leaving the total unchanged: the dispute and the
/// resolve together leave the account as it was.
pub proof fn lemma_resolve_after_dispute(
    a: AccountView,
    dispute: Transaction,
    resolve: Transaction,
    deposit: Transaction,
)
    requires
        dispute.kind == TransactionType::Dispute,
        resolve.kind == TransactionType::Resolve,
        deposit.kind == TransactionType::Deposit,
        deposit.amount is Some,
    ensures
        ({
            let disputed = settle(a, dispute, Some(deposit));
            let r = settle(disputed, resolve, Some(deposit));
            let x = deposit.amount.unwrap()@;
            &&& r.available == disputed.available + x
            &&& r.held == disputed.held - x
            &&& r.total == disputed.total
            &&& r == a
        }),
{
}

/// A chargeback after a dispute of a deposit of `A` takes `A` out of the held
/// funds and out of the total, and locks the account.
pub proof fn lemma_chargeback_after_dispute(
    a: AccountView,
    dispute: Transaction,
    chargeback: Transaction,
    deposit: Transaction,
)
    requires
        dispute.kind == TransactionType::Dispute,
        chargeback.kind == TransactionType::Chargeback,
        deposit.kind == TransactionType::Deposit,
        deposit.amount is Some,
    ensures
        ({
            let disputed = settle(a, dispute, Some(deposit));
            let r = settle(disputed, chargeback, Some(deposit));
            let x = deposit.amount.unwrap()@;
            &&& r.available == disputed.available
            &&& r.held == disputed.held - x
            &&& r.total == disputed.total - x
            &&& r.locked
        }),
{
}

/// A locked account stays locked whatever is settled against it afterwards.
pub proof fn lemma_lock_is_permanent(a: AccountView, steps: Seq<(Transaction, Option<Transaction>)>)
    requires
        a.locked,
    ensures
        settle_all(a, steps).locked,
    decreases steps.len(),
{
    if steps.len() > 0 {
        lemma_lock_is_permanent(a, steps.drop_last());
    }
}

/// A client's balances and lock status.
#[derive(Clone, Copy, Debug)]
pub struct Account {
    pub client_id: u16,
    pub funds_available: Amount,
    pub funds_held: Amount,
    pub funds_total: Amount,
    pub locked: bool,
}

impl View for Account {
    type V = AccountView;

    open spec fn view(&self) -> AccountView {
        AccountView {
            client_id: self.client_id,
            available: self.funds_available@,
            held: self.funds_held@,
            total: self.funds_total@,
            locked: self.locked,
        }
    }
}

impl Account {
    /// An unlocked account of client `id` with no funds.
    pub fn new(id: u16) -> (r: Account)
        ensures
            r@ == fresh_account(id),
    {
        Account {
            client_id: id,
            funds_available: Amount::zero(),
            funds_held: Amount::zero(),
            funds_total: Amount::zero(),
            locked: false,
        }
    }

    /// Applies `tx` to this account; `ref_tx` is the earlier deposit or
    /// withdrawal that a dispute, resolve or chargeback refers to.
    pub fn settle_transaction(&mut self, tx: &Transaction, ref_tx: Option<&Transaction>)
        requires
            settle(old(self)@, *tx, referenced(ref_tx)).fits(),
        ensures
            final(self)@ == settle(old(self)@, *tx, referenced(ref_tx)),
            old(self)@.is_balanced() ==> final(self)@.is_balanced(),
    {
        let moved: Option<Amount> = match tx.kind {
            TransactionType::Deposit | TransactionType::Withdrawal => tx.amount,
            _ => match ref_tx {
                Some(r) => r.amount,
                None => None,
            },
        };
        if let Some(x) = moved {
            match tx.kind {
                TransactionType::Deposit => {
                    self.funds_available = Amount { units: self.funds_available.units + x.units };
                    self.funds_total = Amount { units: self.funds_total.units + x.units };
                },
                TransactionType::Withdrawal => {
                    if self.funds_available.units >= x.units {
                        self.funds_available = Amount {
                            units: self.funds_available.units - x.units,
                        };
                        self.funds_total = Amount { units: self.funds_total.units - x.units };
                    }
                },
                TransactionType::Dispute => {
                    self.funds_available = Amount { units: self.funds_available.units - x.units };
                    self.funds_held = Amount { units: self.funds_held.units + x.units };
                },
                TransactionType::Resolve => {
                    self.funds_available = Amount { units: self.funds_available.units + x.units };
                    self.funds_held = Amount { units: self.funds_held.units - x.units };
                },
                TransactionType::Chargeback => {
                    self.funds_held = Amount { units: self.funds_held.units - x.units };
                    self.funds_total = Amount { units: self.funds_total.units - x.units };
                    self.locked = true;
                },
            }
        }
    }
}

} // verus!
