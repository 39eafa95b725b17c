use std::collections::HashMap;
use std::collections::VecDeque;

use vstd::prelude::*;

use crate::account::{fresh_account, settle, Account, AccountView};
use crate::amount::MAX_UNITS;
use crate::transaction::{Transaction, TransactionType};

verus! {

broadcast use vstd::std_specs::hash::group_hash_axioms;

/// Largest number of records that one replay takes.
pub const MAX_RECORDS: usize = 1073741824;

/// The state of a replay: the accounts seen so far, the deposits and
/// withdrawals by transaction id, and the records that wait for the record
/// they refer to.
pub ghost struct Replay {
    pub accounts: Map<u16, AccountView>,
    pub refs: Map<u32, Transaction>,
    pub waiting: Seq<Transaction>,
}

/// A replay that has seen nothing.
pub open spec fn empty_replay() -> Replay {
    Replay { accounts: Map::empty(), refs: Map::empty(), waiting: Seq::empty() }
}

/// The account of client `id`, or a fresh one where it has none yet.
pub open spec fn account_of(m: Map<u16, AccountView>, id: u16) -> AccountView {
    if m.contains_key(id) {
        m[id]
    } else {
        fresh_account(id)
    }
}

/// One step of the replay. The client's account is created where it is
/// missing. A deposit or withdrawal settles and becomes referenceable under
/// its id; any other record settles against the record that its id names,
/// or waits at the back of the queue where there is none yet.
pub open spec fn replay_step(s: Replay, tx: Transaction) -> Replay {
    let acc = account_of(s.accounts, tx.client_id);
    if tx.kind.is_direct() {
        Replay {
            accounts: s.accounts.insert(tx.client_id, settle(acc, tx, None)),
            refs: s.refs.insert(tx.tx_id, tx),
            waiting: s.waiting,
        }
    } else if s.refs.contains_key(tx.tx_id) {
        Replay {
            accounts: s.accounts.insert(tx.client_id, settle(acc, tx, Some(s.refs[tx.tx_id]))),
            ..s
        }
    } else {
        Replay { accounts: s.accounts.insert(tx.client_id, acc), waiting: s.waiting.push(tx), ..s }
    }
}

/// The replay after taking the records of `txs` in order, starting from `s`.
pub open spec fn replay_from(s: Replay, txs: Seq<Transaction>) -> Replay
    decreases txs.len(),
{
    if txs.len() == 0 {
        s
    } else {
        replay_step(replay_from(s, txs.drop_last()), txs.last())
    }
}

/// The state in which the queue's second round starts: the records that
/// waited in the first round are taken again, in the order they waited.
pub open spec fn second_round(first: Replay) -> Replay {
    Replay { waiting: Seq::empty(), ..first }
}

/// The outcome of replaying the log `txs`. A first round takes every record
/// in order; the records that found no referenced record then come round
/// once more, in the order they were put back. Only deposits and withdrawals
/// become referenceable, so a record that still finds none in that round
/// would find none in any later one: it is left unsettled, in `waiting`.
pub open spec fn replay(txs: Seq<Transaction>) -> Replay {
    let first = replay_from(empty_replay(), txs);
    replay_from(second_round(first), first.waiting)
}

/// The states of the accounts of a map.
pub open spec fn views_of(m: Map<u16, Account>) -> Map<u16, AccountView> {
    m.map_values(|a: Account| a@)
}

/// `x` lies within `b` of zero.
pub open spec fn within(x: int, b: int) -> bool {
    -b <= x <= b
}

/// A record whose amount, if it is one that settlements move, is within
/// `MAX_UNITS` of zero.
pub open spec fn record_in_range(t: Transaction) -> bool {
    t.kind.is_direct() ==> match t.amount {
        Some(a) => within(a@, MAX_UNITS as int),
        None => true,
    }
}

/// Every account is balanced and each of its balances lies within `b` of zero.
pub open spec fn accounts_in_range(m: Map<u16, AccountView>, b: int) -> bool {
    forall|id: u16|
        #![trigger m[id]]
        m.contains_key(id) ==> {
            &&& m[id].is_balanced()
            &&& within(m[id].available, b)
            &&& within(m[id].held, b)
            &&& within(m[id].total, b)
        }
}

/// Every referenceable record is a deposit or withdrawal within range.
pub open spec fn refs_in_range(m: Map<u32, Transaction>) -> bool {
    forall|id: u32| #![trigger m[id]] m.contains_key(id) ==> m[id].kind.is_direct() && record_in_range(m[id])
}

proof fn lemma_step_in_range(s: Replay, tx: Transaction, b: int)
    requires
        b >= 0,
        accounts_in_range(s.accounts, b),
        refs_in_range(s.refs),
        record_in_range(tx),
    ensures
        accounts_in_range(replay_step(s, tx).accounts, b + MAX_UNITS),
        refs_in_range(replay_step(s, tx).refs),
{
    let acc = account_of(s.accounts, tx.client_id);
    assert(acc.is_balanced() && within(acc.available, b) && within(acc.held, b) && within(acc.total, b));
    let t = replay_step(s, tx);
    assert forall|id: u16| #![trigger t.accounts[id]] t.accounts.contains_key(id) implies {
        &&& t.accounts[id].is_balanced()
        &&& within(t.accounts[id].available, b + MAX_UNITS)
        &&& within(t.accounts[id].held, b + MAX_UNITS)
        &&& within(t.accounts[id].total, b + MAX_UNITS)
    } by {
        if id != tx.client_id {
            assert(s.accounts.contains_key(id));
        }
    }
}

/// Takes one record of the replay against the account map, the index of
/// referenceable records and the queue of waiting records.
fn apply_record(
    accounts: &mut HashMap<u16, Account>,
    refs: &mut HashMap<u32, Transaction>,
    waiting: &mut VecDeque<Transaction>,
    tx: Transaction,
    Ghost(b): Ghost<int>,
)
    requires
        0 <= b,
        b + MAX_UNITS <= i128::MAX,
        accounts_in_range(views_of(old(accounts)@), b),
        refs_in_range(old(refs)@),
        record_in_range(tx),
    ensures
        ({
            let s = replay_step(
                Replay {
                    accounts: views_of(old(accounts)@),
                    refs: old(refs)@,
                    waiting: old(waiting)@,
                },
                tx,
            );
            &&& views_of(final(accounts)@) == s.accounts
            &&& final(refs)@ == s.refs
            &&& final(waiting)@ == s.waiting
        }),
        accounts_in_range(views_of(final(accounts)@), b + MAX_UNITS),
        refs_in_range(final(refs)@),
{
    let ghost s = Replay { accounts: views_of(accounts@), refs: refs@, waiting: waiting@ };
    proof {
        lemma_step_in_range(s, tx, b);
    }
    let mut acc = match accounts.get(&tx.client_id) {
        Some(a) => *a,
        None => Account::new(tx.client_id),
    };
    assert(acc@ == account_of(s.accounts, tx.client_id));
    match tx.kind {
        TransactionType::Deposit | TransactionType::Withdrawal => {
            acc.settle_transaction(&tx, None);
            refs.insert(tx.tx_id, tx);
        },
        _ => {
            match refs.get(&tx.tx_id) {
                Some(r) => {
                    acc.settle_transaction(&tx, Some(r));
                },
                None => {
                    waiting.push_back(tx);
                },
            }
        },
    }
    accounts.insert(tx.client_id, acc);
    assert(views_of(accounts@) =~= replay_step(s, tx).accounts);
}

/// Every waiting record belongs to the dispute family, names an id with no
/// referenceable record, and belongs to a client that has an account.
pub open spec fn waiting_is_stuck(s: Replay) -> bool {
    forall|k: int|
        0 <= k < s.waiting.len() ==> {
            let t = #[trigger] s.waiting[k];
            &&& !t.kind.is_direct()
            &&& !s.refs.contains_key(t.tx_id)
            &&& s.accounts.contains_key(t.client_id)
        }
}

proof fn lemma_waiting_not_direct(s: Replay, txs: Seq<Transaction>)
    requires
        forall|k: int| 0 <= k < s.waiting.len() ==> !(#[trigger] s.waiting[k]).kind.is_direct(),
    ensures
        forall|k: int|
            0 <= k < replay_from(s, txs).waiting.len() ==> !(#[trigger] replay_from(
                s,
                txs,
            ).waiting[k]).kind.is_direct(),
    decreases txs.len(),
{
    if txs.len() > 0 {
        lemma_waiting_not_direct(s, txs.drop_last());
    }
}

proof fn lemma_round_of_disputes(s: Replay, txs: Seq<Transaction>)
    requires
        waiting_is_stuck(s),
        forall|k: int| 0 <= k < txs.len() ==> !(#[trigger] txs[k]).kind.is_direct(),
    ensures
        replay_from(s, txs).refs == s.refs,
        waiting_is_stuck(replay_from(s, txs)),
    decreases txs.len(),
{
    if txs.len() > 0 {
        let prev = txs.drop_last();
        lemma_round_of_disputes(s, prev);
        assert(!txs[txs.len() - 1].kind.is_direct());
    }
}

proof fn lemma_stuck_round_changes_nothing(s: Replay, k: int)
    requires
        waiting_is_stuck(s),
        0 <= k <= s.waiting.len(),
    ensures
        replay_from(second_round(s), s.waiting.take(k)) == (Replay {
            waiting: s.waiting.take(k),
            ..s
        }),
    decreases k,
{
    if k > 0 {
        lemma_stuck_round_changes_nothing(s, k - 1);
        assert(s.waiting.take(k).drop_last() =~= s.waiting.take(k - 1));
        let t = s.waiting[k - 1];
        assert(s.accounts.insert(t.client_id, s.accounts[t.client_id]) =~= s.accounts);
        assert(s.waiting.take(k - 1).push(t) =~= s.waiting.take(k));
    } else {
        assert(s.waiting.take(0) =~= Seq::<Transaction>::empty());
    }
}

/// The records that a replay leaves unsettled would never settle: taking
/// them round the queue once more leaves the accounts, the referenceable
/// records and the unsettled records as they are.
pub proof fn lemma_unsettled_never_settle(txs: Seq<Transaction>)
    ensures
        replay_from(second_round(replay(txs)), replay(txs).waiting) == replay(txs),
{
    let first = replay_from(empty_replay(), txs);
    lemma_waiting_not_direct(empty_replay(), txs);
    lemma_round_of_disputes(second_round(first), first.waiting);
    let r = replay(txs);
    lemma_stuck_round_changes_nothing(r, r.waiting.len() as int);
    assert(r.waiting.take(r.waiting.len() as int) =~= r.waiting);
}

proof fn lemma_room(k: int)
    requires
        0 <= k < 2 * MAX_RECORDS,
    ensures
        0 <= k * MAX_UNITS,
        k * MAX_UNITS + MAX_UNITS <= i128::MAX,
        (k + 1) * MAX_UNITS == k * MAX_UNITS + MAX_UNITS,
{
    assert(0 <= k * MAX_UNITS && k * MAX_UNITS + MAX_UNITS <= i128::MAX && (k + 1) * MAX_UNITS
        == k * MAX_UNITS + MAX_UNITS) by (nonlinear_arith)
        requires
            0 <= k < 2 * MAX_RECORDS,
    ;
}

/// Replays the log `txs` as a queue: each record is taken from the front; a
/// dispute, resolve or chargeback whose referenced record has not been seen
/// yet goes to the back. Returns the final accounts by client, and the
/// records that could never settle because their referenced record never
/// comes, in queue order: a queue that kept putting them back would cycle
/// on them forever (see `lemma_unsettled_never_settle`).
pub fn replay_transactions(txs: &VecDeque<Transaction>) -> (r: (
    HashMap<u16, Account>,
    VecDeque<Transaction>,
))
    requires
        txs@.len() <= MAX_RECORDS,
        forall|i: int| 0 <= i < txs@.len() ==> record_in_range(#[trigger] txs@[i]),
    ensures
        views_of(r.0@) == replay(txs@).accounts,
        r.1@ == replay(txs@).waiting,
        forall|id: u16| #[trigger] r.0@.contains_key(id) ==> r.0@[id]@.is_balanced(),
{
    let mut accounts: HashMap<u16, Account> = HashMap::new();
    let mut refs: HashMap<u32, Transaction> = HashMap::new();
    let mut waiting: VecDeque<Transaction> = VecDeque::new();
    assert(views_of(accounts@) =~= Map::empty());
    let n = txs.len();
    let mut i: usize = 0;
    while i < n
        invariant
            n == txs@.len(),
            n <= MAX_RECORDS,
            forall|k: int| 0 <= k < txs@.len() ==> record_in_range(#[trigger] txs@[k]),
            0 <= i <= n,
            ({
                let s = replay_from(empty_replay(), txs@.take(i as int));
                &&& views_of(accounts@) == s.accounts
                &&& refs@ == s.refs
                &&& waiting@ == s.waiting
            }),
            accounts_in_range(views_of(accounts@), i * MAX_UNITS),
            refs_in_range(refs@),
            waiting@.len() <= i,
            forall|k: int| 0 <= k < waiting@.len() ==> record_in_range(#[trigger] waiting@[k]),
        decreases n - i,
    {
        let tx = txs[i];
        proof {
            lemma_room(i as int);
            assert(txs@.take(i + 1).drop_last() =~= txs@.take(i as int));
        }
        apply_record(&mut accounts, &mut refs, &mut waiting, tx, Ghost(i * MAX_UNITS));
        i += 1;
    }
    assert(txs@.take(n as int) =~= txs@);
    let ghost first = replay_from(empty_replay(), txs@);
    let queued = waiting;
    let mut unsettled: VecDeque<Transaction> = VecDeque::new();
    let m = queued.len();
    let mut j: usize = 0;
    while j < m
        invariant
            n <= MAX_RECORDS,
            m == queued@.len(),
            m <= n,
            queued@ == first.waiting,
            forall|k: int| 0 <= k < queued@.len() ==> record_in_range(#[trigger] queued@[k]),
            0 <= j <= m,
            ({
                let s = replay_from(second_round(first), queued@.take(j as int));
                &&& views_of(accounts@) == s.accounts
                &&& refs@ == s.refs
                &&& unsettled@ == s.waiting
            }),
            accounts_in_range(views_of(accounts@), (n + j) * MAX_UNITS),
            refs_in_range(refs@),
        decreases m - j,
    {
        let tx = queued[j];
        proof {
            lemma_room(n + j);
            assert(queued@.take(j + 1).drop_last() =~= queued@.take(j as int));
        }
        apply_record(&mut accounts, &mut refs, &mut unsettled, tx, Ghost((n + j) * MAX_UNITS));
        j += 1;
    }
    assert(queued@.take(m as int) =~= queued@);
    assert forall|id: u16| #[trigger] accounts@.contains_key(id) implies accounts@[id]@.is_balanced() by {
        assert(views_of(accounts@).contains_key(id));
        assert(views_of(accounts@)[id] == accounts@[id]@);
    }
    (accounts, unsettled)
}

/// The final accounts by client after replaying the log `txs`.
pub fn process_transactions(unprocessed_transactions: VecDeque<Transaction>) -> (r: HashMap<u16, Account>)
    requires
        unprocessed_transactions@.len() <= MAX_RECORDS,
        forall|i: int|
            0 <= i < unprocessed_transactions@.len() ==> record_in_range(
                #[trigger] unprocessed_transactions@[i],
            ),
    ensures
        views_of(r@) == replay(unprocessed_transactions@).accounts,
        forall|id: u16| #[trigger] r@.contains_key(id) ==> r@[id]@.is_balanced(),
{
    let (accounts, _unsettled) = replay_transactions(&unprocessed_transactions);
    accounts
}

} // verus!
