use vstd::prelude::*;

use std::collections::HashMap;

use tokio::sync::mpsc::{UnboundedReceiver, UnboundedSender};

use crate::errors::{reports, EngineError, Refusal};
use crate::models::{Amount, ClientAccount, Transaction, TransactionType};

verus! {

broadcast use vstd::std_specs::hash::group_hash_axioms;

/// What a shard holds: the accounts of its clients, and the log of
/// deposits and withdrawals by transaction id.
pub struct ShardView {
    pub accounts: Map<u16, ClientAccount>,
    pub log: Map<u32, Transaction>,
}

/// The account that a client starts with.
pub open spec fn fresh_account() -> ClientAccount {
    ClientAccount {
        available: Amount { units: 0 },
        held: Amount { units: 0 },
        total: Amount { units: 0 },
        locked: false,
    }
}

impl ShardView {
    /// The shard once `client` has an account: the existing one, or a fresh one.
    pub open spec fn opened(self, client: u16) -> ShardView {
        if self.accounts.contains_key(client) {
            self
        } else {
            ShardView { accounts: self.accounts.insert(client, fresh_account()), log: self.log }
        }
    }

    /// The amount of the logged transaction `tx_id`, if one with an amount is logged.
    pub open spec fn logged_amount(self, tx_id: u32) -> Option<Amount> {
        if self.log.contains_key(tx_id) {
            self.log[tx_id].amount
        } else {
            None
        }
    }

    /// Every log entry carries the amount it was logged with.
    pub open spec fn log_wf(self) -> bool {
        forall|id: u32| #[trigger] self.log.contains_key(id) ==> self.log[id].amount is Some
    }

    /// Every account keeps `total == available + held` within the limit.
    pub open spec fn accounts_wf(self) -> bool {
        forall|c: u16| #[trigger] self.accounts.contains_key(c) ==> self.accounts[c].wf()
    }
}

/// The shard after one transaction, and whether it was applied or refused.
///
/// Every transaction opens its client's account. Deposits and withdrawals
/// change the account and are logged with the dispute flag clear; disputes,
/// resolves and chargebacks act on the amount of the logged transaction they
/// name. A refused transaction changes nothing else.
pub open spec fn step(s: ShardView, t: Transaction) -> (ShardView, Result<(), Refusal>) {
    let s1 = s.opened(t.client);
    let account = s1.accounts[t.client];
    let entry = s.log[t.tx_id];
    let outcome = match t.tx_type {
        TransactionType::Deposit => match t.amount {
            Some(a) => account.deposit_outcome(a.units as int),
            None => Err(Refusal::MissingAmount),
        },
        TransactionType::Withdrawal => match t.amount {
            Some(a) => account.withdraw_outcome(a.units as int),
            None => Err(Refusal::MissingAmount),
        },
        TransactionType::Dispute => match s.logged_amount(t.tx_id) {
            Some(a) => account.dispute_outcome(a.units as int),
            None => Err(Refusal::UnknownTransaction(t.tx_id)),
        },
        TransactionType::Resolve => match s.logged_amount(t.tx_id) {
            Some(a) => if entry.under_dispute {
                account.resolve_outcome(a.units as int)
            } else {
                Err(Refusal::NotDisputed)
            },
            None => Err(Refusal::UnknownTransaction(t.tx_id)),
        },
        TransactionType::Chargeback => match s.logged_amount(t.tx_id) {
            Some(a) => if entry.under_dispute {
                account.chargeback_outcome(a.units as int)
            } else {
                Err(Refusal::NotDisputed)
            },
            None => Err(Refusal::UnknownTransaction(t.tx_id)),
        },
    };
    match outcome {
        Err(why) => (s1, Err(why)),
        Ok(next) => {
            let accounts = s1.accounts.insert(t.client, next);
            let log = match t.tx_type {
                TransactionType::Deposit => s.log.insert(
                    t.tx_id,
                    Transaction { under_dispute: false, ..t },
                ),
                TransactionType::Withdrawal => s.log.insert(
                    t.tx_id,
                    Transaction { under_dispute: false, ..t },
                ),
                TransactionType::Dispute => s.log.insert(
                    t.tx_id,
                    Transaction { under_dispute: true, ..entry },
                ),
                _ => s.log,
            };
            (ShardView { accounts, log }, Ok(()))
        },
    }
}

/// The shard that a client's transactions are routed to among `n` shards.
pub open spec fn shard_of(client: u16, n: nat) -> nat {
    client as nat % n
}

/// The queue of shard `i` after routing `txs` in order among `n` shards:
/// the transactions whose client belongs to `i`, in routing order.
pub open spec fn shard_queue(txs: Seq<Transaction>, n: nat, i: nat) -> Seq<Transaction>
    decreases txs.len(),
{
    if txs.len() == 0 {
        Seq::empty()
    } else {
        let q = shard_queue(txs.drop_last(), n, i);
        if shard_of(txs.last().client, n) == i {
            q.push(txs.last())
        } else {
            q
        }
    }
}

/// `r` is what the engine returns for the step's verdict `outcome`.
pub open spec fn answers(r: Result<(), EngineError>, outcome: Result<(), Refusal>) -> bool {
    match outcome {
        Ok(()) => r is Ok,
        Err(why) => reports(r, why),
    }
}

/// One shard's accounts and transaction log.
pub struct ShardState {
    accounts: HashMap<u16, ClientAccount>,
    transactions: HashMap<u32, Transaction>,
    /// The clients that have an account, in the order they first appeared.
    clients: Vec<u16>,
}

impl View for ShardState {
    type V = ShardView;

    closed spec fn view(&self) -> ShardView {
        ShardView { accounts: self.accounts@, log: self.transactions@ }
    }
}

impl ShardState {
    pub closed spec fn wf(&self) -> bool {
        &&& self.clients@.no_duplicates()
        &&& forall|c: u16| self.accounts@.contains_key(c) <==> #[trigger] self.clients@.contains(c)
        &&& forall|c: u16| #[trigger] self.accounts@.contains_key(c) ==> self.accounts@[c].wf()
        &&& forall|id: u32| #[trigger] self.transactions@.contains_key(id) ==> self.transactions@[id].amount is Some
    }

    /// An empty shard.
    pub fn new() -> (r: ShardState)
        ensures
            r.wf(),
            r@.accounts_wf(),
            r@.log_wf(),
            r@.accounts.is_empty(),
            r@.log.is_empty(),
    {
        ShardState { accounts: HashMap::new(), transactions: HashMap::new(), clients: Vec::new() }
    }

    /// Makes sure `client` has an account, and returns it.
    fn open_account(&mut self, client: u16) -> (account: ClientAccount)
        requires
            old(self).wf(),
        ensures
            final(self).wf(),
            final(self)@ == old(self)@.opened(client),
            account == final(self)@.accounts[client],
    {
        match self.accounts.get(&client) {
            Some(account) => *account,
            None => {
                let account = ClientAccount::new();
                self.accounts.insert(client, account);
                self.clients.push(client);
                proof {
                    let before = old(self).clients@;
                    assert(self.clients@ == before.push(client));
                    assert(!before.contains(client));
                    assert forall|c: u16| #[trigger]
                        self.clients@.contains(c) <==> (before.contains(c) || c == client) by {
                        if before.contains(c) {
                            let i = choose|i: int| 0 <= i < before.len() && before[i] == c;
                            assert(self.clients@[i] == c);
                        }
                        if c == client {
                            assert(self.clients@[before.len() as int] == c);
                        }
                        if self.clients@.contains(c) && c != client {
                            let i = choose|i: int| 0 <= i < self.clients@.len() && self.clients@[i] == c;
                            assert(before[i] == c);
                        }
                    }
                    assert(self@.accounts =~= old(self)@.opened(client).accounts);
                }
                account
            },
        }
    }

    /// Stores the new state of an existing account.
    fn store_account(&mut self, client: u16, account: ClientAccount)
        requires
            old(self).wf(),
            old(self)@.accounts.contains_key(client),
            account.wf(),
        ensures
            final(self).wf(),
            final(self)@ == (ShardView { accounts: old(self)@.accounts.insert(client, account), ..old(self)@ }),
    {
        self.accounts.insert(client, account);
        assert(self@.accounts.dom() =~= old(self)@.accounts.dom());
    }

    /// Writes `entry` to the log under `tx_id`, replacing any earlier entry.
    fn log_transaction(&mut self, tx_id: u32, entry: Transaction)
        requires
            old(self).wf(),
            entry.amount is Some,
        ensures
            final(self).wf(),
            final(self)@ == (ShardView { log: old(self)@.log.insert(tx_id, entry), ..old(self)@ }),
    {
        self.transactions.insert(tx_id, entry);
        assert(self.accounts@ == old(self).accounts@);
    }

    /// The logged transaction `tx_id`, if any.
    fn logged(&self, tx_id: u32) -> (r: Option<Transaction>)
        ensures
            r == (if self@.log.contains_key(tx_id) {
                Some(self@.log[tx_id])
            } else {
                None::<Transaction>
            }),
    {
        match self.transactions.get(&tx_id) {
            Some(entry) => Some(*entry),
            None => None,
        }
    }

    /// The account of `client`, if it has one.
    pub fn account(&self, client: u16) -> (r: Option<&ClientAccount>)
        ensures
            match r {
                Some(a) => self@.accounts.contains_key(client) && *a == self@.accounts[client],
                None => !self@.accounts.contains_key(client),
            },
    {
        self.accounts.get(&client)
    }

    /// The log entry of transaction `tx_id`, if one was logged.
    pub fn transaction(&self, tx_id: u32) -> (r: Option<&Transaction>)
        ensures
            match r {
                Some(t) => self@.log.contains_key(tx_id) && *t == self@.log[tx_id],
                None => !self@.log.contains_key(tx_id),
            },
    {
        self.transactions.get(&tx_id)
    }

    /// Every account of the shard with its client, each client once, in the
    /// order in which the clients first appeared.
    pub fn snapshot(&self) -> (r: Vec<(u16, ClientAccount)>)
        requires
            self.wf(),
        ensures
            r@.len() == self@.accounts.dom().len(),
            forall|i: int, j: int| 0 <= i < j < r@.len() ==> r@[i].0 != r@[j].0,
            forall|i: int|
                0 <= i < r@.len() ==> self@.accounts.contains_key(#[trigger] r@[i].0)
                    && r@[i].1 == self@.accounts[r@[i].0],
            forall|c: u16|
                self@.accounts.contains_key(c) ==> exists|i: int| 0 <= i < r@.len() && #[trigger] r@[i].0 == c,
    {
        let mut r: Vec<(u16, ClientAccount)> = Vec::new();
        let n = self.clients.len();
        for k in 0..n
            invariant
                self.wf(),
                n == self.clients@.len(),
                r@.len() == k,
                forall|i: int| 0 <= i < k ==> #[trigger] r@[i].0 == self.clients@[i],
                forall|i: int|
                    0 <= i < k ==> self@.accounts.contains_key(#[trigger] r@[i].0)
                        && r@[i].1 == self@.accounts[r@[i].0],
        {
            let client = self.clients[k];
            assert(self.clients@.contains(client));
            match self.accounts.get(&client) {
                Some(account) => r.push((client, *account)),
                None => {
                    assert(false);
                },
            }
        }
        proof {
            assert forall|c: u16| self@.accounts.contains_key(c) implies exists|i: int|
                0 <= i < r@.len() && #[trigger] r@[i].0 == c by {
                assert(self.clients@.contains(c));
                let i = choose|i: int| 0 <= i < self.clients@.len() && self.clients@[i] == c;
                assert(r@[i].0 == c);
            }
            self.clients@.unique_seq_to_set();
            assert(self.clients@.to_set() =~= self@.accounts.dom());
        }
        r
    }
}

/// The sending half of an unbounded tokio queue.
#[verifier::external_type_specification]
#[verifier::external_body]
#[verifier::reject_recursive_types(T)]
pub struct ExUnboundedSender<T>(UnboundedSender<T>);

/// The receiving half of an unbounded tokio queue.
#[verifier::external_type_specification]
#[verifier::external_body]
#[verifier::reject_recursive_types(T)]
pub struct ExUnboundedReceiver<T>(UnboundedReceiver<T>);

/// Relies on tokio's `unbounded_channel`: it opens a fresh queue and never fails.
pub assume_specification<T>[ tokio::sync::mpsc::unbounded_channel::<T> ]() -> (
    UnboundedSender<T>,
    UnboundedReceiver<T>,
);

/// Relies on tokio's `UnboundedSender::send`: it never blocks, and when the
/// receiving half is closed it fails and hands the message back unchanged.
#[verifier::external_body]
fn send_to_queue(queue: &UnboundedSender<Transaction>, transaction: Transaction) -> (r: Result<
    (),
    Transaction,
>)
    ensures
        r matches Err(back) ==> back == transaction,
{
    queue.send(transaction).map_err(|e| e.0)
}

/// Routes transactions to shards by client: client `c` always goes to shard
/// `c % shard_count`, through that shard's queue.
pub struct ShardedEngine {
    tx_channels: Vec<UnboundedSender<Transaction>>,
    shard_count: usize,
    shutdown: bool,
    /// Every transaction handed to a queue, in the order they were routed.
    routed: Ghost<Seq<Transaction>>,
    /// What each shard's queue was handed, in order.
    queues: Ghost<Seq<Seq<Transaction>>>,
}

impl ShardedEngine {
    /// The number of shards.
    pub closed spec fn shards(&self) -> nat {
        self.shard_count as nat
    }

    /// The engine has been shut down and accepts no more transactions.
    pub closed spec fn is_shut_down(&self) -> bool {
        self.shutdown
    }

    /// How many shard queues the engine still holds open.
    pub closed spec fn open_queues(&self) -> nat {
        self.tx_channels@.len()
    }

    /// Every transaction the engine handed to a queue, in routing order.
    pub closed spec fn routed(&self) -> Seq<Transaction> {
        self.routed@
    }

    /// What the queue of shard `i` was handed, in order.
    pub closed spec fn queued(&self, i: nat) -> Seq<Transaction> {
        self.queues@[i as int]
    }

    pub closed spec fn wf(&self) -> bool {
        &&& self.shard_count > 0
        &&& !self.shutdown ==> self.tx_channels@.len() == self.shard_count
        &&& self.queues@.len() == self.shard_count
        &&& forall|i: int|
            0 <= i < self.shard_count ==> #[trigger] self.queues@[i] == shard_queue(
                self.routed@,
                self.shard_count as nat,
                i as nat,
            )
    }

    /// Each shard's queue was handed exactly the routed transactions of its
    /// clients, in routing order.
    pub proof fn lemma_queues_follow_routing(&self)
        requires
            self.wf(),
        ensures
            self.shards() > 0,
            forall|i: nat|
                i < self.shards() ==> #[trigger] self.queued(i) == shard_queue(
                    self.routed(),
                    self.shards(),
                    i,
                ),
    {
        assert forall|i: nat| i < self.shards() implies #[trigger] self.queued(i) == shard_queue(
            self.routed(),
            self.shards(),
            i,
        ) by {
            assert(self.queues@[i as int] == shard_queue(self.routed@, self.shard_count as nat, i));
        }
    }

    /// Opens one unbounded queue per shard. The receiving halves come back in
    /// shard order, `r.1[i]` for shard `i`, for the workers that drain them.
    pub fn new(num_shards: usize) -> (r: (ShardedEngine, Vec<UnboundedReceiver<Transaction>>))
        requires
            num_shards > 0,
        ensures
            r.0.wf(),
            r.0.shards() == num_shards,
            !r.0.is_shut_down(),
            r.0.open_queues() == num_shards,
            r.0.routed().len() == 0,
            r.1@.len() == num_shards,
    {
        let mut tx_channels: Vec<UnboundedSender<Transaction>> = Vec::new();
        let mut receivers: Vec<UnboundedReceiver<Transaction>> = Vec::new();
        while tx_channels.len() < num_shards
            invariant
                tx_channels@.len() <= num_shards,
                receivers@.len() == tx_channels@.len(),
            decreases num_shards - tx_channels@.len(),
        {
            let (tx, rx) = tokio::sync::mpsc::unbounded_channel();
            tx_channels.push(tx);
            receivers.push(rx);
        }
        let engine = ShardedEngine {
            tx_channels,
            shard_count: num_shards,
            shutdown: false,
            routed: Ghost(Seq::empty()),
            queues: Ghost(Seq::new(num_shards as nat, |i: int| Seq::<Transaction>::empty())),
        };
        (engine, receivers)
    }

    /// The number of shards.
    pub fn shard_count(&self) -> (r: usize)
        ensures
            r == self.shards(),
    {
        self.shard_count
    }

    /// The shard that owns `client`.
    pub fn shard_for(&self, client: u16) -> (r: usize)
        requires
            self.wf(),
        ensures
            r == shard_of(client, self.shards()),
            r < self.shards(),
    {
        (client as usize) % self.shard_count
    }

    /// Hands `transaction` to the queue of the shard that owns its client.
    /// After shutdown it fails with `ShutDownError` and enqueues nothing;
    /// otherwise it fails only when that queue is closed, with `SendError`
    /// holding the transaction. A transaction that is handed on joins the
    /// end of its shard's queue and of the routing record.
    pub fn route_transaction(&mut self, transaction: Transaction) -> (r: Result<(), EngineError>)
        requires
            old(self).wf(),
        ensures
            final(self).wf(),
            final(self).shards() == old(self).shards(),
            final(self).is_shut_down() == old(self).is_shut_down(),
            final(self).open_queues() == old(self).open_queues(),
            old(self).is_shut_down() ==> r matches Err(EngineError::ShutDownError(_)),
            !old(self).is_shut_down() ==> (r is Ok || (r matches Err(EngineError::SendError(back))
                && back == transaction)),
            r is Ok ==> final(self).routed() == old(self).routed().push(transaction),
            r is Err ==> final(self).routed() == old(self).routed(),
            forall|i: nat|
                i < old(self).shards() ==> #[trigger] final(self).queued(i) == if r is Ok && i
                    == shard_of(transaction.client, old(self).shards()) {
                    old(self).queued(i).push(transaction)
                } else {
                    old(self).queued(i)
                },
    {
        if self.shutdown {
            return Err(
                EngineError::ShutDownError(
                    "Engine is shutting down, no new transactions accepted.".to_owned(),
                ),
            );
        }
        let shard_index = self.shard_for(transaction.client);
        match send_to_queue(&self.tx_channels[shard_index], transaction) {
            Ok(()) => {
                let ghost n = self.shard_count as nat;
                let ghost before = self.routed@;
                self.routed = Ghost(self.routed@.push(transaction));
                self.queues = Ghost(
                    self.queues@.update(shard_index as int, self.queues@[shard_index as int].push(transaction)),
                );
                assert(self.routed@.drop_last() =~= before);
                assert forall|i: int| 0 <= i < self.shard_count implies #[trigger] self.queues@[i]
                    == shard_queue(self.routed@, n, i as nat) by {
                    assert(old(self).queues@[i] == shard_queue(before, n, i as nat));
                }
                Ok(())
            },
            Err(back) => Err(EngineError::SendError(back)),
        }
    }

    /// Stops accepting transactions and drops every queue's sending half, so
    /// each worker drains what is queued and then sees its queue close.
    pub fn shutdown(&mut self)
        requires
            old(self).wf(),
        ensures
            final(self).wf(),
            final(self).is_shut_down(),
            final(self).shards() == old(self).shards(),
            final(self).open_queues() == 0,
            final(self).routed() == old(self).routed(),
            forall|i: nat| #[trigger] final(self).queued(i) == old(self).queued(i),
    {
        self.shutdown = true;
        self.tx_channels.clear();
    }

    /// Applies one transaction to a shard.
    ///
    /// The client's account is opened if it has none. A deposit or
    /// withdrawal without an amount fails with `TransactionError`. One that
    /// succeeds is logged with its dispute flag clear; one that fails is not
    /// logged. A dispute, resolve or chargeback acts on the
    /// amount of the logged transaction it names, on the account of its own
    /// client (which is not checked against the logged one): unknown ids fail with
    /// `TransactionNotFound`, and resolving or charging back a transaction
    /// that is not under dispute fails with `InvalidOperation`. A dispute sets
    /// the entry's flag; resolve and chargeback leave it set. A refused
    /// transaction changes no balance and no log entry.
    pub fn process_transaction_in_shard(shard_state: &mut ShardState, transaction: Transaction) -> (r: Result<(), EngineError>)
        requires
            old(shard_state).wf(),
        ensures
            final(shard_state).wf(),
            final(shard_state)@.accounts_wf(),
            final(shard_state)@.log_wf(),
            final(shard_state)@ == step(old(shard_state)@, transaction).0,
            answers(r, step(old(shard_state)@, transaction).1),
    {
        let client = transaction.client;
        let tx_id = transaction.tx_id;
        let mut account = shard_state.open_account(client);
        match transaction.tx_type {
            TransactionType::Deposit | TransactionType::Withdrawal => match transaction.amount {
                Some(amount) => {
                    let r = match transaction.tx_type {
                        TransactionType::Deposit => account.deposit(amount),
                        _ => account.withdraw(amount),
                    };
                    if r.is_ok() {
                        shard_state.store_account(client, account);
                        shard_state.log_transaction(tx_id, Transaction { under_dispute: false, ..transaction });
                    }
                    r
                },
                None => Err(EngineError::TransactionError("Missing amount".to_owned())),
            },
            _ => {
                let entry = match shard_state.logged(tx_id) {
                    Some(entry) => entry,
                    None => {
                        return Err(EngineError::TransactionNotFound(tx_id));
                    },
                };
                let amount = match entry.amount {
                    Some(amount) => amount,
                    None => {
                        return Err(EngineError::TransactionNotFound(tx_id));
                    },
                };
                let r = match transaction.tx_type {
                    TransactionType::Dispute => account.dispute(amount),
                    TransactionType::Resolve => if entry.under_dispute {
                        account.resolve(amount)
                    } else {
                        Err(
                            EngineError::InvalidOperation(
                                "Resolve attempted on a non-disputed transaction".to_owned(),
                            ),
                        )
                    },
                    _ => if entry.under_dispute {
                        account.chargeback(amount)
                    } else {
                        Err(
                            EngineError::InvalidOperation(
                                "Chargeback attempted on a non-disputed transaction".to_owned(),
                            ),
                        )
                    },
                };
                if r.is_ok() {
                    shard_state.store_account(client, account);
                    if let TransactionType::Dispute = transaction.tx_type {
                        shard_state.log_transaction(tx_id, Transaction { under_dispute: true, ..entry });
                    }
                }
                r
            },
        }
    }
}

/// Counts the shard workers that have drained their queue and exited.
pub struct CompletionTracker {
    finished: usize,
    expected: usize,
}

impl CompletionTracker {
    /// Workers that have exited.
    pub closed spec fn finished_count(&self) -> nat {
        self.finished as nat
    }

    /// Workers there are.
    pub closed spec fn expected_count(&self) -> nat {
        self.expected as nat
    }

    pub closed spec fn wf(&self) -> bool {
        self.finished <= self.expected
    }

    /// Tracks `expected` workers, none exited yet.
    pub fn new(expected: usize) -> (r: CompletionTracker)
        ensures
            r.wf(),
            r.finished_count() == 0,
            r.expected_count() == expected,
    {
        CompletionTracker { finished: 0, expected }
    }

    /// Records that one more worker has exited; the count never passes the
    /// number of workers.
    pub fn worker_exited(&mut self)
        requires
            old(self).wf(),
        ensures
            final(self).wf(),
            final(self).expected_count() == old(self).expected_count(),
            final(self).finished_count() == if old(self).finished_count() < old(self).expected_count() {
                old(self).finished_count() + 1
            } else {
                old(self).finished_count()
            },
    {
        if self.finished < self.expected {
            self.finished = self.finished + 1;
        }
    }

    /// Every worker has exited.
    pub fn is_complete(&self) -> (r: bool)
        ensures
            r == (self.finished_count() >= self.expected_count()),
    {
        self.finished >= self.expected
    }
}

} // verus!
