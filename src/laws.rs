//! Properties of the shard state machine and of routing, proved for all
//! inputs.

use vstd::prelude::*;

use crate::engine::{shard_of, shard_queue, step, ShardView, ShardedEngine};
use crate::models::Transaction;

verus! {

/// Each transaction keeps every account's `total == available + held`, with
/// each balance within the limit.
pub proof fn lemma_step_keeps_accounts_wf(s: ShardView, t: Transaction)
    requires
        s.accounts_wf(),
    ensures
        step(s, t).0.accounts_wf(),
{
    let s1 = s.opened(t.client);
    assert(s1.accounts_wf());
    let next = step(s, t).0;
    assert forall|c: u16| #[trigger] next.accounts.contains_key(c) implies next.accounts[c].wf() by {
        if c != t.client {
            assert(s1.accounts.contains_key(c));
        }
    }
}

/// Every account has no negative available or held funds.
pub open spec fn funds_covered(s: ShardView) -> bool {
    forall|c: u16|
        #[trigger] s.accounts.contains_key(c) ==> s.accounts[c].available.units >= 0
            && s.accounts[c].held.units >= 0
}

/// Deposits and withdrawals of non-negative amounts never drive available
/// or held funds below zero. (Disputes may: disputing a deposit whose funds
/// were already withdrawn leaves the available funds negative.)
pub proof fn lemma_deposits_and_withdrawals_keep_funds_covered(s: ShardView, t: Transaction)
    requires
        funds_covered(s),
        t.tx_type is Deposit || t.tx_type is Withdrawal,
        t.amount matches Some(a) ==> a.units >= 0,
    ensures
        funds_covered(step(s, t).0),
{
    let s1 = s.opened(t.client);
    assert(funds_covered(s1));
}

/// The shard after its worker applied `q` front to back.
pub open spec fn run(s: ShardView, q: Seq<Transaction>) -> ShardView
    decreases q.len(),
{
    if q.len() == 0 {
        s
    } else {
        step(run(s, q.drop_last()), q.last()).0
    }
}

/// Whatever mix of deposits and withdrawals of non-negative amounts a shard
/// applies, every account keeps `total == available + held` and neither
/// available nor held funds go below zero.
pub proof fn lemma_deposits_and_withdrawals_run_safely(s: ShardView, q: Seq<Transaction>)
    requires
        s.accounts_wf(),
        funds_covered(s),
        forall|i: int|
            0 <= i < q.len() ==> (#[trigger] q[i].tx_type is Deposit || q[i].tx_type is Withdrawal)
                && (q[i].amount matches Some(a) ==> a.units >= 0),
    ensures
        run(s, q).accounts_wf(),
        funds_covered(run(s, q)),
    decreases q.len(),
{
    if q.len() > 0 {
        let rest = q.drop_last();
        assert forall|i: int| 0 <= i < rest.len() implies (#[trigger] rest[i].tx_type is Deposit
            || rest[i].tx_type is Withdrawal) && (rest[i].amount matches Some(a) ==> a.units
            >= 0) by {
            assert(rest[i] == q[i]);
        }
        lemma_deposits_and_withdrawals_run_safely(s, rest);
        let last = q[q.len() - 1];
        lemma_step_keeps_accounts_wf(run(s, rest), last);
        lemma_deposits_and_withdrawals_keep_funds_covered(run(s, rest), last);
    }
}

/// Once an account is locked, no transaction changes it: every one is
/// refused, without touching the log.
pub proof fn lemma_locked_account_is_frozen(s: ShardView, t: Transaction)
    requires
        s.accounts.contains_key(t.client),
        s.accounts[t.client].locked,
    ensures
        step(s, t).0.accounts[t.client] == s.accounts[t.client],
        step(s, t).0.log == s.log,
        step(s, t).1 is Err,
{
}

/// A transaction touches no account but its own client's: every other
/// client's account is there after it exactly when it was before, unchanged.
pub proof fn lemma_step_touches_only_its_client(s: ShardView, t: Transaction, other: u16)
    requires
        other != t.client,
    ensures
        step(s, t).0.accounts.contains_key(other) == s.accounts.contains_key(other),
        s.accounts.contains_key(other) ==> step(s, t).0.accounts[other] == s.accounts[other],
{
}

/// Two clients share a shard exactly when they agree modulo the shard count;
/// a client's shard never depends on anything else.
pub proof fn lemma_shared_shard(a: u16, b: u16, n: nat)
    requires
        n > 0,
    ensures
        shard_of(a, n) < n,
        (shard_of(a, n) == shard_of(b, n)) == (a as nat % n == b as nat % n),
{
}

proof fn lemma_queue_of_prefix(txs: Seq<Transaction>, n: nat, i: nat, m: int)
    requires
        0 <= m <= txs.len(),
    ensures
        shard_queue(txs.take(m), n, i).len() <= shard_queue(txs, n, i).len(),
        forall|x: int|
            0 <= x < shard_queue(txs.take(m), n, i).len() ==> #[trigger] shard_queue(
                txs.take(m),
                n,
                i,
            )[x] == shard_queue(txs, n, i)[x],
    decreases txs.len(),
{
    if m == txs.len() {
        assert(txs.take(m) =~= txs);
    } else {
        let rest = txs.drop_last();
        assert(rest.take(m) =~= txs.take(m));
        lemma_queue_of_prefix(rest, n, i, m);
    }
}

/// The place of `txs[j]` in its shard's queue: the number of transactions
/// routed to that shard before it.
pub open spec fn queue_position(txs: Seq<Transaction>, n: nat, j: int) -> int {
    shard_queue(txs.take(j), n, shard_of(txs[j].client, n)).len() as int
}

proof fn lemma_queue_position(txs: Seq<Transaction>, n: nat, j: int)
    requires
        0 <= j < txs.len(),
    ensures
        ({
            let q = shard_queue(txs, n, shard_of(txs[j].client, n));
            &&& queue_position(txs, n, j) < q.len()
            &&& q[queue_position(txs, n, j)] == txs[j]
        }),
{
    let i = shard_of(txs[j].client, n);
    assert(txs.take(j + 1).drop_last() =~= txs.take(j));
    lemma_queue_of_prefix(txs, n, i, j + 1);
    let p = queue_position(txs, n, j);
    assert(shard_queue(txs.take(j + 1), n, i)[p] == txs[j]);
}

/// Transactions of one client reach their shard's queue in the order they
/// were routed, whatever the shard count: if `txs[j]` was routed before
/// `txs[k]`, both stand in the same queue and `txs[j]` stands first, so the
/// shard's worker, which applies its queue front to back, applies it first.
pub proof fn lemma_client_order_kept(txs: Seq<Transaction>, n: nat, j: int, k: int)
    requires
        n > 0,
        0 <= j < k < txs.len(),
        txs[j].client == txs[k].client,
    ensures
        ({
            let q = shard_queue(txs, n, shard_of(txs[j].client, n));
            &&& 0 <= queue_position(txs, n, j) < queue_position(txs, n, k) < q.len()
            &&& q[queue_position(txs, n, j)] == txs[j]
            &&& q[queue_position(txs, n, k)] == txs[k]
        }),
{
    let i = shard_of(txs[j].client, n);
    lemma_queue_position(txs, n, j);
    lemma_queue_position(txs, n, k);
    let before_k = txs.take(k);
    assert(before_k.take(j + 1) =~= txs.take(j + 1));
    assert(txs.take(j + 1).drop_last() =~= txs.take(j));
    assert(before_k[j] == txs[j]);
    lemma_queue_of_prefix(before_k, n, i, j + 1);
}

/// The engine keeps each client's order: of two transactions of one client
/// that it handed on, the earlier stands earlier in the queue of the
/// client's shard, which its worker applies front to back.
pub proof fn lemma_engine_keeps_client_order(e: &ShardedEngine, j: int, k: int)
    requires
        e.wf(),
        0 <= j < k < e.routed().len(),
        e.routed()[j].client == e.routed()[k].client,
    ensures
        ({
            let q = e.queued(shard_of(e.routed()[j].client, e.shards()));
            &&& 0 <= queue_position(e.routed(), e.shards(), j) < queue_position(
                e.routed(),
                e.shards(),
                k,
            ) < q.len()
            &&& q[queue_position(e.routed(), e.shards(), j)] == e.routed()[j]
            &&& q[queue_position(e.routed(), e.shards(), k)] == e.routed()[k]
        }),
{
    e.lemma_queues_follow_routing();
    lemma_shared_shard(e.routed()[j].client, e.routed()[j].client, e.shards());
    lemma_client_order_kept(e.routed(), e.shards(), j, k);
}

} // verus!
