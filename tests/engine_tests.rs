use payments_engine::engine::{CompletionTracker, ShardState, ShardedEngine};
use payments_engine::errors::EngineError;
use payments_engine::models::{Amount, Transaction, TransactionType};

use std::sync::{Arc, Mutex};

fn amount(whole: i128) -> Amount {
    Amount { units: whole * 10_000 }
}

fn tx(tx_type: TransactionType, client: u16, tx_id: u32, value: Option<i128>) -> Transaction {
    Transaction { tx_type, client, tx_id, amount: value.map(amount), under_dispute: false }
}

fn process(state: &mut ShardState, t: Transaction) -> Result<(), EngineError> {
    ShardedEngine::process_transaction_in_shard(state, t)
}

#[test]
fn test_process_deposit() {
    let mut shard_state = ShardState::new();

    let transaction = Transaction {
        tx_type: TransactionType::Deposit,
        client: 1,
        tx_id: 1,
        amount: Some(amount(1000)),
        under_dispute: false,
    };

    ShardedEngine::process_transaction_in_shard(&mut shard_state, transaction).unwrap();

    let account = shard_state.account(1).unwrap();
    assert_eq!(account.available, amount(1000));
    assert_eq!(account.total, amount(1000));
    assert_eq!(account.held, amount(0));

    let tx = shard_state.transaction(1).unwrap();
    assert_eq!(tx.tx_type, TransactionType::Deposit);
    assert_eq!(tx.amount, Some(amount(1000)));
}

#[test]
fn test_process_withdrawal() {
    let mut shard_state = ShardState::new();

    let deposit = Transaction {
        tx_type: TransactionType::Deposit,
        client: 1,
        tx_id: 1,
        amount: Some(amount(1000)),
        under_dispute: false,
    };
    ShardedEngine::process_transaction_in_shard(&mut shard_state, deposit).unwrap();

    let withdrawal = Transaction {
        tx_type: TransactionType::Withdrawal,
        client: 1,
        tx_id: 2,
        amount: Some(amount(500)),
        under_dispute: false,
    };
    ShardedEngine::process_transaction_in_shard(&mut shard_state, withdrawal).unwrap();

    let account = shard_state.account(1).unwrap();
    assert_eq!(account.available, amount(500));
    assert_eq!(account.total, amount(500));
    assert_eq!(account.held, amount(0));

    let tx = shard_state.transaction(2).unwrap();
    assert_eq!(tx.tx_type, TransactionType::Withdrawal);
    assert_eq!(tx.amount, Some(amount(500)));
}

#[test]
fn test_process_dispute() {
    let mut shard_state = ShardState::new();

    let deposit = Transaction {
        tx_type: TransactionType::Deposit,
        client: 1,
        tx_id: 1,
        amount: Some(amount(1000)),
        under_dispute: false,
    };
    ShardedEngine::process_transaction_in_shard(&mut shard_state, deposit).unwrap();

    let dispute = Transaction {
        tx_type: TransactionType::Dispute,
        client: 1,
        tx_id: 1,
        amount: None,
        under_dispute: true,
    };
    ShardedEngine::process_transaction_in_shard(&mut shard_state, dispute).unwrap();

    let account = shard_state.account(1).unwrap();
    assert_eq!(account.available, amount(0));
    assert_eq!(account.held, amount(1000));
    assert_eq!(account.total, amount(1000));

    let tx = shard_state.transaction(1).unwrap();
    assert!(tx.under_dispute);
}

#[test]
fn test_process_resolve() {
    let mut shard_state = ShardState::new();

    let deposit = Transaction {
        tx_type: TransactionType::Deposit,
        client: 1,
        tx_id: 1,
        amount: Some(amount(1000)),
        under_dispute: false,
    };
    ShardedEngine::process_transaction_in_shard(&mut shard_state, deposit).unwrap();

    let dispute = Transaction {
        tx_type: TransactionType::Dispute,
        client: 1,
        tx_id: 1,
        amount: None,
        under_dispute: true,
    };
    ShardedEngine::process_transaction_in_shard(&mut shard_state, dispute).unwrap();

    let resolve = Transaction {
        tx_type: TransactionType::Resolve,
        client: 1,
        tx_id: 1,
        amount: None,
        under_dispute: false,
    };
    ShardedEngine::process_transaction_in_shard(&mut shard_state, resolve).unwrap();

    let account = shard_state.account(1).unwrap();
    assert_eq!(account.available, amount(1000));
    assert_eq!(account.held, amount(0));
    assert_eq!(account.total, amount(1000));

    let tx = shard_state.transaction(1).unwrap();
    assert!(tx.under_dispute);
}

#[test]
fn test_process_chargeback() {
    let mut shard_state = ShardState::new();

    let deposit = Transaction {
        tx_type: TransactionType::Deposit,
        client: 1,
        tx_id: 1,
        amount: Some(amount(1000)),
        under_dispute: false,
    };
    ShardedEngine::process_transaction_in_shard(&mut shard_state, deposit).unwrap();

    let dispute = Transaction {
        tx_type: TransactionType::Dispute,
        client: 1,
        tx_id: 1,
        amount: None,
        under_dispute: true,
    };
    ShardedEngine::process_transaction_in_shard(&mut shard_state, dispute).unwrap();

    let chargeback = Transaction {
        tx_type: TransactionType::Chargeback,
        client: 1,
        tx_id: 1,
        amount: None,
        under_dispute: false,
    };
    ShardedEngine::process_transaction_in_shard(&mut shard_state, chargeback).unwrap();

    let account = shard_state.account(1).unwrap();
    assert_eq!(account.available, amount(0));
    assert_eq!(account.held, amount(0));
    assert_eq!(account.total, amount(0));
    assert!(account.locked);

    let tx = shard_state.transaction(1).unwrap();
    assert!(tx.under_dispute);
}

#[test]
fn test_insufficient_funds_withdrawal() {
    let mut shard_state = ShardState::new();

    let deposit = Transaction {
        tx_type: TransactionType::Deposit,
        client: 1,
        tx_id: 1,
        amount: Some(amount(500)),
        under_dispute: false,
    };
    ShardedEngine::process_transaction_in_shard(&mut shard_state, deposit).unwrap();

    let withdrawal = Transaction {
        tx_type: TransactionType::Withdrawal,
        client: 1,
        tx_id: 2,
        amount: Some(amount(1000)),
        under_dispute: false,
    };
    let result = ShardedEngine::process_transaction_in_shard(&mut shard_state, withdrawal);
    assert!(result.is_err());

    let account = shard_state.account(1).unwrap();
    assert_eq!(account.available, amount(500));
    assert_eq!(account.total, amount(500));
    assert_eq!(account.held, amount(0));

    let tx = shard_state.transaction(2);
    assert!(tx.is_none());
}

#[test]
fn test_concurrent_transactions() {
    let runtime = tokio::runtime::Runtime::new().unwrap();
    runtime.block_on(async {
        let (engine, receivers) = ShardedEngine::new(4);
        let engine = Arc::new(tokio::sync::RwLock::new(engine));
        let mut shards = Vec::new();
        let mut workers = Vec::new();
        for mut rx in receivers {
            let shard = Arc::new(tokio::sync::Mutex::new(ShardState::new()));
            shards.push(shard.clone());
            workers.push(tokio::spawn(async move {
                while let Some(transaction) = rx.recv().await {
                    let mut state = shard.lock().await;
                    let _ = ShardedEngine::process_transaction_in_shard(&mut state, transaction);
                }
            }));
        }

        let mut handles = vec![];
        for i in 0..100u16 {
            let engine = engine.clone();
            let transaction = Transaction {
                tx_type: if i % 2 == 0 {
                    TransactionType::Deposit
                } else {
                    TransactionType::Withdrawal
                },
                client: i % 10,
                tx_id: i as u32,
                amount: Some(amount(1000)),
                under_dispute: false,
            };
            handles.push(tokio::spawn(async move {
                engine.write().await.route_transaction(transaction).unwrap();
            }));
        }
        for handle in handles {
            handle.await.unwrap();
        }

        engine.write().await.shutdown();
        for worker in workers {
            worker.await.unwrap();
        }

        for shard in &shards {
            let shard_state = shard.lock().await;
            for (_, account) in shard_state.snapshot() {
                assert!(account.available.units >= 0);
                assert!(account.total.units >= account.available.units);
                assert_eq!(account.total.units, account.available.units + account.held.units);
            }
        }
    });
}

#[test]
fn deposit_opens_account() {
    let mut state = ShardState::new();
    process(&mut state, tx(TransactionType::Deposit, 1, 1, Some(1000))).unwrap();
    let account = *state.account(1).unwrap();
    assert_eq!(account.available, amount(1000));
    assert_eq!(account.held, amount(0));
    assert_eq!(account.total, amount(1000));
    assert!(!account.locked);
}

#[test]
fn withdrawal_then_overdraw() {
    let mut state = ShardState::new();
    process(&mut state, tx(TransactionType::Deposit, 1, 1, Some(1000))).unwrap();
    process(&mut state, tx(TransactionType::Withdrawal, 1, 2, Some(500))).unwrap();
    let account = *state.account(1).unwrap();
    assert_eq!(account.available, amount(500));
    assert_eq!(account.total, amount(500));
    assert_eq!(account.held, amount(0));

    let result = process(&mut state, tx(TransactionType::Withdrawal, 1, 3, Some(1000)));
    assert!(matches!(result, Err(EngineError::InsufficientFunds)));
    assert_eq!(*state.account(1).unwrap(), account);
    assert!(state.transaction(3).is_none());
}

#[test]
fn dispute_then_resolve() {
    let mut state = ShardState::new();
    process(&mut state, tx(TransactionType::Deposit, 1, 1, Some(1000))).unwrap();
    process(&mut state, tx(TransactionType::Dispute, 1, 1, None)).unwrap();
    let account = *state.account(1).unwrap();
    assert_eq!((account.available, account.held, account.total), (amount(0), amount(1000), amount(1000)));
    process(&mut state, tx(TransactionType::Resolve, 1, 1, None)).unwrap();
    let account = *state.account(1).unwrap();
    assert_eq!((account.available, account.held, account.total), (amount(1000), amount(0), amount(1000)));
}

#[test]
fn chargeback_locks_and_second_is_refused() {
    let mut state = ShardState::new();
    process(&mut state, tx(TransactionType::Deposit, 1, 1, Some(1000))).unwrap();
    process(&mut state, tx(TransactionType::Dispute, 1, 1, None)).unwrap();
    process(&mut state, tx(TransactionType::Chargeback, 1, 1, None)).unwrap();
    let account = *state.account(1).unwrap();
    assert_eq!((account.available, account.held, account.total), (amount(0), amount(0), amount(0)));
    assert!(account.locked);

    let result = process(&mut state, tx(TransactionType::Chargeback, 1, 1, None));
    assert!(matches!(result, Err(EngineError::InvalidOperation(_))));
    assert_eq!(*state.account(1).unwrap(), account);
}

#[test]
fn resolve_of_unknown_transaction() {
    let mut state = ShardState::new();
    let result = process(&mut state, tx(TransactionType::Resolve, 9, 999, None));
    assert!(matches!(result, Err(EngineError::TransactionNotFound(999))));
}

#[test]
fn interleaved_transactions_across_shards() {
    let (engine, _receivers) = ShardedEngine::new(4);
    let mut states: Vec<ShardState> = (0..4).map(|_| ShardState::new()).collect();
    for i in 0..100u16 {
        let kind = if i % 3 == 0 { TransactionType::Withdrawal } else { TransactionType::Deposit };
        let t = tx(kind, i % 10, i as u32, Some((i as i128 % 7) + 1));
        let shard = engine.shard_for(t.client);
        let _ = process(&mut states[shard], t);
    }
    let mut clients = 0;
    for state in &states {
        for (_, account) in state.snapshot() {
            clients += 1;
            assert!(account.available.units >= 0);
            assert_eq!(account.total.units, account.available.units + account.held.units);
        }
    }
    assert_eq!(clients, 10);
}

#[test]
fn resolve_or_chargeback_of_undisputed_is_invalid() {
    let mut state = ShardState::new();
    process(&mut state, tx(TransactionType::Deposit, 2, 5, Some(10))).unwrap();
    assert!(matches!(
        process(&mut state, tx(TransactionType::Resolve, 2, 5, None)),
        Err(EngineError::InvalidOperation(_))
    ));
    assert!(matches!(
        process(&mut state, tx(TransactionType::Chargeback, 2, 5, None)),
        Err(EngineError::InvalidOperation(_))
    ));
    assert_eq!(state.account(2).unwrap().available, amount(10));
}

#[test]
fn locked_account_stays_frozen_in_shard() {
    let mut state = ShardState::new();
    process(&mut state, tx(TransactionType::Deposit, 3, 1, Some(50))).unwrap();
    process(&mut state, tx(TransactionType::Deposit, 3, 2, Some(20))).unwrap();
    process(&mut state, tx(TransactionType::Dispute, 3, 2, None)).unwrap();
    process(&mut state, tx(TransactionType::Chargeback, 3, 2, None)).unwrap();
    let frozen = *state.account(3).unwrap();
    assert_eq!(frozen.total, amount(50));

    assert!(process(&mut state, tx(TransactionType::Deposit, 3, 10, Some(5))).is_err());
    assert!(process(&mut state, tx(TransactionType::Withdrawal, 3, 11, Some(5))).is_err());
    assert!(process(&mut state, tx(TransactionType::Dispute, 3, 1, None)).is_err());
    assert!(process(&mut state, tx(TransactionType::Resolve, 3, 2, None)).is_err());
    assert_eq!(*state.account(3).unwrap(), frozen);
    assert!(state.transaction(10).is_none());
    assert!(!state.transaction(1).unwrap().under_dispute);
}

#[test]
fn other_clients_are_untouched() {
    let mut state = ShardState::new();
    process(&mut state, tx(TransactionType::Deposit, 1, 1, Some(30))).unwrap();
    process(&mut state, tx(TransactionType::Deposit, 5, 2, Some(40))).unwrap();
    let other = *state.account(5).unwrap();
    process(&mut state, tx(TransactionType::Withdrawal, 1, 3, Some(10))).unwrap();
    process(&mut state, tx(TransactionType::Dispute, 1, 1, None)).unwrap();
    assert_eq!(*state.account(5).unwrap(), other);
}

#[test]
fn routing_keeps_a_client_on_one_shard() {
    let (engine, _receivers) = ShardedEngine::new(4);
    assert_eq!(engine.shard_count(), 4);
    assert_eq!(engine.shard_for(1), 1);
    assert_eq!(engine.shard_for(5), 1);
    assert_eq!(engine.shard_for(8), 0);
    assert_eq!(engine.shard_for(65535), 3);
}

#[test]
fn routed_transactions_arrive_in_order() {
    let (mut engine, mut receivers) = ShardedEngine::new(3);
    let first = tx(TransactionType::Deposit, 4, 1, Some(10));
    let other = tx(TransactionType::Deposit, 5, 2, Some(10));
    let second = tx(TransactionType::Withdrawal, 4, 3, Some(5));
    engine.route_transaction(first).unwrap();
    engine.route_transaction(other).unwrap();
    engine.route_transaction(second).unwrap();
    let queue = &mut receivers[1];
    assert_eq!(queue.try_recv().unwrap(), first);
    assert_eq!(queue.try_recv().unwrap(), second);
    assert!(queue.try_recv().is_err());
    assert_eq!(receivers[2].try_recv().unwrap(), other);
}

#[test]
fn routing_after_shutdown_is_refused() {
    let (mut engine, mut receivers) = ShardedEngine::new(2);
    engine.route_transaction(tx(TransactionType::Deposit, 0, 1, Some(1))).unwrap();
    engine.shutdown();
    let result = engine.route_transaction(tx(TransactionType::Deposit, 0, 2, Some(1)));
    assert!(matches!(result, Err(EngineError::ShutDownError(_))));
    assert!(receivers[0].try_recv().is_ok());
    assert!(matches!(
        receivers[0].try_recv(),
        Err(tokio::sync::mpsc::error::TryRecvError::Disconnected)
    ));
}

#[test]
fn routing_to_a_closed_queue_hands_the_transaction_back() {
    let (mut engine, receivers) = ShardedEngine::new(2);
    drop(receivers);
    let t = tx(TransactionType::Withdrawal, 3, 4, Some(2));
    match engine.route_transaction(t) {
        Err(EngineError::SendError(back)) => assert_eq!(back, t),
        other => panic!("unexpected {:?}", other),
    }
}

#[test]
fn completion_counts_each_worker() {
    let tracker = Arc::new(Mutex::new(CompletionTracker::new(2)));
    assert!(!tracker.lock().unwrap().is_complete());
    tracker.lock().unwrap().worker_exited();
    assert!(!tracker.lock().unwrap().is_complete());
    tracker.lock().unwrap().worker_exited();
    assert!(tracker.lock().unwrap().is_complete());
    tracker.lock().unwrap().worker_exited();
    assert!(tracker.lock().unwrap().is_complete());
    assert!(CompletionTracker::new(0).is_complete());
}

#[test]
fn snapshot_lists_each_client_once() {
    let mut state = ShardState::new();
    process(&mut state, tx(TransactionType::Deposit, 8, 1, Some(1))).unwrap();
    process(&mut state, tx(TransactionType::Deposit, 4, 2, Some(2))).unwrap();
    process(&mut state, tx(TransactionType::Deposit, 8, 3, Some(3))).unwrap();
    let _ = process(&mut state, tx(TransactionType::Withdrawal, 6, 4, Some(3)));
    let snapshot = state.snapshot();
    let clients: Vec<u16> = snapshot.iter().map(|(c, _)| *c).collect();
    assert_eq!(clients, vec![8, 4, 6]);
    assert_eq!(snapshot[0].1.total, amount(4));
    assert_eq!(snapshot[2].1.total, amount(0));
}

#[test]
fn deposit_without_amount_is_refused() {
    let mut state = ShardState::new();
    process(&mut state, tx(TransactionType::Deposit, 2, 1, Some(10))).unwrap();
    let before = *state.account(2).unwrap();
    let result = process(&mut state, tx(TransactionType::Deposit, 2, 2, None));
    assert!(matches!(result, Err(EngineError::TransactionError(_))));
    assert!(matches!(
        process(&mut state, tx(TransactionType::Withdrawal, 2, 3, None)),
        Err(EngineError::TransactionError(_))
    ));
    assert_eq!(*state.account(2).unwrap(), before);
    assert!(state.transaction(2).is_none());
}
