//! The dispatcher with live shard workers: routing, the report
//! barrier, backpressure under a tiny mailbox, and the error paths.

use crossbeam_channel::Receiver;
use std::collections::HashMap;
use test_accounting::account::{Account, AccountOperation, AccountOperationType};
use test_accounting::processor::{route, AccountCommand, AccountProcessor, ProcessorError, ShardWorker};

fn run_worker(receiver: Receiver<AccountCommand>) {
    let mut worker = ShardWorker::new();
    while worker.is_running() {
        worker.step(&receiver);
    }
}

fn op(kind: AccountOperationType, client: u16, tx: u32, amount: Option<i64>) -> AccountOperation {
    AccountOperation::new(kind, client, tx, amount)
}

fn run_scenario(
    pool_size: u16,
    max_queue: usize,
    ops: Vec<AccountOperation>,
) -> HashMap<u16, Account> {
    let (processor, receivers) = AccountProcessor::new(pool_size, max_queue).unwrap();
    crossbeam_utils::thread::scope(|scope| {
        for receiver in receivers {
            scope.spawn(move |_| run_worker(receiver));
        }
        for operation in ops {
            processor.process_operation(operation).unwrap();
        }
        processor.report().unwrap()
    })
    .unwrap()
}

#[test]
fn dispatcher_runs_mixed_clients() {
    let report = run_scenario(
        4,
        16,
        vec![
            op(AccountOperationType::Deposit, 1, 1, Some(10000)),
            op(AccountOperationType::Deposit, 2, 2, Some(20000)),
            op(AccountOperationType::Deposit, 1, 3, Some(20000)),
            op(AccountOperationType::Withdrawal, 1, 4, Some(15000)),
            op(AccountOperationType::Withdrawal, 2, 5, Some(30000)),
        ],
    );
    assert_eq!(report.len(), 2);
    let one = report.get(&1).unwrap();
    assert_eq!(one.get_available(), 15000);
    assert_eq!(one.get_held(), 0);
    assert!(!one.is_locked());
    let two = report.get(&2).unwrap();
    assert_eq!(two.get_available(), 20000);
    assert_eq!(two.get_held(), 0);
    assert!(!two.is_locked());
}

#[test]
fn dispatcher_runs_chargeback_scenario() {
    let report = run_scenario(
        3,
        8,
        vec![
            op(AccountOperationType::Deposit, 14, 1, Some(570974900)),
            op(AccountOperationType::Dispute, 14, 2, Some(163971200)),
            op(AccountOperationType::Chargeback, 14, 2, None),
            op(AccountOperationType::Deposit, 14, 1, Some(570974900)),
        ],
    );
    let account = report.get(&14).unwrap();
    assert_eq!(account.get_available(), 407003700);
    assert_eq!(account.get_held(), 163971200);
    assert!(account.is_locked());
    assert_eq!(account.get_total(), 570974900i128);
}

#[test]
fn backpressure_loses_and_reorders_nothing() {
    // A mailbox of one slot and a single shard: the producer runs far
    // ahead of the worker and must block, never drop or reorder.
    let mut ops: Vec<AccountOperation> = Vec::new();
    for i in 0..500u32 {
        ops.push(op(AccountOperationType::Deposit, 3, i, Some(1)));
    }
    // An interleaved withdrawal pattern would notice reordering:
    // each withdrawal needs the deposit just before it.
    for i in 0..100u32 {
        ops.push(op(AccountOperationType::Deposit, 4, 1000 + i, Some(10)));
        ops.push(op(AccountOperationType::Withdrawal, 4, 2000 + i, Some(10)));
    }
    let report = run_scenario(1, 1, ops);
    assert_eq!(report.get(&3).unwrap().get_available(), 500);
    assert_eq!(report.get(&4).unwrap().get_available(), 0);
}

#[test]
fn same_client_always_routes_to_same_shard() {
    for pool_size in 1..=9u16 {
        for client in [0u16, 1, 7, 14, 255, 65535] {
            let first = route(client, pool_size);
            let second = route(client, pool_size);
            assert_eq!(first, second);
            assert!(first < pool_size);
        }
    }
    assert_eq!(route(14, 4), 2);
    assert_eq!(route(14, 1), 0);
}

#[test]
fn zero_shards_are_refused() {
    match AccountProcessor::new(0, 8) {
        Err(e) => assert_eq!(e, ProcessorError::InvalidShardCount),
        Ok(_) => panic!("a dispatcher without shards must be refused"),
    }
}

#[test]
fn zero_mailbox_capacity_is_refused() {
    match AccountProcessor::new(2, 0) {
        Err(e) => assert_eq!(e, ProcessorError::InvalidMailboxCapacity),
        Ok(_) => panic!("a dispatcher without mailbox room must be refused"),
    }
}

#[test]
fn lost_shard_surfaces_as_channel_closed() {
    let (processor, receivers) = AccountProcessor::new(2, 4).unwrap();
    drop(receivers);
    let submit = processor.process_operation(op(
        AccountOperationType::Deposit,
        1,
        1,
        Some(10000),
    ));
    assert_eq!(submit, Err(ProcessorError::ChannelClosed));
    match processor.report() {
        Err(e) => assert_eq!(e, ProcessorError::ChannelClosed),
        Ok(_) => panic!("a report without workers must fail"),
    }
}

#[test]
fn report_terminates_the_workers() {
    let (processor, receivers) = AccountProcessor::new(2, 4).unwrap();
    let outcome = crossbeam_utils::thread::scope(|scope| {
        for receiver in receivers {
            scope.spawn(move |_| run_worker(receiver));
        }
        processor
            .process_operation(op(AccountOperationType::Deposit, 1, 1, Some(10000)))
            .unwrap();
        let first = processor.report().unwrap();
        assert_eq!(first.get(&1).unwrap().get_available(), 10000);
        // The workers answered and stopped: the next report finds the
        // mailboxes closed.
        processor.report()
    })
    .unwrap();
    assert_eq!(outcome.err(), Some(ProcessorError::ChannelClosed));
}

#[test]
fn identical_runs_report_identical_snapshots() {
    let ops = || {
        vec![
            op(AccountOperationType::Deposit, 14, 1, Some(570974900)),
            op(AccountOperationType::Dispute, 14, 2, Some(163971200)),
            op(AccountOperationType::Resolve, 14, 2, None),
            op(AccountOperationType::Deposit, 14, 1, Some(570974900)),
        ]
    };
    let first = run_scenario(2, 8, ops());
    let second = run_scenario(2, 8, ops());
    assert_eq!(first.len(), second.len());
    let a = first.get(&14).unwrap();
    let b = second.get(&14).unwrap();
    assert_eq!(a.get_available(), b.get_available());
    assert_eq!(a.get_held(), b.get_held());
    assert_eq!(a.is_locked(), b.is_locked());
    assert_eq!(a.get_available(), 1141949800);
    assert_eq!(a.get_held(), 0);
}
