use ledger::client::{Client, TransactionError, TransactionType};
use ledger::transaction_engine::{Record, Snapshot, TransactionEngine};

fn rec(kind: &str, client: Option<u16>, tx: Option<u32>, amount: Option<i64>) -> Record {
    Record { tx_type: String::from(kind), client, tx, amount }
}

fn only_snapshot(engine: &TransactionEngine) -> Snapshot {
    let snaps = engine.snapshot_all();
    assert_eq!(snaps.len(), 1);
    snaps[0]
}

#[test]
fn two_deposits_accumulate() {
    let mut engine = TransactionEngine::new();
    engine.process_transactions(rec("deposit", Some(1), Some(1), Some(5))).unwrap();
    engine.process_transactions(rec("deposit", Some(1), Some(2), Some(3))).unwrap();
    let s = only_snapshot(&engine);
    assert_eq!((s.client, s.available, s.held, s.total, s.locked), (1, 8, 0, 8, false));
}

#[test]
fn overdraw_is_ignored() {
    let mut engine = TransactionEngine::new();
    engine.process_transactions(rec("deposit", Some(1), Some(1), Some(5))).unwrap();
    engine.process_transactions(rec("withdrawal", Some(1), Some(2), Some(6))).unwrap();
    let s = only_snapshot(&engine);
    assert_eq!((s.available, s.held, s.total, s.locked), (5, 0, 5, false));
}

#[test]
fn dispute_then_chargeback_locks_and_drains() {
    let mut engine = TransactionEngine::new();
    engine.process_transactions(rec("deposit", Some(1), Some(1), Some(10))).unwrap();
    engine.process_transactions(rec("dispute", Some(1), Some(1), None)).unwrap();
    let s = only_snapshot(&engine);
    assert_eq!((s.available, s.held, s.total, s.locked), (0, 10, 10, false));
    engine.process_transactions(rec("chargeback", Some(1), Some(1), None)).unwrap();
    let s = only_snapshot(&engine);
    assert_eq!((s.available, s.held, s.total, s.locked), (0, 0, 0, true));
}

#[test]
fn first_sight_dispute_creates_empty_account() {
    let mut engine = TransactionEngine::new();
    engine.process_transactions(rec("dispute", Some(7), Some(9), None)).unwrap();
    let s = only_snapshot(&engine);
    assert_eq!((s.client, s.available, s.held, s.total, s.locked), (7, 0, 0, 0, false));
}

#[test]
fn settled_reissue_is_noop() {
    let mut engine = TransactionEngine::new();
    engine.process_transactions(rec("deposit", Some(1), Some(1), Some(5))).unwrap();
    engine.process_transactions(rec("dispute", Some(1), Some(1), None)).unwrap();
    engine.process_transactions(rec("resolve", Some(1), Some(1), None)).unwrap();
    let s = only_snapshot(&engine);
    assert_eq!((s.available, s.held, s.total, s.locked), (5, 0, 5, false));
    // A second resolve and a chargeback on the settled transaction change nothing.
    engine.process_transactions(rec("resolve", Some(1), Some(1), None)).unwrap();
    engine.process_transactions(rec("chargeback", Some(1), Some(1), None)).unwrap();
    let s = only_snapshot(&engine);
    assert_eq!((s.available, s.held, s.total, s.locked), (5, 0, 5, false));
}

#[test]
fn dispute_unknown_tx_is_noop() {
    let mut engine = TransactionEngine::new();
    engine.process_transactions(rec("deposit", Some(1), Some(1), Some(5))).unwrap();
    engine.process_transactions(rec("dispute", Some(1), Some(99), None)).unwrap();
    let s = only_snapshot(&engine);
    assert_eq!((s.available, s.held, s.total, s.locked), (5, 0, 5, false));
}

#[test]
fn dispute_after_resolve_reapplies() {
    // The dispute precondition is only that the transaction exists, so a
    // settled transaction can be disputed again.
    let mut engine = TransactionEngine::new();
    engine.process_transactions(rec("deposit", Some(1), Some(1), Some(5))).unwrap();
    engine.process_transactions(rec("dispute", Some(1), Some(1), None)).unwrap();
    engine.process_transactions(rec("resolve", Some(1), Some(1), None)).unwrap();
    engine.process_transactions(rec("dispute", Some(1), Some(1), None)).unwrap();
    let s = only_snapshot(&engine);
    assert_eq!((s.available, s.held, s.total, s.locked), (0, 5, 5, false));
}

#[test]
fn lock_is_final_for_withdrawals_but_not_deposits() {
    let mut engine = TransactionEngine::new();
    engine.process_transactions(rec("deposit", Some(1), Some(1), Some(10))).unwrap();
    engine.process_transactions(rec("dispute", Some(1), Some(1), None)).unwrap();
    engine.process_transactions(rec("chargeback", Some(1), Some(1), None)).unwrap();
    let s = only_snapshot(&engine);
    assert!(s.locked);
    engine.process_transactions(rec("withdrawal", Some(1), Some(2), Some(3))).unwrap();
    let s = only_snapshot(&engine);
    assert_eq!((s.available, s.held, s.total, s.locked), (0, 0, 0, true));
    engine.process_transactions(rec("deposit", Some(1), Some(3), Some(4))).unwrap();
    let s = only_snapshot(&engine);
    assert_eq!((s.available, s.held, s.total, s.locked), (4, 0, 4, true));
}

#[test]
fn withdrawal_of_exact_balance_is_rejected() {
    let mut engine = TransactionEngine::new();
    engine.process_transactions(rec("deposit", Some(1), Some(1), Some(5))).unwrap();
    engine.process_transactions(rec("withdrawal", Some(1), Some(2), Some(5))).unwrap();
    let s = only_snapshot(&engine);
    assert_eq!((s.available, s.total), (5, 5));
    engine.process_transactions(rec("withdrawal", Some(1), Some(3), Some(4))).unwrap();
    let s = only_snapshot(&engine);
    assert_eq!((s.available, s.held, s.total), (1, 0, 1));
}

#[test]
fn resolve_returns_held_funds() {
    let mut engine = TransactionEngine::new();
    engine.process_transactions(rec("deposit", Some(1), Some(1), Some(5))).unwrap();
    engine.process_transactions(rec("dispute", Some(1), Some(1), None)).unwrap();
    let s = only_snapshot(&engine);
    assert_eq!((s.available, s.held, s.total), (0, 5, 5));
    engine.process_transactions(rec("resolve", Some(1), Some(1), None)).unwrap();
    let s = only_snapshot(&engine);
    assert_eq!((s.available, s.held, s.total), (5, 0, 5));
}

#[test]
fn unrecognized_kind_falls_back_to_dispute() {
    let mut engine = TransactionEngine::new();
    engine.process_transactions(rec("deposit", Some(1), Some(1), Some(5))).unwrap();
    engine.process_transactions(rec("transfer", Some(1), Some(1), None)).unwrap();
    let s = only_snapshot(&engine);
    assert_eq!((s.available, s.held, s.total), (0, 5, 5));
}

#[test]
fn malformed_records_are_rejected_and_skipped() {
    let mut engine = TransactionEngine::new();
    let r = engine.process_transactions(rec("deposit", None, Some(1), Some(5)));
    assert_eq!(r, Err(TransactionError::MalformedRecord));
    let r = engine.process_transactions(rec("deposit", Some(1), None, Some(5)));
    assert_eq!(r, Err(TransactionError::MalformedRecord));
    assert_eq!(engine.snapshot_all().len(), 0);
}

#[test]
fn kind_parsing_matches_record_names() {
    assert_eq!(TransactionType::from(String::from("deposit")), TransactionType::Deposit);
    assert_eq!(TransactionType::from(String::from("withdrawal")), TransactionType::Withdrawal);
    assert_eq!(TransactionType::from(String::from("resolve")), TransactionType::Resolve);
    assert_eq!(TransactionType::from(String::from("chargeback")), TransactionType::Chargeback);
    assert_eq!(TransactionType::from(String::from("dispute")), TransactionType::Dispute);
    assert_eq!(TransactionType::from(String::from("")), TransactionType::Dispute);
    assert_eq!(TransactionType::from(String::from("Deposit")), TransactionType::Dispute);
}

#[test]
fn snapshots_keep_first_sight_order_and_sort_by_id() {
    let mut engine = TransactionEngine::new();
    engine.process_transactions(rec("deposit", Some(3), Some(1), Some(30))).unwrap();
    engine.process_transactions(rec("deposit", Some(1), Some(2), Some(10))).unwrap();
    engine.process_transactions(rec("deposit", Some(2), Some(3), Some(20))).unwrap();
    let all: Vec<u16> = engine.snapshot_all().iter().map(|s| s.client).collect();
    assert_eq!(all, vec![3, 1, 2]);
    let sorted = engine.snapshot_sorted();
    let ids: Vec<u16> = sorted.iter().map(|s| s.client).collect();
    assert_eq!(ids, vec![1, 2, 3]);
    assert_eq!(sorted[0].available, 10);
    assert_eq!(sorted[1].available, 20);
    assert_eq!(sorted[2].available, 30);
}

#[test]
fn unrepresentable_deposit_is_ignored() {
    let mut engine = TransactionEngine::new();
    engine.process_transactions(rec("deposit", Some(1), Some(1), Some(i64::MAX))).unwrap();
    engine.process_transactions(rec("deposit", Some(1), Some(2), Some(1))).unwrap();
    let s = only_snapshot(&engine);
    assert_eq!((s.available, s.held, s.total), (i64::MAX, 0, i64::MAX));
}

#[test]
fn first_record_withdrawal_seeds_available() {
    // A withdrawal for a never-seen client seeds the account with its amount.
    let mut engine = TransactionEngine::new();
    engine.process_transactions(rec("withdrawal", Some(1), Some(1), Some(5))).unwrap();
    let s = only_snapshot(&engine);
    assert_eq!((s.available, s.held, s.total, s.locked), (5, 0, 5, false));
}

#[test]
fn client_state_machine_directly() {
    let mut c = Client::new(1, 1, TransactionType::Deposit, 100);
    assert_eq!((c.available, c.held, c.locked), (100, 0, false));
    c.execute_transaction(2, TransactionType::Withdrawal, 40).unwrap();
    assert_eq!((c.available, c.held), (60, 0));
    c.execute_transaction(2, TransactionType::Dispute, 0).unwrap();
    assert_eq!((c.available, c.held), (20, 40));
    c.execute_transaction(2, TransactionType::Chargeback, 0).unwrap();
    assert_eq!((c.available, c.held, c.locked), (20, 0, true));
}

#[test]
fn default_engine_is_empty() {
    let engine = TransactionEngine::default();
    assert_eq!(engine.snapshot_all().len(), 0);
}
