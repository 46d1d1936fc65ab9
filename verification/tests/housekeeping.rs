use cfd_engine::db::Connection;
use cfd_engine::housekeeping::{rebroadcast_transactions, transition_non_continue_cfds_to_setup_failed};
use cfd_engine::model::cfd::{Cfd, RolloverStatus, SetupStatus};
use cfd_engine::model::{
    BitMexPriceEventId, CfdEvent, Dlc, EventKind, FundingRate, Identity, Leverage, OrderId,
    Position, Price, Role, Timestamp, Txid, Usd,
};
use cfd_engine::process_manager::{Command, TransactionKind};

fn dummy_row(id: u64) -> cfd_engine::db::Cfd {
    cfd_engine::db::Cfd {
        id: OrderId(id),
        position: Position::Long,
        initial_price: Price(40000),
        taker_leverage: Leverage(2),
        settlement_interval_hours: 24,
        quantity_usd: Usd(1000),
        counterparty_network_identity: Identity(7),
        role: Role::Maker,
        opening_fee_sats: 500,
        initial_funding_rate: FundingRate(10),
        oracle_event_id: BitMexPriceEventId(1634119200),
    }
}

fn dummy_dlc() -> Dlc {
    Dlc {
        lock_tx: Txid(21),
        commit_tx: Txid(22),
        refund_tx: Txid(23),
        settlement_event_id: BitMexPriceEventId(1634119200),
        maker_margin_sats: 2_000_000,
        taker_margin_sats: 1_000_000,
        refund_timelock: 288,
    }
}

fn append(db: &mut Connection, id: OrderId, ts: u64, kind: EventKind) {
    db.append_event(CfdEvent { timestamp: Timestamp(ts), id, event: kind }).unwrap();
}

/// Scenario: a contract whose log holds only `ContractSetupStarted` — a
/// mid-negotiation crash — becomes a failed terminal state after the
/// recovery sweep.
#[test]
fn interrupted_setup_becomes_terminal_after_sweep() {
    let mut db = Connection::new();
    let row = dummy_row(1);
    db.insert_cfd(row).unwrap();
    append(&mut db, row.id, 100, EventKind::ContractSetupStarted);

    transition_non_continue_cfds_to_setup_failed(&mut db, Timestamp(200)).unwrap();

    let agg: Cfd = db.load_open_cfd(row.id, ()).unwrap();
    assert_eq!(agg.setup, SetupStatus::Failed);
    assert!(agg.is_failed);

    let events = db.load_cfd_events(row.id, 0).unwrap();
    assert_eq!(events.len(), 2);
    assert_eq!(events[1].event, EventKind::ContractSetupFailed);
    assert_eq!(events[1].timestamp, Timestamp(200));
}

#[test]
fn interrupted_rollover_becomes_terminal_after_sweep() {
    let mut db = Connection::new();
    let row = dummy_row(1);
    db.insert_cfd(row).unwrap();
    append(&mut db, row.id, 100, EventKind::ContractSetupStarted);
    append(&mut db, row.id, 101, EventKind::ContractSetupCompleted { dlc: dummy_dlc() });
    append(&mut db, row.id, 102, EventKind::LockConfirmed);
    append(&mut db, row.id, 103, EventKind::RolloverStarted);

    transition_non_continue_cfds_to_setup_failed(&mut db, Timestamp(200)).unwrap();

    let agg: Cfd = db.load_open_cfd(row.id, ()).unwrap();
    assert_eq!(agg.rollover, RolloverStatus::Inactive);
    assert!(agg.is_open);

    let events = db.load_cfd_events(row.id, 0).unwrap();
    assert_eq!(events.last().unwrap().event, EventKind::RolloverFailed);
}

#[test]
fn whole_contracts_are_untouched_by_the_sweep() {
    let mut db = Connection::new();
    let healthy = dummy_row(1);
    let stuck = dummy_row(2);
    db.insert_cfd(healthy).unwrap();
    db.insert_cfd(stuck).unwrap();
    append(&mut db, healthy.id, 100, EventKind::ContractSetupStarted);
    append(&mut db, healthy.id, 101, EventKind::ContractSetupCompleted { dlc: dummy_dlc() });
    append(&mut db, stuck.id, 100, EventKind::ContractSetupStarted);

    transition_non_continue_cfds_to_setup_failed(&mut db, Timestamp(200)).unwrap();

    let healthy_events = db.load_cfd_events(healthy.id, 0).unwrap();
    assert_eq!(healthy_events.len(), 2);

    let stuck_agg: Cfd = db.load_open_cfd(stuck.id, ()).unwrap();
    assert_eq!(stuck_agg.setup, SetupStatus::Failed);
}

#[test]
fn pending_lock_transactions_are_rebroadcast() {
    let mut db = Connection::new();
    let row = dummy_row(1);
    db.insert_cfd(row).unwrap();
    // setup completed but the lock confirmation never arrived
    append(&mut db, row.id, 100, EventKind::ContractSetupStarted);
    append(&mut db, row.id, 101, EventKind::ContractSetupCompleted { dlc: dummy_dlc() });

    let cmds = rebroadcast_transactions(&db);

    assert_eq!(
        cmds,
        vec![Command::TryBroadcastTransaction { tx: Txid(21), kind: TransactionKind::Lock }]
    );
}

#[test]
fn confirmed_lock_is_not_rebroadcast() {
    let mut db = Connection::new();
    let row = dummy_row(1);
    db.insert_cfd(row).unwrap();
    append(&mut db, row.id, 100, EventKind::ContractSetupStarted);
    append(&mut db, row.id, 101, EventKind::ContractSetupCompleted { dlc: dummy_dlc() });
    append(&mut db, row.id, 102, EventKind::LockConfirmed);

    let cmds = rebroadcast_transactions(&db);

    assert!(cmds.is_empty());
}

#[test]
fn due_refund_and_commit_transactions_are_rebroadcast() {
    let mut db = Connection::new();
    let refund_due = dummy_row(1);
    let commit_due = dummy_row(2);
    db.insert_cfd(refund_due).unwrap();
    db.insert_cfd(commit_due).unwrap();

    append(&mut db, refund_due.id, 100, EventKind::ContractSetupStarted);
    append(&mut db, refund_due.id, 101, EventKind::ContractSetupCompleted { dlc: dummy_dlc() });
    append(&mut db, refund_due.id, 102, EventKind::LockConfirmed);
    append(&mut db, refund_due.id, 103, EventKind::RefundTimelockExpired { refund_tx: Txid(23) });

    append(&mut db, commit_due.id, 100, EventKind::ContractSetupStarted);
    append(&mut db, commit_due.id, 101, EventKind::ContractSetupCompleted { dlc: dummy_dlc() });
    append(&mut db, commit_due.id, 102, EventKind::LockConfirmed);
    append(&mut db, commit_due.id, 103, EventKind::ManualCommit { tx: Txid(22) });

    let cmds = rebroadcast_transactions(&db);

    assert_eq!(
        cmds,
        vec![
            Command::TryBroadcastTransaction { tx: Txid(23), kind: TransactionKind::Refund },
            Command::TryBroadcastTransaction { tx: Txid(22), kind: TransactionKind::Commit },
        ]
    );
}

#[test]
fn confirmed_commit_is_no_longer_pending() {
    let mut db = Connection::new();
    let row = dummy_row(1);
    db.insert_cfd(row).unwrap();
    append(&mut db, row.id, 100, EventKind::ContractSetupStarted);
    append(&mut db, row.id, 101, EventKind::ContractSetupCompleted { dlc: dummy_dlc() });
    append(&mut db, row.id, 102, EventKind::LockConfirmed);
    append(&mut db, row.id, 103, EventKind::ManualCommit { tx: Txid(22) });
    append(&mut db, row.id, 104, EventKind::CommitConfirmed);

    let cmds = rebroadcast_transactions(&db);

    assert!(cmds.is_empty());
}
