use cfd_engine::db::Connection;
use cfd_engine::model::{
    BitMexPriceEventId, CfdEvent, Dlc, EventKind, FundingRate, Identity, Leverage, OrderId,
    Position, Price, Role, Timestamp, Txid, Usd,
};
use cfd_engine::position_metrics::{update_position_metrics, Cfd};

fn dummy_row(id: u64, position: Position, quantity: u64) -> cfd_engine::db::Cfd {
    cfd_engine::db::Cfd {
        id: OrderId(id),
        position,
        initial_price: Price(40000),
        taker_leverage: Leverage(2),
        settlement_interval_hours: 24,
        quantity_usd: Usd(quantity),
        counterparty_network_identity: Identity(7),
        role: Role::Maker,
        opening_fee_sats: 500,
        initial_funding_rate: FundingRate(10),
        oracle_event_id: BitMexPriceEventId(1634119200),
    }
}

fn dummy_dlc() -> Dlc {
    Dlc {
        lock_tx: Txid(21),
        commit_tx: Txid(22),
        refund_tx: Txid(23),
        settlement_event_id: BitMexPriceEventId(1634119200),
        maker_margin_sats: 2_000_000,
        taker_margin_sats: 1_000_000,
        refund_timelock: 288,
    }
}

fn append(db: &mut Connection, id: OrderId, ts: u64, kind: EventKind) {
    db.append_event(CfdEvent { timestamp: Timestamp(ts), id, event: kind }).unwrap();
}

#[test]
fn gauges_aggregate_quantity_and_count_by_position_and_status() {
    let mut db = Connection::new();

    // an open long of 1000
    let open_long = dummy_row(1, Position::Long, 1000);
    db.insert_cfd(open_long).unwrap();
    append(&mut db, open_long.id, 100, EventKind::ContractSetupStarted);
    append(&mut db, open_long.id, 101, EventKind::ContractSetupCompleted { dlc: dummy_dlc() });

    // another open long of 250
    let open_long_2 = dummy_row(2, Position::Long, 250);
    db.insert_cfd(open_long_2).unwrap();
    append(&mut db, open_long_2.id, 100, EventKind::ContractSetupStarted);
    append(&mut db, open_long_2.id, 101, EventKind::ContractSetupCompleted { dlc: dummy_dlc() });

    // a failed short of 500
    let failed_short = dummy_row(3, Position::Short, 500);
    db.insert_cfd(failed_short).unwrap();
    append(&mut db, failed_short.id, 100, EventKind::OfferRejected);

    // a closed short of 750
    let closed_short = dummy_row(4, Position::Short, 750);
    db.insert_cfd(closed_short).unwrap();
    append(&mut db, closed_short.id, 100, EventKind::ContractSetupStarted);
    append(&mut db, closed_short.id, 101, EventKind::ContractSetupCompleted { dlc: dummy_dlc() });
    append(&mut db, closed_short.id, 102, EventKind::LockConfirmed);
    append(&mut db, closed_short.id, 103, EventKind::CetConfirmed);

    // a refunded long of 100
    let refunded_long = dummy_row(5, Position::Long, 100);
    db.insert_cfd(refunded_long).unwrap();
    append(&mut db, refunded_long.id, 100, EventKind::ContractSetupStarted);
    append(&mut db, refunded_long.id, 101, EventKind::ContractSetupCompleted { dlc: dummy_dlc() });
    append(&mut db, refunded_long.id, 102, EventKind::LockConfirmed);
    append(&mut db, refunded_long.id, 103, EventKind::RefundTimelockExpired {
        refund_tx: Txid(23),
    });
    append(&mut db, refunded_long.id, 104, EventKind::RefundConfirmed);

    let cfds: Vec<Cfd> = db.load_all_cfds(());
    let snapshot = update_position_metrics(&cfds);

    assert_eq!(snapshot.open_long.quantity, 1250);
    assert_eq!(snapshot.open_long.count, 2);
    assert_eq!(snapshot.open_short.quantity, 0);
    assert_eq!(snapshot.open_short.count, 0);
    assert_eq!(snapshot.failed_short.quantity, 500);
    assert_eq!(snapshot.failed_short.count, 1);
    assert_eq!(snapshot.closed_short.quantity, 750);
    assert_eq!(snapshot.closed_short.count, 1);
    assert_eq!(snapshot.refunded_long.quantity, 100);
    assert_eq!(snapshot.refunded_long.count, 1);
    assert_eq!(snapshot.failed_long.count, 0);
    // the refunded contract closed when its refund timelock expired, so
    // it counts as closed too
    assert_eq!(snapshot.closed_long.quantity, 100);
    assert_eq!(snapshot.closed_long.count, 1);
    assert_eq!(snapshot.refunded_short.count, 0);
}

#[test]
fn metrics_read_model_tracks_status_transitions() {
    let mut db = Connection::new();
    let row = dummy_row(1, Position::Long, 1000);
    db.insert_cfd(row).unwrap();
    append(&mut db, row.id, 100, EventKind::ContractSetupStarted);

    let mid: Cfd = db.load_open_cfd(row.id, ()).unwrap();
    assert!(!mid.is_open && !mid.is_closed && !mid.is_failed && !mid.is_refunded);

    append(&mut db, row.id, 101, EventKind::ContractSetupCompleted { dlc: dummy_dlc() });
    append(&mut db, row.id, 102, EventKind::LockConfirmed);
    let open: Cfd = db.load_open_cfd(row.id, ()).unwrap();
    assert!(open.is_open);
    assert_eq!(open.version, 3);

    append(&mut db, row.id, 103, EventKind::CollaborativeSettlementStarted {
        proposed_price: Price(41000),
    });
    let still_open: Cfd = db.load_open_cfd(row.id, ()).unwrap();
    assert!(still_open.is_open);

    append(&mut db, row.id, 104, EventKind::CollaborativeSettlementCompleted {
        spend_tx: Txid(99),
        script: 1,
        price: Price(41000),
    });
    let closed: Cfd = db.load_open_cfd(row.id, ()).unwrap();
    assert!(!closed.is_open);
    assert!(closed.is_closed);
}

#[test]
fn metrics_read_model_loads_failed_contracts_without_replay() {
    let mut db = Connection::new();
    let row = dummy_row(1, Position::Short, 300);
    db.insert_cfd(row).unwrap();
    append(&mut db, row.id, 100, EventKind::OfferRejected);
    db.move_to_failed_cfds().unwrap();

    let failed: Cfd = db.load_failed_cfd(row.id, ()).unwrap();
    assert_eq!(failed.position, Position::Short);
    assert_eq!(failed.quantity_usd, Usd(300));
    assert!(failed.is_failed);
    assert!(!failed.is_open);
}
