use cfd_engine::db::{CfdAggregate, Connection, StoreError};
use cfd_engine::model::cfd::{Cfd, RolloverStatus, SetupStatus};
use cfd_engine::model::{
    BitMexPriceEventId, CfdEvent, EventKind, FundingRate, Identity, Leverage, OrderId, Position,
    Price, Role, Timestamp, Usd,
};

fn dummy_row(id: u64) -> cfd_engine::db::Cfd {
    cfd_engine::db::Cfd {
        id: OrderId(id),
        position: Position::Long,
        initial_price: Price(40000),
        taker_leverage: Leverage(2),
        settlement_interval_hours: 24,
        quantity_usd: Usd(1000),
        counterparty_network_identity: Identity(7),
        role: Role::Maker,
        opening_fee_sats: 500,
        initial_funding_rate: FundingRate(10),
        oracle_event_id: BitMexPriceEventId(1634119200),
    }
}

fn dummy_row_with_oracle_event_id(id: u64, oracle_event_id: BitMexPriceEventId) -> cfd_engine::db::Cfd {
    cfd_engine::db::Cfd {
        oracle_event_id,
        ..dummy_row(id)
    }
}

#[test]
fn test_insert_and_load_order() {
    let mut conn = Connection::new();

    let order = dummy_row(1);
    conn.insert_cfd(order).unwrap();

    let order_loaded = conn.load_cfd_row(order.id).unwrap();

    assert_eq!(order, order_loaded);
}

#[test]
fn test_insert_and_load_cfd() {
    let mut conn = Connection::new();

    let cfd = dummy_row(1);
    conn.insert_cfd(cfd).unwrap();

    let cfds_from_db: Vec<Cfd> = conn.load_all_cfds(());
    let cfd_from_db = cfds_from_db.first().unwrap();
    assert_eq!(cfd_from_db.terms, cfd);
    assert_eq!(cfd_from_db.version, 0);
}

#[test]
fn test_insert_and_load_cfd_by_order_id() {
    let mut conn = Connection::new();

    let cfd = dummy_row(1);
    let order_id = cfd.id;

    conn.insert_cfd(cfd).unwrap();

    let cfd_from_db: Cfd = conn.load_open_cfd(order_id, ()).unwrap();
    assert_eq!(cfd_from_db.terms, cfd);
}

#[test]
fn test_insert_and_load_cfd_by_order_id_multiple() {
    let mut conn = Connection::new();

    let cfd = dummy_row(1);
    let order_id = cfd.id;

    conn.insert_cfd(cfd).unwrap();

    let cfd_from_db: Cfd = conn.load_open_cfd(order_id, ()).unwrap();
    assert_eq!(cfd_from_db.terms, cfd);

    let cfd = dummy_row(2);
    let order_id = cfd.id;

    conn.insert_cfd(cfd).unwrap();

    let cfd_from_db: Cfd = conn.load_open_cfd(order_id, ()).unwrap();
    assert_eq!(cfd_from_db.terms, cfd);
}

#[test]
fn test_insert_and_load_cfd_by_oracle_event_id() {
    let mut conn = Connection::new();

    // 2021-10-13 10:00:00 UTC and 2021-10-25 18:00:00 UTC
    let oracle_event_id_1 = BitMexPriceEventId(1634119200);
    let oracle_event_id_2 = BitMexPriceEventId(1635184800);

    let cfd_1 = dummy_row_with_oracle_event_id(1, oracle_event_id_1);
    conn.insert_cfd(cfd_1).unwrap();

    let cfd_from_db: Vec<Cfd> = conn.load_cfds_by_oracle_event_id(oracle_event_id_1, ());
    assert_eq!(cfd_from_db.len(), 1);
    assert_eq!(cfd_from_db[0].terms, cfd_1);

    let cfd_2 = dummy_row_with_oracle_event_id(2, oracle_event_id_1);
    conn.insert_cfd(cfd_2).unwrap();

    let cfd_from_db: Vec<Cfd> = conn.load_cfds_by_oracle_event_id(oracle_event_id_1, ());
    assert_eq!(cfd_from_db.len(), 2);
    assert_eq!(cfd_from_db[0].terms, cfd_1);
    assert_eq!(cfd_from_db[1].terms, cfd_2);

    let cfd_3 = dummy_row_with_oracle_event_id(3, oracle_event_id_2);
    conn.insert_cfd(cfd_3).unwrap();

    let cfd_from_db: Vec<Cfd> = conn.load_cfds_by_oracle_event_id(oracle_event_id_2, ());
    assert_eq!(cfd_from_db.len(), 1);
    assert_eq!(cfd_from_db[0].terms, cfd_3);
}

#[test]
fn test_insert_new_cfd_state_and_load_with_multiple_cfd() {
    let mut conn = Connection::new();

    let cfd_1 = dummy_row(1);
    conn.insert_cfd(cfd_1).unwrap();

    conn.append_event(CfdEvent {
        timestamp: Timestamp(100),
        id: cfd_1.id,
        event: EventKind::ContractSetupStarted,
    })
    .unwrap();

    let cfds_from_db: Vec<Cfd> = conn.load_all_cfds(());
    assert_eq!(cfds_from_db.len(), 1);
    assert_eq!(cfds_from_db[0].setup, SetupStatus::Started);
    assert_eq!(cfds_from_db[0].version, 1);

    let cfd_2 = dummy_row(2);
    conn.insert_cfd(cfd_2).unwrap();

    let cfds_from_db: Vec<Cfd> = conn.load_all_cfds(());
    assert_eq!(cfds_from_db.len(), 2);

    conn.append_event(CfdEvent {
        timestamp: Timestamp(101),
        id: cfd_2.id,
        event: EventKind::OfferRejected,
    })
    .unwrap();

    let cfds_from_db: Vec<Cfd> = conn.load_all_cfds(());
    assert_eq!(cfds_from_db.len(), 2);
    assert_eq!(cfds_from_db[0].setup, SetupStatus::Started);
    assert_eq!(cfds_from_db[1].setup, SetupStatus::Rejected);
    assert!(cfds_from_db[1].is_failed);
}

#[test]
fn insert_rejects_duplicate_ids() {
    let mut conn = Connection::new();

    conn.insert_cfd(dummy_row(1)).unwrap();
    assert_eq!(conn.insert_cfd(dummy_row(1)), Err(StoreError::Duplicate));
}

#[test]
fn append_to_unknown_contract_is_not_found() {
    let mut conn = Connection::new();

    let result = conn.append_event(CfdEvent {
        timestamp: Timestamp(100),
        id: OrderId(99),
        event: EventKind::ContractSetupStarted,
    });
    assert_eq!(result, Err(StoreError::NotFound));
}

#[test]
fn load_unknown_contract_is_not_found() {
    let conn = Connection::new();

    assert_eq!(conn.load_cfd_row(OrderId(1)), Err(StoreError::NotFound));
    assert!(matches!(
        conn.load_open_cfd::<Cfd>(OrderId(1), ()),
        Err(StoreError::NotFound)
    ));
    assert!(matches!(
        conn.load_cfd_events(OrderId(1), 0),
        Err(StoreError::NotFound)
    ));
}

#[test]
fn sequence_numbers_are_contiguous_from_zero() {
    let mut conn = Connection::new();

    let cfd = dummy_row(1);
    conn.insert_cfd(cfd).unwrap();

    let kinds = [
        EventKind::ContractSetupStarted,
        EventKind::RolloverStarted,
        EventKind::RolloverRejected,
    ];
    for (i, kind) in kinds.iter().enumerate() {
        conn.append_event(CfdEvent {
            timestamp: Timestamp(100 + i as u64),
            id: cfd.id,
            event: *kind,
        })
        .unwrap();
    }

    let idx = conn
        .logs
        .iter()
        .position(|log| log.id == cfd.id)
        .unwrap();
    for (k, row) in conn.logs[idx].events.iter().enumerate() {
        assert_eq!(row.seq, k as u64);
        assert_eq!(row.event.id, cfd.id);
    }
}

#[test]
fn incremental_replay_from_offset() {
    let mut conn = Connection::new();

    let cfd = dummy_row(1);
    conn.insert_cfd(cfd).unwrap();

    let e0 = CfdEvent {
        timestamp: Timestamp(100),
        id: cfd.id,
        event: EventKind::ContractSetupStarted,
    };
    let e1 = CfdEvent {
        timestamp: Timestamp(101),
        id: cfd.id,
        event: EventKind::ContractSetupFailed,
    };
    conn.append_event(e0).unwrap();
    conn.append_event(e1).unwrap();

    assert_eq!(conn.load_cfd_events(cfd.id, 0).unwrap(), vec![e0, e1]);
    assert_eq!(conn.load_cfd_events(cfd.id, 1).unwrap(), vec![e1]);
    assert_eq!(conn.load_cfd_events(cfd.id, 2).unwrap(), vec![]);
    assert_eq!(conn.load_cfd_events(cfd.id, 7).unwrap(), vec![]);
}

#[test]
fn replaying_a_log_twice_derives_identical_state() {
    let mut conn = Connection::new();

    let cfd = dummy_row(1);
    conn.insert_cfd(cfd).unwrap();
    conn.append_event(CfdEvent {
        timestamp: Timestamp(100),
        id: cfd.id,
        event: EventKind::ContractSetupStarted,
    })
    .unwrap();
    conn.append_event(CfdEvent {
        timestamp: Timestamp(101),
        id: cfd.id,
        event: EventKind::ContractSetupCompleted {
            dlc: cfd_engine::model::Dlc {
                lock_tx: cfd_engine::model::Txid(11),
                commit_tx: cfd_engine::model::Txid(12),
                refund_tx: cfd_engine::model::Txid(13),
                settlement_event_id: BitMexPriceEventId(1634119200),
                maker_margin_sats: 1_000_000,
                taker_margin_sats: 500_000,
                refund_timelock: 144,
            },
        },
    })
    .unwrap();

    let first: Cfd = conn.load_open_cfd(cfd.id, ()).unwrap();
    let second: Cfd = conn.load_open_cfd(cfd.id, ()).unwrap();

    assert_eq!(first, second);
    assert!(first.is_open);
    assert_eq!(first.version, 2);
    assert_eq!(first.rollover, RolloverStatus::Inactive);
}
