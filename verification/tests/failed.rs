use cfd_engine::db::failed::{ArchiveError, Kind};
use cfd_engine::db::{Connection, StoreError};
use cfd_engine::model::{
    BitMexPriceEventId, CfdEvent, EventKind, FundingRate, Identity, Leverage, OrderId, Position,
    Price, Role, Timestamp, Usd,
};
use cfd_engine::position_metrics::Cfd;

fn dummy_cfd() -> cfd_engine::db::Cfd {
    cfd_engine::db::Cfd {
        id: OrderId(42),
        position: Position::Long,
        initial_price: Price(40000),
        taker_leverage: Leverage(2),
        settlement_interval_hours: 24,
        quantity_usd: Usd(100),
        counterparty_network_identity: Identity(7),
        role: Role::Maker,
        opening_fee_sats: 500,
        initial_funding_rate: FundingRate(10),
        oracle_event_id: BitMexPriceEventId(1634119200),
    }
}

fn order_rejected(cfd: &cfd_engine::db::Cfd) -> CfdEvent {
    CfdEvent { timestamp: Timestamp(1000), id: cfd.id, event: EventKind::OfferRejected }
}

fn setup_failed(cfd: &cfd_engine::db::Cfd) -> CfdEvent {
    CfdEvent { timestamp: Timestamp(1000), id: cfd.id, event: EventKind::ContractSetupFailed }
}

fn lock_confirmed(cfd: &cfd_engine::db::Cfd) -> CfdEvent {
    CfdEvent { timestamp: Timestamp(1000), id: cfd.id, event: EventKind::LockConfirmed }
}

#[test]
fn given_offer_rejected_when_move_cfds_to_failed_table_then_can_load_cfd_as_failed() {
    let mut db = Connection::new();

    let cfd = dummy_cfd();
    let order_id = cfd.id;

    db.insert_cfd(cfd).unwrap();

    db.append_event(order_rejected(&cfd)).unwrap();

    db.move_to_failed_cfds().unwrap();

    let load_from_open = db.load_open_cfd::<Cfd>(order_id, ());
    let load_from_events = db.load_cfd_events(order_id, 0);
    let load_from_failed = db.load_failed_cfd::<Cfd>(order_id, ());

    assert!(load_from_open.is_err());
    assert!(matches!(load_from_events, Err(StoreError::NotFound)));
    assert!(load_from_failed.is_ok());
    let archived = db.failed_cfds.iter().find(|row| row.cfd.id == order_id).unwrap();
    assert_eq!(archived.cfd.kind, Kind::OfferRejected);
}

#[test]
fn given_contract_setup_failed_when_move_cfds_to_failed_table_then_can_load_cfd_as_failed() {
    let mut db = Connection::new();

    let cfd = dummy_cfd();
    let order_id = cfd.id;

    db.insert_cfd(cfd).unwrap();

    db.append_event(setup_failed(&cfd)).unwrap();

    db.move_to_failed_cfds().unwrap();

    let load_from_open = db.load_open_cfd::<Cfd>(order_id, ());
    let load_from_events = db.load_cfd_events(order_id, 0);
    let load_from_failed = db.load_failed_cfd::<Cfd>(order_id, ());

    assert!(load_from_open.is_err());
    assert!(matches!(load_from_events, Err(StoreError::NotFound)));
    assert!(load_from_failed.is_ok());
}

#[test]
fn given_cfd_without_failed_events_when_move_cfds_to_failed_table_then_cannot_load_cfd_as_failed() {
    let mut db = Connection::new();

    let cfd = dummy_cfd();
    let order_id = cfd.id;

    db.insert_cfd(cfd).unwrap();

    // appending an event which does not imply that the contract failed
    db.append_event(lock_confirmed(&cfd)).unwrap();

    db.move_to_failed_cfds().unwrap();

    let load_from_open = db.load_open_cfd::<Cfd>(order_id, ());
    let load_from_events = db.load_cfd_events(order_id, 0);
    let load_from_failed = db.load_failed_cfd::<Cfd>(order_id, ());

    assert!(load_from_open.is_ok());
    assert_eq!(load_from_events.unwrap().len(), 1);
    assert!(load_from_failed.is_err());
}

#[test]
fn given_contract_setup_failed_when_move_cfds_to_failed_table_then_projection_aggregate_stays_the_same(
) {
    let mut db = Connection::new();

    let cfd = dummy_cfd();
    let order_id = cfd.id;

    db.insert_cfd(cfd).unwrap();

    db.append_event(setup_failed(&cfd)).unwrap();

    let projection_open: Cfd = db.load_open_cfd(order_id, ()).unwrap();

    db.move_to_failed_cfds().unwrap();

    let projection_failed: Cfd = db.load_failed_cfd(order_id, ()).unwrap();

    // the comparison omits the version, which counts replayed events and
    // is 0 when loading from the precomputed archive projection
    assert_eq!(projection_open.position, projection_failed.position);
    assert_eq!(projection_open.quantity_usd, projection_failed.quantity_usd);
    assert_eq!(projection_open.is_open, projection_failed.is_open);
    assert_eq!(projection_open.is_closed, projection_failed.is_closed);
    assert_eq!(projection_open.is_failed, projection_failed.is_failed);
    assert_eq!(projection_open.is_refunded, projection_failed.is_refunded);
}

#[test]
fn given_order_rejected_when_move_cfds_to_failed_table_then_projection_aggregate_stays_the_same() {
    let mut db = Connection::new();

    let cfd = dummy_cfd();
    let order_id = cfd.id;

    db.insert_cfd(cfd).unwrap();

    db.append_event(order_rejected(&cfd)).unwrap();

    let projection_open: Cfd = db.load_open_cfd(order_id, ()).unwrap();

    db.move_to_failed_cfds().unwrap();

    let projection_failed: Cfd = db.load_failed_cfd(order_id, ()).unwrap();

    assert_eq!(projection_open.position, projection_failed.position);
    assert_eq!(projection_open.quantity_usd, projection_failed.quantity_usd);
    assert_eq!(projection_open.is_open, projection_failed.is_open);
    assert_eq!(projection_open.is_closed, projection_failed.is_closed);
    assert_eq!(projection_open.is_failed, projection_failed.is_failed);
    assert_eq!(projection_open.is_refunded, projection_failed.is_refunded);
}

#[test]
fn offer_rejected_outranks_setup_failed_when_classifying() {
    let mut db = Connection::new();

    let cfd = dummy_cfd();
    db.insert_cfd(cfd).unwrap();
    db.append_event(setup_failed(&cfd)).unwrap();
    db.append_event(order_rejected(&cfd)).unwrap();

    db.move_to_failed_cfds().unwrap();

    let failed: Cfd = db.load_failed_cfd(cfd.id, ()).unwrap();
    assert!(failed.is_failed);
    let row = db
        .failed_cfds
        .iter()
        .find(|row| row.cfd.id == cfd.id)
        .unwrap();
    assert_eq!(row.cfd.kind, Kind::OfferRejected);
}

#[test]
fn archived_projection_is_self_contained() {
    let mut db = Connection::new();

    let cfd = dummy_cfd();
    db.insert_cfd(cfd).unwrap();
    db.append_event(CfdEvent {
        timestamp: Timestamp(900),
        id: cfd.id,
        event: EventKind::ContractSetupStarted,
    })
    .unwrap();
    db.append_event(setup_failed(&cfd)).unwrap();

    db.migrate_failed_cfd(cfd.id).unwrap();

    let row = db
        .failed_cfds
        .iter()
        .find(|row| row.cfd.id == cfd.id)
        .unwrap();
    assert_eq!(row.cfd.position, Position::Long);
    assert_eq!(row.cfd.initial_price, Price(40000));
    assert_eq!(row.cfd.taker_leverage, Leverage(2));
    assert_eq!(row.cfd.n_contracts.0, 100);
    assert_eq!(row.cfd.kind, Kind::ContractSetupFailed);
    // the failure time is the first failure marker's timestamp
    assert_eq!(db.load_creation_timestamp(cfd.id).unwrap(), Timestamp(1000));
    // the archived log copies the events, name by name
    assert_eq!(row.log.len(), 2);
    assert_eq!(row.log[0].name, "ContractSetupStarted");
    assert_eq!(row.log[0].created_at, Timestamp(900));
    assert_eq!(row.log[1].name, "ContractSetupFailed");
    assert_eq!(row.log[1].created_at, Timestamp(1000));
    // the fee accounting is stored: the maker receives the opening fee
    // and, long with a positive rate, pays the funding fee. The maker is
    // the long side here, at leverage 1:
    // margin(long) = 100 * 100_000_000 / (40_000 * 1) = 250_000 sats;
    // funding = 250_000 * 10 * 24 / 240_000 = 250 sats; balance = -500 + 250
    assert_eq!(row.cfd.fees.0, -250);
}

#[test]
fn forced_abort_leaves_the_hot_store_unchanged() {
    let mut db = Connection::new();

    let cfd = dummy_cfd();
    db.insert_cfd(cfd).unwrap();
    // a log without any failure marker must not migrate
    db.append_event(lock_confirmed(&cfd)).unwrap();

    let before_cfds = db.cfds.clone();
    let result = db.migrate_failed_cfd(cfd.id);

    assert_eq!(result, Err(ArchiveError::NotFailed));
    assert_eq!(db.cfds, before_cfds);
    assert_eq!(db.load_cfd_events(cfd.id, 0).unwrap().len(), 1);
    assert!(db.failed_cfds.is_empty());

    // migrating a contract that is not stored at all changes nothing
    assert_eq!(db.migrate_failed_cfd(OrderId(999)), Err(ArchiveError::NotFound));
    assert_eq!(db.cfds, before_cfds);
}

#[test]
fn kind_labels_round_trip() {
    assert_eq!(Kind::OfferRejected.label(), "OfferRejected");
    assert_eq!(Kind::ContractSetupFailed.label(), "ContractSetupFailed");
    assert_eq!(Kind::from_label("OfferRejected"), Ok(Kind::OfferRejected));
    assert_eq!(
        Kind::from_label("ContractSetupFailed"),
        Ok(Kind::ContractSetupFailed)
    );
    assert!(Kind::from_label("LockConfirmed").is_err());
    assert!(Kind::from_label("").is_err());
}
