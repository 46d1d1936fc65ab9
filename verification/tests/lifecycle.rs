use cfd_engine::db::Connection;
use cfd_engine::model::cfd::{Cfd, CommandError, RolloverCompleted, RolloverStatus, SetupStatus};
use cfd_engine::model::{
    BitMexPriceEventId, CfdEvent, Dlc, EventKind, FundingRate, Identity, Leverage, OrderId,
    Position, Price, Role, Timestamp, Txid, Usd,
};
use cfd_engine::process_manager::{Actor, Command, Event, TransactionKind};

fn dummy_row(id: u64) -> cfd_engine::db::Cfd {
    cfd_engine::db::Cfd {
        id: OrderId(id),
        position: Position::Short,
        initial_price: Price(50000),
        taker_leverage: Leverage(2),
        settlement_interval_hours: 24,
        quantity_usd: Usd(1000),
        counterparty_network_identity: Identity(9),
        role: Role::Maker,
        opening_fee_sats: 100,
        initial_funding_rate: FundingRate(5),
        oracle_event_id: BitMexPriceEventId(1634119200),
    }
}

fn dummy_dlc() -> Dlc {
    Dlc {
        lock_tx: Txid(21),
        commit_tx: Txid(22),
        refund_tx: Txid(23),
        settlement_event_id: BitMexPriceEventId(1634119200),
        maker_margin_sats: 2_000_000,
        taker_margin_sats: 1_000_000,
        refund_timelock: 288,
    }
}

fn aggregate_after(events: &[EventKind]) -> Cfd {
    let mut db = Connection::new();
    let row = dummy_row(1);
    db.insert_cfd(row).unwrap();
    for (i, kind) in events.iter().enumerate() {
        db.append_event(CfdEvent {
            timestamp: Timestamp(100 + i as u64),
            id: row.id,
            event: *kind,
        })
        .unwrap();
    }
    db.load_open_cfd(row.id, ()).unwrap()
}

#[test]
fn version_counts_folded_events() {
    let agg = aggregate_after(&[
        EventKind::ContractSetupStarted,
        EventKind::ContractSetupCompleted { dlc: dummy_dlc() },
        EventKind::LockConfirmed,
    ]);
    assert_eq!(agg.version, 3);
}

#[test]
fn exactly_one_live_dlc_replaced_wholesale_on_rollover() {
    let first = dummy_dlc();
    let second = Dlc { lock_tx: Txid(31), ..dummy_dlc() };

    let agg = aggregate_after(&[
        EventKind::ContractSetupStarted,
        EventKind::ContractSetupCompleted { dlc: first },
        EventKind::LockConfirmed,
        EventKind::RolloverStarted,
        EventKind::RolloverAccepted,
        EventKind::RolloverCompleted { dlc: second },
    ]);
    assert_eq!(agg.dlc, Some(second));
    assert_eq!(agg.rollover, RolloverStatus::Inactive);
    assert!(agg.is_open);
}

#[test]
fn start_contract_setup_conflicts_once_started() {
    let fresh = aggregate_after(&[]);
    let (event, params) = fresh.start_contract_setup(Timestamp(500)).unwrap();
    assert_eq!(event.event, EventKind::ContractSetupStarted);
    assert_eq!(event.id, OrderId(1));
    assert_eq!(params.quantity, Usd(1000));
    assert_eq!(params.counterparty, Identity(9));

    let started = aggregate_after(&[EventKind::ContractSetupStarted]);
    assert_eq!(
        started.start_contract_setup(Timestamp(501)),
        Err(CommandError::Conflict)
    );
}

#[test]
fn rollover_proposal_conflicts_while_setup_in_flight() {
    let negotiating = aggregate_after(&[EventKind::ContractSetupStarted]);
    assert_eq!(
        negotiating.receive_rollover_proposal(Timestamp(500)),
        Err(CommandError::Conflict)
    );
}

#[test]
fn rollover_proposal_conflicts_while_rollover_in_flight() {
    let rolling = aggregate_after(&[
        EventKind::ContractSetupStarted,
        EventKind::ContractSetupCompleted { dlc: dummy_dlc() },
        EventKind::LockConfirmed,
        EventKind::RolloverStarted,
    ]);
    assert_eq!(
        rolling.receive_rollover_proposal(Timestamp(500)),
        Err(CommandError::Conflict)
    );

    let accepted = aggregate_after(&[
        EventKind::ContractSetupStarted,
        EventKind::ContractSetupCompleted { dlc: dummy_dlc() },
        EventKind::LockConfirmed,
        EventKind::RolloverStarted,
        EventKind::RolloverAccepted,
    ]);
    assert_eq!(
        accepted.receive_rollover_proposal(Timestamp(500)),
        Err(CommandError::Conflict)
    );
}

#[test]
fn rollover_proposal_requires_an_open_dlc() {
    let fresh = aggregate_after(&[]);
    assert_eq!(
        fresh.receive_rollover_proposal(Timestamp(500)),
        Err(CommandError::NotOpen)
    );

    let open = aggregate_after(&[
        EventKind::ContractSetupStarted,
        EventKind::ContractSetupCompleted { dlc: dummy_dlc() },
        EventKind::LockConfirmed,
    ]);
    let event = open.receive_rollover_proposal(Timestamp(500)).unwrap();
    assert_eq!(event.event, EventKind::RolloverStarted);

    // a later rollover may start again once the first one concluded
    let after_failed = aggregate_after(&[
        EventKind::ContractSetupStarted,
        EventKind::ContractSetupCompleted { dlc: dummy_dlc() },
        EventKind::LockConfirmed,
        EventKind::RolloverStarted,
        EventKind::RolloverFailed,
    ]);
    assert!(after_failed.receive_rollover_proposal(Timestamp(501)).is_ok());
}

#[test]
fn roll_over_requires_a_rollover_in_flight() {
    let open = aggregate_after(&[
        EventKind::ContractSetupStarted,
        EventKind::ContractSetupCompleted { dlc: dummy_dlc() },
    ]);
    assert_eq!(
        open.roll_over(RolloverCompleted::Failed, Timestamp(500)),
        Err(CommandError::NoRolloverInFlight)
    );
}

#[test]
fn process_manager_persists_before_dispatching() {
    let mut db = Connection::new();
    let pm = Actor::new(Role::Maker);
    let row = dummy_row(1);
    db.insert_cfd(row).unwrap();

    let event = CfdEvent {
        timestamp: Timestamp(100),
        id: row.id,
        event: EventKind::ContractSetupCompleted { dlc: dummy_dlc() },
    };
    let cmds = pm.handle(&mut db, Event::new(event)).unwrap();

    // the event is in the log
    assert_eq!(db.load_cfd_events(row.id, 0).unwrap(), vec![event]);
    // and its side effects follow, projection notification last
    assert_eq!(
        cmds,
        vec![
            Command::TryBroadcastTransaction { tx: Txid(21), kind: TransactionKind::Lock },
            Command::StartMonitoring { id: row.id, dlc: dummy_dlc() },
            Command::MonitorAttestation { event_id: BitMexPriceEventId(1634119200) },
            Command::NotifyCfdChanged { id: row.id },
        ]
    );
}

#[test]
fn process_manager_fires_nothing_when_persistence_fails() {
    let mut db = Connection::new();
    let pm = Actor::new(Role::Maker);

    let event = CfdEvent {
        timestamp: Timestamp(100),
        id: OrderId(404),
        event: EventKind::ContractSetupCompleted { dlc: dummy_dlc() },
    };
    let result = pm.handle(&mut db, Event::new(event));

    assert!(result.is_err());
    assert!(db.cfds.is_empty());
    assert!(db.logs.is_empty());
}

#[test]
fn taker_does_not_broadcast_collaborative_settlement() {
    let mut maker_db = Connection::new();
    let mut taker_db = Connection::new();
    let row = dummy_row(1);
    maker_db.insert_cfd(row).unwrap();
    taker_db.insert_cfd(row).unwrap();

    let event = CfdEvent {
        timestamp: Timestamp(100),
        id: row.id,
        event: EventKind::CollaborativeSettlementCompleted {
            spend_tx: Txid(77),
            script: 5,
            price: Price(48000),
        },
    };

    let maker_cmds = Actor::new(Role::Maker)
        .handle(&mut maker_db, Event::new(event))
        .unwrap();
    let taker_cmds = Actor::new(Role::Taker)
        .handle(&mut taker_db, Event::new(event))
        .unwrap();

    assert_eq!(
        maker_cmds,
        vec![
            Command::TryBroadcastTransaction {
                tx: Txid(77),
                kind: TransactionKind::CollaborativeClose,
            },
            Command::MonitorCollaborativeSettlement { id: row.id, tx: Txid(77), script: 5 },
            Command::NotifyCfdChanged { id: row.id },
        ]
    );
    assert_eq!(
        taker_cmds,
        vec![
            Command::MonitorCollaborativeSettlement { id: row.id, tx: Txid(77), script: 5 },
            Command::NotifyCfdChanged { id: row.id },
        ]
    );
}

#[test]
fn refund_flow_is_tracked_and_rebroadcast_worthy() {
    let agg = aggregate_after(&[
        EventKind::ContractSetupStarted,
        EventKind::ContractSetupCompleted { dlc: dummy_dlc() },
        EventKind::LockConfirmed,
        EventKind::RefundTimelockExpired { refund_tx: Txid(23) },
    ]);
    assert_eq!(agg.pending_refund, Some(Txid(23)));
    assert!(agg.is_closed);

    let refunded = aggregate_after(&[
        EventKind::ContractSetupStarted,
        EventKind::ContractSetupCompleted { dlc: dummy_dlc() },
        EventKind::LockConfirmed,
        EventKind::RefundTimelockExpired { refund_tx: Txid(23) },
        EventKind::RefundConfirmed,
    ]);
    assert_eq!(refunded.pending_refund, None);
    assert!(refunded.is_refunded);
    assert!(!refunded.is_open);
}
