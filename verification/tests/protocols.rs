use cfd_engine::db::Connection;
use cfd_engine::model::cfd::{Cfd, CommandError, RolloverProposal, RolloverStatus};
use cfd_engine::model::{
    BitMexPriceEventId, CfdEvent, Dlc, EventKind, FundingRate, Identity, Leverage, OrderId,
    Position, Price, Role, Timestamp, Txid, Usd,
};
use cfd_engine::oracle::Announcement;
use cfd_engine::process_manager;
use cfd_engine::process_manager::{Command, TransactionKind};
use cfd_engine::rollover_maker;
use cfd_engine::rollover_maker::{
    AcceptRollOver, ProtocolMsg, RejectRollOver, RolloverAction, RolloverError, RolloverFailed,
    RolloverStage, RolloverSucceeded,
};
use cfd_engine::setup_maker;
use cfd_engine::setup_maker::{Accepted, Rejected, SetupAction, SetupStage, SetupSucceeded};
use cfd_engine::wire::{RollOverMsg, SetupMsg};

fn dummy_row(id: u64) -> cfd_engine::db::Cfd {
    cfd_engine::db::Cfd {
        id: OrderId(id),
        position: Position::Long,
        initial_price: Price(40000),
        taker_leverage: Leverage(2),
        settlement_interval_hours: 24,
        quantity_usd: Usd(1000),
        counterparty_network_identity: Identity(7),
        role: Role::Maker,
        opening_fee_sats: 500,
        initial_funding_rate: FundingRate(10),
        oracle_event_id: BitMexPriceEventId(1634119200),
    }
}

fn dummy_dlc() -> Dlc {
    Dlc {
        lock_tx: Txid(21),
        commit_tx: Txid(22),
        refund_tx: Txid(23),
        settlement_event_id: BitMexPriceEventId(1634119200),
        maker_margin_sats: 2_000_000,
        taker_margin_sats: 1_000_000,
        refund_timelock: 288,
    }
}

/// Scenario: quantity 1000 within bounds [100, 1000]; accept leads to
/// `ContractSetupStarted` then `ContractSetupCompleted` with the DLC, and
/// the derived state is open.
#[test]
fn accepted_order_within_bounds_opens_the_contract() {
    let mut db = Connection::new();
    let pm = process_manager::Actor::new(Role::Maker);
    let row = dummy_row(1);
    db.insert_cfd(row).unwrap();

    let mut actor = setup_maker::Actor::new(
        row.id,
        Usd(100),
        Usd(1000),
        Usd(1000),
        Identity(7),
    );

    // in-bounds quantity: the start hook does nothing
    let re = actor.started(&mut db, &pm, Timestamp(100)).unwrap();
    assert!(re.actions.is_empty());
    assert_eq!(actor.stage, SetupStage::AwaitingDecision);

    // the maker accepts: the order confirmation goes out first
    let re = actor.handle_accepted(Accepted);
    assert_eq!(
        re.actions,
        vec![SetupAction::ConfirmOrder { taker: Identity(7), order: row.id }]
    );
    assert_eq!(actor.stage, SetupStage::Confirming);

    // the confirmation is acknowledged: SetupStarted is persisted and
    // the negotiation task spawned
    let re = actor
        .handle_order_confirmed(true, &mut db, &pm, Timestamp(101))
        .unwrap();
    assert_eq!(re.actions.len(), 1);
    assert!(matches!(re.actions[0], SetupAction::SpawnNegotiation { .. }));
    assert_eq!(actor.stage, SetupStage::Negotiating);
    let events = db.load_cfd_events(row.id, 0).unwrap();
    assert_eq!(events.len(), 1);
    assert_eq!(events[0].event, EventKind::ContractSetupStarted);

    // wire messages are forwarded only while negotiating
    let fwd = actor.forward_protocol_msg(SetupMsg { payload: vec![1, 2, 3] });
    assert!(fwd.is_ok());

    // the negotiation succeeds: SetupCompleted carries the DLC and the
    // lock transaction is broadcast
    let re = actor
        .handle_setup_succeeded(SetupSucceeded { dlc: dummy_dlc() }, &mut db, &pm, Timestamp(102))
        .unwrap();
    assert_eq!(
        re.effects[0],
        Command::TryBroadcastTransaction { tx: Txid(21), kind: TransactionKind::Lock }
    );
    assert_eq!(actor.stage, SetupStage::Stopped);

    let agg: Cfd = db.load_open_cfd(row.id, ()).unwrap();
    assert!(agg.is_open);
    assert_eq!(agg.dlc, Some(dummy_dlc()));
    assert_eq!(agg.version, 2);
}

/// Scenario: accept issued twice before the negotiation completes; the
/// second accept yields zero additional events.
#[test]
fn second_accept_while_negotiation_in_flight_is_a_no_op() {
    let mut db = Connection::new();
    let pm = process_manager::Actor::new(Role::Maker);
    let row = dummy_row(1);
    db.insert_cfd(row).unwrap();

    let mut actor = setup_maker::Actor::new(
        row.id,
        Usd(100),
        Usd(1000),
        Usd(1000),
        Identity(7),
    );

    let first = actor.handle_accepted(Accepted);
    assert_eq!(first.actions.len(), 1);

    // second accept while the first is still confirming: nothing happens
    let second = actor.handle_accepted(Accepted);
    assert!(second.actions.is_empty());
    assert!(second.effects.is_empty());

    actor
        .handle_order_confirmed(true, &mut db, &pm, Timestamp(101))
        .unwrap();
    let events_after_start = db.load_cfd_events(row.id, 0).unwrap();

    // third accept while negotiating: still nothing, no extra event
    let third = actor.handle_accepted(Accepted);
    assert!(third.actions.is_empty());
    assert!(third.effects.is_empty());
    assert_eq!(db.load_cfd_events(row.id, 0).unwrap(), events_after_start);
    assert_eq!(
        events_after_start
            .iter()
            .filter(|e| e.event == EventKind::ContractSetupStarted)
            .count(),
        1
    );
}

#[test]
fn quantity_out_of_bounds_auto_rejects_before_negotiation() {
    let mut db = Connection::new();
    let pm = process_manager::Actor::new(Role::Maker);
    let row = dummy_row(1);
    db.insert_cfd(row).unwrap();

    let mut actor = setup_maker::Actor::new(
        row.id,
        Usd(100),
        Usd(1000),
        Usd(5000),
        Identity(7),
    );

    let re = actor.started(&mut db, &pm, Timestamp(100)).unwrap();
    assert_eq!(
        re.actions,
        vec![SetupAction::RejectOrder { taker: Identity(7), order: row.id }]
    );
    assert_eq!(actor.stage, SetupStage::Stopped);

    let events = db.load_cfd_events(row.id, 0).unwrap();
    assert_eq!(events.len(), 1);
    assert_eq!(events[0].event, EventKind::OfferRejected);
}

#[test]
fn rejected_order_tells_the_taker_and_persists_offer_rejected() {
    let mut db = Connection::new();
    let pm = process_manager::Actor::new(Role::Maker);
    let row = dummy_row(1);
    db.insert_cfd(row).unwrap();

    let mut actor = setup_maker::Actor::new(
        row.id,
        Usd(100),
        Usd(1000),
        Usd(1000),
        Identity(7),
    );

    let re = actor
        .handle_rejected(Rejected, &mut db, &pm, Timestamp(100))
        .unwrap();
    assert_eq!(
        re.actions,
        vec![SetupAction::RejectOrder { taker: Identity(7), order: row.id }]
    );
    assert_eq!(actor.stage, SetupStage::Stopped);

    let events = db.load_cfd_events(row.id, 0).unwrap();
    assert_eq!(events.len(), 1);
    assert_eq!(events[0].event, EventKind::OfferRejected);
}

#[test]
fn wire_message_before_negotiation_task_is_dropped() {
    let actor = setup_maker::Actor::new(
        OrderId(1),
        Usd(100),
        Usd(1000),
        Usd(1000),
        Identity(7),
    );
    // no negotiation task exists yet: the message is a protocol violation
    assert!(actor.forward_protocol_msg(SetupMsg { payload: vec![9] }).is_err());
}

fn open_contract(db: &mut Connection, pm: &process_manager::Actor, id: u64) -> OrderId {
    let row = dummy_row(id);
    db.insert_cfd(row).unwrap();
    for (i, kind) in [
        EventKind::ContractSetupStarted,
        EventKind::ContractSetupCompleted { dlc: dummy_dlc() },
        EventKind::LockConfirmed,
    ]
    .into_iter()
    .enumerate()
    {
        pm.handle(
            db,
            process_manager::Event::new(CfdEvent {
                timestamp: Timestamp(10 + i as u64),
                id: row.id,
                event: kind,
            }),
        )
        .unwrap();
    }
    row.id
}

#[test]
fn rollover_happy_path_replaces_the_dlc() {
    let mut db = Connection::new();
    let pm = process_manager::Actor::new(Role::Maker);
    let id = open_contract(&mut db, &pm, 1);

    let proposal = RolloverProposal { order_id: id, timestamp: Timestamp(100) };
    let mut actor = rollover_maker::Actor::new(proposal, Identity(7));

    // the proposal is validated and RolloverStarted persisted
    actor.started(&mut db, &pm, Timestamp(100)).unwrap();
    assert_eq!(actor.stage, RolloverStage::AwaitingDecision);

    // the maker accepts: RolloverAccepted is persisted, the rollover is
    // confirmed to the taker with the next hourly oracle event, and the
    // announcement is requested
    let re = actor
        .handle_accept_rollover(AcceptRollOver, &mut db, &pm, Timestamp(7200))
        .unwrap();
    let expected_oracle_event = BitMexPriceEventId(10800);
    assert_eq!(
        re.actions,
        vec![
            RolloverAction::ConfirmRollover {
                taker: Identity(7),
                order: id,
                oracle_event_id: expected_oracle_event,
            },
            RolloverAction::GetAnnouncement { oracle_event_id: expected_oracle_event },
        ]
    );
    assert_eq!(actor.stage, RolloverStage::AwaitingAnnouncement);

    // the announcement arrives: the negotiation task is spawned with
    // the existing DLC as input
    let announcement = Announcement {
        id: expected_oracle_event,
        expected_outcome_time: Timestamp(10800),
    };
    let re = actor.handle_announcement(Some(announcement)).unwrap();
    assert_eq!(re.actions.len(), 1);
    match &re.actions[0] {
        RolloverAction::SpawnNegotiation { params, announcement: a } => {
            assert_eq!(params.dlc, dummy_dlc());
            assert_eq!(*a, announcement);
        }
        other => panic!("unexpected action: {other:?}"),
    }
    assert_eq!(actor.stage, RolloverStage::Negotiating);

    // protocol messages flow to the task while negotiating
    assert!(actor
        .forward_protocol_msg(ProtocolMsg(RollOverMsg { payload: vec![4] }))
        .is_ok());

    // the negotiation succeeds: one event replaces the DLC wholesale and
    // re-arms monitoring for the new parameters
    let new_dlc = Dlc { lock_tx: Txid(31), settlement_event_id: expected_oracle_event, ..dummy_dlc() };
    let re = actor
        .handle_rollover_succeeded(RolloverSucceeded { dlc: new_dlc }, &mut db, &pm, Timestamp(7300))
        .unwrap();
    assert_eq!(
        re.effects,
        vec![
            Command::StartMonitoring { id, dlc: new_dlc },
            Command::MonitorAttestation { event_id: expected_oracle_event },
            Command::NotifyCfdChanged { id },
        ]
    );

    let agg: Cfd = db.load_open_cfd(id, ()).unwrap();
    assert_eq!(agg.dlc, Some(new_dlc));
    assert!(agg.is_open);
}

/// Scenario: a rollover proposal while one is already in flight fails
/// with a conflict error and emits nothing.
#[test]
fn rollover_proposal_while_in_flight_conflicts() {
    let mut db = Connection::new();
    let pm = process_manager::Actor::new(Role::Maker);
    let id = open_contract(&mut db, &pm, 1);

    let mut first = rollover_maker::Actor::new(
        RolloverProposal { order_id: id, timestamp: Timestamp(100) },
        Identity(7),
    );
    first.started(&mut db, &pm, Timestamp(100)).unwrap();
    let events_before = db.load_cfd_events(id, 0).unwrap();

    let mut second = rollover_maker::Actor::new(
        RolloverProposal { order_id: id, timestamp: Timestamp(101) },
        Identity(7),
    );
    let result = second.started(&mut db, &pm, Timestamp(101));

    assert_eq!(result, Err(RolloverError::Command(CommandError::Conflict)));
    assert_eq!(db.load_cfd_events(id, 0).unwrap(), events_before);
    assert_eq!(second.stage, RolloverStage::Stopped);
}

#[test]
fn rollover_reject_short_circuits_without_negotiation() {
    let mut db = Connection::new();
    let pm = process_manager::Actor::new(Role::Maker);
    let id = open_contract(&mut db, &pm, 1);

    let mut actor = rollover_maker::Actor::new(
        RolloverProposal { order_id: id, timestamp: Timestamp(100) },
        Identity(7),
    );
    actor.started(&mut db, &pm, Timestamp(100)).unwrap();

    let re = actor
        .handle_reject_rollover(RejectRollOver, &mut db, &pm, Timestamp(101))
        .unwrap();
    assert_eq!(
        re.actions,
        vec![RolloverAction::RejectRollover { taker: Identity(7), order: id }]
    );
    assert_eq!(actor.stage, RolloverStage::Stopped);

    let agg: Cfd = db.load_open_cfd(id, ()).unwrap();
    assert_eq!(agg.rollover, RolloverStatus::Inactive);
}

#[test]
fn rollover_failure_is_captured_as_a_domain_event() {
    let mut db = Connection::new();
    let pm = process_manager::Actor::new(Role::Maker);
    let id = open_contract(&mut db, &pm, 1);

    let mut actor = rollover_maker::Actor::new(
        RolloverProposal { order_id: id, timestamp: Timestamp(100) },
        Identity(7),
    );
    actor.started(&mut db, &pm, Timestamp(100)).unwrap();

    actor
        .handle_rollover_failed(
            RolloverFailed { reason: String::from("peer vanished") },
            &mut db,
            &pm,
            Timestamp(101),
        )
        .unwrap();

    let events = db.load_cfd_events(id, 0).unwrap();
    assert_eq!(events.last().unwrap().event, EventKind::RolloverFailed);
}

#[test]
fn second_accept_rollover_is_a_no_op() {
    let mut db = Connection::new();
    let pm = process_manager::Actor::new(Role::Maker);
    let id = open_contract(&mut db, &pm, 1);

    let mut actor = rollover_maker::Actor::new(
        RolloverProposal { order_id: id, timestamp: Timestamp(100) },
        Identity(7),
    );
    actor.started(&mut db, &pm, Timestamp(100)).unwrap();
    actor
        .handle_accept_rollover(AcceptRollOver, &mut db, &pm, Timestamp(7200))
        .unwrap();
    let events_before = db.load_cfd_events(id, 0).unwrap();

    // accepting again while the rollover is already under way changes
    // nothing
    let re = actor
        .handle_accept_rollover(AcceptRollOver, &mut db, &pm, Timestamp(7300))
        .unwrap();
    assert!(re.actions.is_empty());
    assert!(re.effects.is_empty());
    assert_eq!(db.load_cfd_events(id, 0).unwrap(), events_before);
}
