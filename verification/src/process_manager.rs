//! The single sequential writer: persist an event, then derive the side
//! effects its kind calls for, then notify the projection.
//!
//! Persistence comes strictly first: if the append fails, the call
//! returns an error and hands back no commands, so no side effect can
//! ever fire for an event that was not persisted.

use vstd::prelude::*;

use crate::db::{Connection, StoreError};
use crate::model::{BitMexPriceEventId, CfdEvent, Dlc, EventKind, OrderId, Role, Txid};

verus! {

/// What kind of transaction a broadcast command carries.
#[derive(Clone, Copy, PartialEq, Eq, Structural, Debug)]
pub enum TransactionKind {
    Lock,
    Commit,
    Cet,
    Refund,
    CollaborativeClose,
}

/// A fire-and-forget command for a collaborator, dispatched only after
/// the triggering event was persisted. A dispatch failure is logged by
/// the runtime and never retried inline; recovery re-derives pending
/// actions from persisted state.
#[derive(Clone, Copy, PartialEq, Eq, Structural, Debug)]
pub enum Command {
    TryBroadcastTransaction { tx: Txid, kind: TransactionKind },
    StartMonitoring { id: OrderId, dlc: Dlc },
    MonitorAttestation { event_id: BitMexPriceEventId },
    MonitorCetFinality { id: OrderId, cet: Txid },
    MonitorCollaborativeSettlement { id: OrderId, tx: Txid, script: u64 },
    NotifyCfdChanged { id: OrderId },
}

/// A persisted-event request for the process manager.
#[derive(Clone, Copy, PartialEq, Eq, Structural, Debug)]
pub struct Event(pub CfdEvent);

impl Event {
    pub fn new(event: CfdEvent) -> (e: Event)
        ensures
            e == Event(event),
    {
        Event(event)
    }
}

/// The commands an event's kind calls for, in dispatch order. Exhaustive
/// over event kinds — adding a kind is a compile-time obligation here.
pub open spec fn spec_dispatches(role: Role, event: CfdEvent) -> Seq<Command> {
    match event.event {
        EventKind::ContractSetupCompleted { dlc } => seq![
            Command::TryBroadcastTransaction { tx: dlc.lock_tx, kind: TransactionKind::Lock },
            Command::StartMonitoring { id: event.id, dlc },
            Command::MonitorAttestation { event_id: dlc.settlement_event_id },
        ],
        EventKind::CollaborativeSettlementCompleted { spend_tx, script, .. } => if role is Maker {
            seq![
                Command::TryBroadcastTransaction {
                    tx: spend_tx,
                    kind: TransactionKind::CollaborativeClose,
                },
                Command::MonitorCollaborativeSettlement { id: event.id, tx: spend_tx, script },
            ]
        } else {
            // the taker cannot publish the settlement transaction yet;
            // it only watches for it
            seq![Command::MonitorCollaborativeSettlement { id: event.id, tx: spend_tx, script }]
        },
        EventKind::CetTimelockExpiredPostOracleAttestation { cet } => seq![
            Command::MonitorCetFinality { id: event.id, cet },
            Command::TryBroadcastTransaction { tx: cet, kind: TransactionKind::Cet },
        ],
        EventKind::OracleAttestedPostCetTimelock { cet } => seq![
            Command::MonitorCetFinality { id: event.id, cet },
            Command::TryBroadcastTransaction { tx: cet, kind: TransactionKind::Cet },
        ],
        EventKind::OracleAttestedPriorCetTimelock { commit_tx, timelocked_cet } => match commit_tx {
            Some(tx) => seq![
                Command::TryBroadcastTransaction { tx, kind: TransactionKind::Commit },
            ],
            None => seq![Command::MonitorCetFinality { id: event.id, cet: timelocked_cet }],
        },
        EventKind::ManualCommit { tx } => seq![
            Command::TryBroadcastTransaction { tx, kind: TransactionKind::Commit },
        ],
        EventKind::RolloverCompleted { dlc } => seq![
            Command::StartMonitoring { id: event.id, dlc },
            Command::MonitorAttestation { event_id: dlc.settlement_event_id },
        ],
        EventKind::RefundTimelockExpired { refund_tx } => seq![
            Command::TryBroadcastTransaction { tx: refund_tx, kind: TransactionKind::Refund },
        ],
        EventKind::ContractSetupStarted
        | EventKind::ContractSetupFailed
        | EventKind::OfferRejected
        | EventKind::RolloverStarted
        | EventKind::RolloverAccepted
        | EventKind::RolloverRejected
        | EventKind::RolloverFailed
        | EventKind::CollaborativeSettlementStarted { .. }
        | EventKind::CollaborativeSettlementProposalAccepted
        | EventKind::CollaborativeSettlementRejected
        | EventKind::CollaborativeSettlementFailed
        | EventKind::CollaborativeSettlementConfirmed
        | EventKind::LockConfirmed
        | EventKind::LockConfirmedAfterFinality
        | EventKind::CommitConfirmed
        | EventKind::CetConfirmed
        | EventKind::RefundConfirmed
        | EventKind::RevokeConfirmed
        | EventKind::CetTimelockExpiredPriorOracleAttestation => Seq::empty(),
    }
}

/// The one sequential writer of a daemon role. Every persisted event of
/// every contract goes through `handle`, so persistence and side effects
/// are strictly ordered per contract.
#[derive(Clone, Copy, PartialEq, Eq, Structural, Debug)]
pub struct Actor {
    pub role: Role,
}

impl Actor {
    pub fn new(role: Role) -> (a: Actor)
        ensures
            a == (Actor { role }),
    {
        Actor { role }
    }

    /// Compute the side-effect commands for one event, exhaustively by
    /// kind, with the projection notification last.
    fn dispatches(&self, event: CfdEvent) -> (r: Vec<Command>)
        ensures
            r@ == spec_dispatches(self.role, event).push(
                Command::NotifyCfdChanged { id: event.id },
            ),
    {
        let mut r: Vec<Command> = Vec::new();
        match event.event {
            EventKind::ContractSetupCompleted { dlc } => {
                r.push(
                    Command::TryBroadcastTransaction {
                        tx: dlc.lock_tx,
                        kind: TransactionKind::Lock,
                    },
                );
                r.push(Command::StartMonitoring { id: event.id, dlc });
                r.push(Command::MonitorAttestation { event_id: dlc.settlement_event_id });
            },
            EventKind::CollaborativeSettlementCompleted { spend_tx, script, .. } => {
                if matches!(self.role, Role::Maker) {
                    r.push(
                        Command::TryBroadcastTransaction {
                            tx: spend_tx,
                            kind: TransactionKind::CollaborativeClose,
                        },
                    );
                }
                r.push(
                    Command::MonitorCollaborativeSettlement { id: event.id, tx: spend_tx, script },
                );
            },
            EventKind::CetTimelockExpiredPostOracleAttestation { cet } => {
                r.push(Command::MonitorCetFinality { id: event.id, cet });
                r.push(Command::TryBroadcastTransaction { tx: cet, kind: TransactionKind::Cet });
            },
            EventKind::OracleAttestedPostCetTimelock { cet } => {
                r.push(Command::MonitorCetFinality { id: event.id, cet });
                r.push(Command::TryBroadcastTransaction { tx: cet, kind: TransactionKind::Cet });
            },
            EventKind::OracleAttestedPriorCetTimelock { commit_tx, timelocked_cet } => {
                match commit_tx {
                    Some(tx) => {
                        r.push(
                            Command::TryBroadcastTransaction {
                                tx,
                                kind: TransactionKind::Commit,
                            },
                        );
                    },
                    None => {
                        r.push(Command::MonitorCetFinality { id: event.id, cet: timelocked_cet });
                    },
                }
            },
            EventKind::ManualCommit { tx } => {
                r.push(Command::TryBroadcastTransaction { tx, kind: TransactionKind::Commit });
            },
            EventKind::RolloverCompleted { dlc } => {
                r.push(Command::StartMonitoring { id: event.id, dlc });
                r.push(Command::MonitorAttestation { event_id: dlc.settlement_event_id });
            },
            EventKind::RefundTimelockExpired { refund_tx } => {
                r.push(
                    Command::TryBroadcastTransaction {
                        tx: refund_tx,
                        kind: TransactionKind::Refund,
                    },
                );
            },
            EventKind::ContractSetupStarted
            | EventKind::ContractSetupFailed
            | EventKind::OfferRejected
            | EventKind::RolloverStarted
            | EventKind::RolloverAccepted
            | EventKind::RolloverRejected
            | EventKind::RolloverFailed
            | EventKind::CollaborativeSettlementStarted { .. }
            | EventKind::CollaborativeSettlementProposalAccepted
            | EventKind::CollaborativeSettlementRejected
            | EventKind::CollaborativeSettlementFailed
            | EventKind::CollaborativeSettlementConfirmed
            | EventKind::LockConfirmed
            | EventKind::LockConfirmedAfterFinality
            | EventKind::CommitConfirmed
            | EventKind::CetConfirmed
            | EventKind::RefundConfirmed
            | EventKind::RevokeConfirmed
            | EventKind::CetTimelockExpiredPriorOracleAttestation => {},
        }
        r.push(Command::NotifyCfdChanged { id: event.id });
        proof {
            assert(r@ =~= spec_dispatches(self.role, event).push(
                Command::NotifyCfdChanged { id: event.id },
            ));
        }
        r
    }

    /// Handle one completed domain event: (1) append it to the store —
    /// a failure aborts the whole operation and no commands are handed
    /// back; (2) derive the side-effect commands its kind calls for;
    /// (3) append the projection notification. The runtime performs the
    /// commands in order; none can outrun the event's persistence.
    pub fn handle(&self, db: &mut Connection, msg: Event) -> (r: Result<Vec<Command>, StoreError>)
        requires
            old(db).wf(),
        ensures
            final(db).wf(),
            r is Ok <==> old(db).spec_contains_log(msg.0.id),
            r is Err ==> *final(db) == *old(db) && r == Err::<Vec<Command>, StoreError>(
                StoreError::NotFound,
            ),
            r matches Ok(cmds) ==> {
                &&& final(db).spec_events(msg.0.id) =~= old(db).spec_events(msg.0.id).push(msg.0)
                &&& forall|id2: OrderId|
                    id2 != msg.0.id ==> #[trigger] final(db).spec_same_contract(*old(db), id2)
                &&& final(db).cfds@ == old(db).cfds@
                &&& final(db).failed_cfds@ == old(db).failed_cfds@
                &&& cmds@ == spec_dispatches(self.role, msg.0).push(
                    Command::NotifyCfdChanged { id: msg.0.id },
                )
            },
    {
        let event = msg.0;
        match db.append_event(event) {
            Ok(_) => {},
            Err(e) => {
                return Err(e);
            },
        }
        Ok(self.dispatches(event))
    }
}

} // verus!
