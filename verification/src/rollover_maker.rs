//! The maker's per-contract rollover protocol actor, as a state machine.
//!
//! A rollover extends an existing DLC's settlement horizon without an
//! on-chain transaction. Stages: starting (the proposal is validated and
//! `RolloverStarted` persisted), awaiting the maker's decision, awaiting
//! the oracle announcement for the extended horizon, negotiating, and
//! stopped. On completion one `RolloverCompleted` event replaces the
//! live DLC wholesale and the monitors are re-armed for the new
//! parameters.

use vstd::prelude::*;

use crate::db::{Connection, StoreError};
use crate::model::cfd::{
    lemma_fold_keeps_terms,
    spec_cfd_aggregate,
    Cfd,
    CommandError,
    RolloverCompleted,
    RolloverParams,
    RolloverProposal,
};
use crate::model::{BitMexPriceEventId, CfdEvent, Dlc, EventKind, Identity, OrderId, Timestamp};
use crate::oracle;
use crate::oracle::Announcement;
use crate::process_manager;
use crate::process_manager::Command;
use crate::wire::RollOverMsg;

verus! {

/// The maker user accepts the rollover proposal.
#[derive(Clone, Copy, PartialEq, Eq, Structural, Debug)]
pub struct AcceptRollOver;

/// The maker user rejects the rollover proposal.
#[derive(Clone, Copy, PartialEq, Eq, Structural, Debug)]
pub struct RejectRollOver;

/// A rollover protocol message from the taker, to be forwarded to the
/// negotiation task.
#[derive(PartialEq, Eq, Debug)]
pub struct ProtocolMsg(pub RollOverMsg);

/// The spawned negotiation task finished successfully with the new DLC.
#[derive(Clone, Copy, PartialEq, Eq, Structural, Debug)]
pub struct RolloverSucceeded {
    pub dlc: Dlc,
}

/// The spawned negotiation task failed.
#[derive(PartialEq, Eq, Debug)]
pub struct RolloverFailed {
    pub reason: String,
}

/// Why a rollover handler gave up; the store and the log are left as the
/// ensures clauses state.
#[derive(Clone, Copy, PartialEq, Eq, Structural, Debug)]
pub enum RolloverError {
    /// The contract is not in the hot store.
    Store(StoreError),
    /// The aggregate refused the command.
    Command(CommandError),
    /// The extended settlement horizon does not fit the clock's range.
    TimeOutOfRange,
    /// The oracle has no announcement for the extended horizon.
    AnnouncementNotFound,
}

/// Where the actor stands in the rollover protocol.
#[derive(Clone, Copy, PartialEq, Eq, Structural, Debug)]
pub enum RolloverStage {
    /// The proposal was received but not yet validated and persisted.
    Starting,
    /// Waiting for the maker user to accept or reject the proposal.
    AwaitingDecision,
    /// Waiting for the oracle announcement of the extended horizon.
    AwaitingAnnouncement,
    /// The negotiation task is running and receives forwarded protocol
    /// messages.
    Negotiating,
    /// A terminal outcome stopped the actor.
    Stopped,
}

/// An outward instruction for the runtime: a wire send, an oracle
/// request, or a task spawn.
#[derive(PartialEq, Eq, Debug)]
pub enum RolloverAction {
    /// Confirm the rollover to the taker, naming the oracle event the
    /// extended DLC will settle on.
    ConfirmRollover { taker: Identity, order: OrderId, oracle_event_id: BitMexPriceEventId },
    /// Tell the taker the rollover was rejected.
    RejectRollover { taker: Identity, order: OrderId },
    /// Fetch the announcement for the extended horizon from the oracle.
    GetAnnouncement { oracle_event_id: BitMexPriceEventId },
    /// Spawn the negotiation task, reusing the existing DLC as input.
    SpawnNegotiation { params: RolloverParams, announcement: Announcement },
    /// Forward a protocol message to the running negotiation task.
    ForwardToNegotiation { msg: RollOverMsg },
}

/// What one handler asks the runtime to do: this actor's own outward
/// actions, then the persisted events' side-effect commands, in order.
#[derive(PartialEq, Eq, Debug)]
pub struct Reaction {
    pub actions: Vec<RolloverAction>,
    pub effects: Vec<Command>,
}

impl Reaction {
    pub open spec fn spec_empty(self) -> bool {
        self.actions@.len() == 0 && self.effects@.len() == 0
    }

    fn empty() -> (r: Reaction)
        ensures
            r.spec_empty(),
    {
        Reaction { actions: Vec::new(), effects: Vec::new() }
    }
}

/// The maker's rollover actor for one contract.
#[derive(Clone, Copy, PartialEq, Eq, Structural, Debug)]
pub struct Actor {
    pub proposal: RolloverProposal,
    pub taker_id: Identity,
    pub stage: RolloverStage,
    /// The negotiation parameters, held between accepting the proposal
    /// and spawning the negotiation.
    pub params: Option<RolloverParams>,
}

impl Actor {
    /// While waiting for the announcement, the negotiation parameters
    /// are at hand.
    pub open spec fn spec_wf(self) -> bool {
        self.stage is AwaitingAnnouncement ==> self.params is Some
    }

    pub fn new(proposal: RolloverProposal, taker_id: Identity) -> (a: Actor)
        ensures
            a == (Actor { proposal, taker_id, stage: RolloverStage::Starting, params: None }),
            a.spec_wf(),
    {
        Actor { proposal, taker_id, stage: RolloverStage::Starting, params: None }
    }

    /// Validate the received proposal against the aggregate and persist
    /// `RolloverStarted`. Fails with a conflict exactly when the
    /// aggregate already shows an in-flight rollover or setup — no event
    /// is emitted then — and with not-open when the contract has no live
    /// DLC.
    pub fn started(
        &mut self,
        db: &mut Connection,
        pm: &process_manager::Actor,
        now: Timestamp,
    ) -> (r: Result<Reaction, RolloverError>)
        requires
            old(db).wf(),
            old(self).spec_wf(),
        ensures
            final(db).wf(),
            final(self).spec_wf(),
            final(self).proposal == old(self).proposal,
            !(old(self).stage is Starting) ==> *final(db) == *old(db) && *final(self) == *old(
                self,
            ) && (r matches Ok(re) && re.spec_empty()),
            old(self).stage is Starting ==> {
                let id = old(self).proposal.order_id;
                let agg = spec_cfd_aggregate(*old(db), id);
                &&& (!old(db).spec_contains_cfd(id) ==> r == Err::<Reaction, RolloverError>(
                    RolloverError::Store(StoreError::NotFound),
                ) && *final(db) == *old(db) && final(self).stage is Stopped)
                &&& (old(db).spec_contains_cfd(id) && agg.spec_negotiation_in_flight() ==> r
                    == Err::<Reaction, RolloverError>(
                    RolloverError::Command(CommandError::Conflict),
                ) && *final(db) == *old(db) && final(self).stage is Stopped)
                &&& (old(db).spec_contains_cfd(id) && !agg.spec_negotiation_in_flight()
                    && !agg.spec_has_open_dlc() ==> r == Err::<Reaction, RolloverError>(
                    RolloverError::Command(CommandError::NotOpen),
                ) && *final(db) == *old(db) && final(self).stage is Stopped)
                &&& (old(db).spec_contains_cfd(id) && !agg.spec_negotiation_in_flight()
                    && agg.spec_has_open_dlc() ==> {
                    let event = CfdEvent { timestamp: now, id, event: EventKind::RolloverStarted };
                    &&& r is Ok
                    &&& final(db).spec_events(id) =~= old(db).spec_events(id).push(event)
                    &&& final(self).stage is AwaitingDecision
                    &&& (r matches Ok(re) ==> re.actions@.len() == 0 && re.effects@
                        == process_manager::spec_dispatches(pm.role, event).push(
                        Command::NotifyCfdChanged { id },
                    ))
                })
            },
    {
        if !matches!(self.stage, RolloverStage::Starting) {
            return Ok(Reaction::empty());
        }
        let id = self.proposal.order_id;
        let cfd = match db.load_open_cfd::<Cfd>(id, ()) {
            Ok(cfd) => cfd,
            Err(e) => {
                self.stage = RolloverStage::Stopped;
                return Err(RolloverError::Store(e));
            },
        };
        proof {
            lemma_fold_keeps_terms(Cfd::spec_seed(old(db).spec_cfd(id)), old(db).spec_events(id));
        }
        match cfd.receive_rollover_proposal(now) {
            Ok(event) => {
                match pm.handle(db, process_manager::Event::new(event)) {
                    Ok(effects) => {
                        self.stage = RolloverStage::AwaitingDecision;
                        Ok(Reaction { actions: Vec::new(), effects })
                    },
                    Err(_) => {
                        proof {
                            let ci = old(db).spec_cfd_idx(id);
                            assert(old(db).spec_contains_log(old(db).cfds@[ci].id));
                            assert(false);
                        }
                        self.stage = RolloverStage::Stopped;
                        Err(RolloverError::Store(StoreError::NotFound))
                    },
                }
            },
            Err(e) => {
                self.stage = RolloverStage::Stopped;
                Err(RolloverError::Command(e))
            },
        }
    }

    /// The maker user accepts the proposal: persist `RolloverAccepted`,
    /// confirm to the taker with the oracle event of the extended
    /// horizon, and ask for that announcement. A second accept while the
    /// rollover is already under way is a no-op with no additional
    /// event.
    pub fn handle_accept_rollover(
        &mut self,
        msg: AcceptRollOver,
        db: &mut Connection,
        pm: &process_manager::Actor,
        now: Timestamp,
    ) -> (r: Result<Reaction, RolloverError>)
        requires
            old(db).wf(),
            old(self).spec_wf(),
        ensures
            final(db).wf(),
            final(self).spec_wf(),
            final(self).proposal == old(self).proposal,
            !(old(self).stage is AwaitingDecision) ==> *final(db) == *old(db) && *final(self)
                == *old(self) && (r matches Ok(re) && re.spec_empty()),
            old(self).stage is AwaitingDecision ==> {
                let id = old(self).proposal.order_id;
                let agg = spec_cfd_aggregate(*old(db), id);
                let accepted_event = CfdEvent {
                    timestamp: now,
                    id,
                    event: EventKind::RolloverAccepted,
                };
                &&& (!old(db).spec_contains_cfd(id) ==> r == Err::<Reaction, RolloverError>(
                    RolloverError::Store(StoreError::NotFound),
                ) && *final(db) == *old(db) && final(self).stage is Stopped)
                &&& (old(db).spec_contains_cfd(id) && !(agg.rollover is Proposed
                    && agg.dlc is Some) ==> r is Err && *final(db) == *old(db)
                    && final(self).stage is Stopped)
                &&& (old(db).spec_contains_cfd(id) && agg.rollover is Proposed && agg.dlc is Some
                    ==> {
                    &&& final(db).spec_events(id) =~= old(db).spec_events(id).push(accepted_event)
                    &&& (now.0 + 3600 <= u64::MAX ==> {
                        let oracle_event_id = BitMexPriceEventId(
                            ((now.0 / 3600 + 1) * 3600) as u64,
                        );
                        &&& r is Ok
                        &&& final(self).stage is AwaitingAnnouncement
                        &&& final(self).params == Some(agg.spec_rollover_params())
                        &&& (r matches Ok(re) ==> re.actions@ =~= seq![
                            RolloverAction::ConfirmRollover {
                                taker: old(self).taker_id,
                                order: id,
                                oracle_event_id,
                            },
                            RolloverAction::GetAnnouncement { oracle_event_id },
                        ] && re.effects@ == process_manager::spec_dispatches(
                            pm.role,
                            accepted_event,
                        ).push(Command::NotifyCfdChanged { id }))
                    })
                    &&& (now.0 + 3600 > u64::MAX ==> r == Err::<Reaction, RolloverError>(
                        RolloverError::TimeOutOfRange,
                    ) && final(self).stage is Stopped)
                })
            },
    {
        if !matches!(self.stage, RolloverStage::AwaitingDecision) {
            return Ok(Reaction::empty());
        }
        let id = self.proposal.order_id;
        let cfd = match db.load_open_cfd::<Cfd>(id, ()) {
            Ok(cfd) => cfd,
            Err(e) => {
                self.stage = RolloverStage::Stopped;
                return Err(RolloverError::Store(e));
            },
        };
        proof {
            lemma_fold_keeps_terms(Cfd::spec_seed(old(db).spec_cfd(id)), old(db).spec_events(id));
        }
        let (event, params) = match cfd.accept_rollover_proposal(now) {
            Ok((event, params)) => (event, params),
            Err(e) => {
                self.stage = RolloverStage::Stopped;
                return Err(RolloverError::Command(e));
            },
        };
        let effects = match pm.handle(db, process_manager::Event::new(event)) {
            Ok(effects) => effects,
            Err(_) => {
                proof {
                    let ci = old(db).spec_cfd_idx(id);
                    assert(old(db).spec_contains_log(old(db).cfds@[ci].id));
                    assert(false);
                }
                self.stage = RolloverStage::Stopped;
                return Err(RolloverError::Store(StoreError::NotFound));
            },
        };
        // the extended horizon settles on the next full-hour
        // announcement after now
        let oracle_event_id = match oracle::next_announcement_after(now) {
            Some(oracle_event_id) => oracle_event_id,
            None => {
                self.stage = RolloverStage::Stopped;
                return Err(RolloverError::TimeOutOfRange);
            },
        };
        self.stage = RolloverStage::AwaitingAnnouncement;
        self.params = Some(params);
        let mut actions: Vec<RolloverAction> = Vec::new();
        actions.push(
            RolloverAction::ConfirmRollover { taker: self.taker_id, order: id, oracle_event_id },
        );
        actions.push(RolloverAction::GetAnnouncement { oracle_event_id });
        Ok(Reaction { actions, effects })
    }

    /// The oracle answered (or could not find) the announcement for the
    /// extended horizon. With the announcement in hand the negotiation
    /// task is spawned, reusing the existing DLC as input.
    pub fn handle_announcement(&mut self, announcement: Option<Announcement>) -> (r: Result<
        Reaction,
        RolloverError,
    >)
        requires
            old(self).spec_wf(),
        ensures
            final(self).spec_wf(),
            final(self).proposal == old(self).proposal,
            !(old(self).stage is AwaitingAnnouncement) ==> *final(self) == *old(self) && (
            r matches Ok(re) && re.spec_empty()),
            old(self).stage is AwaitingAnnouncement ==> match announcement {
                Some(a) => {
                    &&& r is Ok
                    &&& final(self).stage is Negotiating
                    &&& (r matches Ok(re) ==> re.actions@ =~= seq![
                        RolloverAction::SpawnNegotiation {
                            params: old(self).params->Some_0,
                            announcement: a,
                        },
                    ])
                },
                None => r == Err::<Reaction, RolloverError>(RolloverError::AnnouncementNotFound)
                    && final(self).stage is Stopped,
            },
    {
        if !matches!(self.stage, RolloverStage::AwaitingAnnouncement) {
            return Ok(Reaction::empty());
        }
        let a = match announcement {
            Some(a) => a,
            None => {
                self.stage = RolloverStage::Stopped;
                return Err(RolloverError::AnnouncementNotFound);
            },
        };
        let params = match self.params {
            Some(params) => params,
            None => {
                proof {
                    assert(false);
                }
                self.stage = RolloverStage::Stopped;
                return Err(RolloverError::AnnouncementNotFound);
            },
        };
        self.stage = RolloverStage::Negotiating;
        let mut actions: Vec<RolloverAction> = Vec::new();
        actions.push(RolloverAction::SpawnNegotiation { params, announcement: a });
        Ok(Reaction { actions, effects: Vec::new() })
    }

    /// The maker user rejects the proposal: tell the taker and persist
    /// `RolloverRejected`, short-circuiting to the rejected terminal
    /// outcome without ever starting negotiation.
    pub fn handle_reject_rollover(
        &mut self,
        msg: RejectRollOver,
        db: &mut Connection,
        pm: &process_manager::Actor,
        now: Timestamp,
    ) -> (r: Result<Reaction, RolloverError>)
        requires
            old(db).wf(),
            old(self).spec_wf(),
        ensures
            final(db).wf(),
            final(self).spec_wf(),
            final(self).stage is Stopped,
            !old(db).spec_contains_cfd(old(self).proposal.order_id) ==> r is Err && *final(db)
                == *old(db),
            old(db).spec_contains_cfd(old(self).proposal.order_id) ==> {
                let id = old(self).proposal.order_id;
                let agg = spec_cfd_aggregate(*old(db), id);
                &&& (agg.spec_rollover_in_flight() ==> {
                    let event = CfdEvent { timestamp: now, id, event: EventKind::RolloverRejected };
                    &&& r is Ok
                    &&& final(db).spec_events(id) =~= old(db).spec_events(id).push(event)
                    &&& (r matches Ok(re) ==> re.actions@ =~= seq![
                        RolloverAction::RejectRollover { taker: old(self).taker_id, order: id },
                    ] && re.effects@ == process_manager::spec_dispatches(pm.role, event).push(
                        Command::NotifyCfdChanged { id },
                    ))
                })
                &&& (!agg.spec_rollover_in_flight() ==> r == Err::<Reaction, RolloverError>(
                    RolloverError::Command(CommandError::NoRolloverInFlight),
                ) && *final(db) == *old(db))
            },
    {
        self.stage = RolloverStage::Stopped;
        let id = self.proposal.order_id;
        let mut actions: Vec<RolloverAction> = Vec::new();
        actions.push(RolloverAction::RejectRollover { taker: self.taker_id, order: id });
        let cfd = match db.load_open_cfd::<Cfd>(id, ()) {
            Ok(cfd) => cfd,
            Err(e) => {
                return Err(RolloverError::Store(e));
            },
        };
        proof {
            lemma_fold_keeps_terms(Cfd::spec_seed(old(db).spec_cfd(id)), old(db).spec_events(id));
        }
        match cfd.roll_over(RolloverCompleted::Rejected, now) {
            Ok(event) => {
                match pm.handle(db, process_manager::Event::new(event)) {
                    Ok(effects) => Ok(Reaction { actions, effects }),
                    Err(_) => {
                        proof {
                            let ci = old(db).spec_cfd_idx(id);
                            assert(old(db).spec_contains_log(old(db).cfds@[ci].id));
                            assert(false);
                        }
                        Err(RolloverError::Store(StoreError::NotFound))
                    },
                }
            },
            Err(e) => Err(RolloverError::Command(e)),
        }
    }

    /// The negotiation task reports the rollover's outcome: one event —
    /// `RolloverCompleted` with the new DLC, or `RolloverFailed` —
    /// closes the negotiation. On completion the side effects re-arm
    /// chain monitoring and the oracle-attestation wait for the new
    /// parameters. The actor stops.
    fn complete(
        &mut self,
        completed: RolloverCompleted,
        db: &mut Connection,
        pm: &process_manager::Actor,
        now: Timestamp,
    ) -> (r: Result<Reaction, RolloverError>)
        requires
            old(db).wf(),
            old(self).spec_wf(),
        ensures
            final(db).wf(),
            final(self).spec_wf(),
            final(self).stage is Stopped,
            !old(db).spec_contains_cfd(old(self).proposal.order_id) ==> r is Err && *final(db)
                == *old(db),
            old(db).spec_contains_cfd(old(self).proposal.order_id) ==> {
                let id = old(self).proposal.order_id;
                let agg = spec_cfd_aggregate(*old(db), id);
                let event = CfdEvent {
                    timestamp: now,
                    id,
                    event: match completed {
                        RolloverCompleted::Succeeded { dlc } => EventKind::RolloverCompleted {
                            dlc,
                        },
                        RolloverCompleted::Rejected => EventKind::RolloverRejected,
                        RolloverCompleted::Failed => EventKind::RolloverFailed,
                    },
                };
                &&& (agg.spec_rollover_in_flight() ==> {
                    &&& r is Ok
                    &&& final(db).spec_events(id) =~= old(db).spec_events(id).push(event)
                    &&& (r matches Ok(re) ==> re.effects@ == process_manager::spec_dispatches(
                        pm.role,
                        event,
                    ).push(Command::NotifyCfdChanged { id }))
                })
                &&& (!agg.spec_rollover_in_flight() ==> r == Err::<Reaction, RolloverError>(
                    RolloverError::Command(CommandError::NoRolloverInFlight),
                ) && *final(db) == *old(db))
            },
    {
        self.stage = RolloverStage::Stopped;
        let id = self.proposal.order_id;
        let cfd = match db.load_open_cfd::<Cfd>(id, ()) {
            Ok(cfd) => cfd,
            Err(e) => {
                return Err(RolloverError::Store(e));
            },
        };
        proof {
            lemma_fold_keeps_terms(Cfd::spec_seed(old(db).spec_cfd(id)), old(db).spec_events(id));
        }
        match cfd.roll_over(completed, now) {
            Ok(event) => {
                match pm.handle(db, process_manager::Event::new(event)) {
                    Ok(effects) => Ok(Reaction { actions: Vec::new(), effects }),
                    Err(_) => {
                        proof {
                            let ci = old(db).spec_cfd_idx(id);
                            assert(old(db).spec_contains_log(old(db).cfds@[ci].id));
                            assert(false);
                        }
                        Err(RolloverError::Store(StoreError::NotFound))
                    },
                }
            },
            Err(e) => Err(RolloverError::Command(e)),
        }
    }

    /// The negotiation task reports success: the new DLC replaces the
    /// old one wholesale.
    pub fn handle_rollover_succeeded(
        &mut self,
        msg: RolloverSucceeded,
        db: &mut Connection,
        pm: &process_manager::Actor,
        now: Timestamp,
    ) -> (r: Result<Reaction, RolloverError>)
        requires
            old(db).wf(),
            old(self).spec_wf(),
        ensures
            final(db).wf(),
            final(self).spec_wf(),
            final(self).stage is Stopped,
            !old(db).spec_contains_cfd(old(self).proposal.order_id) ==> r is Err && *final(db)
                == *old(db),
            old(db).spec_contains_cfd(old(self).proposal.order_id) ==> {
                let id = old(self).proposal.order_id;
                let agg = spec_cfd_aggregate(*old(db), id);
                let event = CfdEvent {
                    timestamp: now,
                    id,
                    event: EventKind::RolloverCompleted { dlc: msg.dlc },
                };
                &&& (agg.spec_rollover_in_flight() ==> r is Ok && final(db).spec_events(id)
                    =~= old(db).spec_events(id).push(event) && (r matches Ok(re) ==> re.effects@
                    == process_manager::spec_dispatches(pm.role, event).push(
                    Command::NotifyCfdChanged { id },
                )))
                &&& (!agg.spec_rollover_in_flight() ==> r is Err && *final(db) == *old(db))
            },
    {
        self.complete(RolloverCompleted::Succeeded { dlc: msg.dlc }, db, pm, now)
    }

    /// The negotiation task reports failure: captured as the permanent
    /// `RolloverFailed` event rather than silently dropped.
    pub fn handle_rollover_failed(
        &mut self,
        msg: RolloverFailed,
        db: &mut Connection,
        pm: &process_manager::Actor,
        now: Timestamp,
    ) -> (r: Result<Reaction, RolloverError>)
        requires
            old(db).wf(),
            old(self).spec_wf(),
        ensures
            final(db).wf(),
            final(self).spec_wf(),
            final(self).stage is Stopped,
            !old(db).spec_contains_cfd(old(self).proposal.order_id) ==> r is Err && *final(db)
                == *old(db),
            old(db).spec_contains_cfd(old(self).proposal.order_id) ==> {
                let id = old(self).proposal.order_id;
                let agg = spec_cfd_aggregate(*old(db), id);
                &&& (agg.spec_rollover_in_flight() ==> {
                    let event = CfdEvent { timestamp: now, id, event: EventKind::RolloverFailed };
                    &&& r is Ok
                    &&& final(db).spec_events(id) =~= old(db).spec_events(id).push(event)
                    &&& (r matches Ok(re) ==> re.effects@ == process_manager::spec_dispatches(
                        pm.role,
                        event,
                    ).push(Command::NotifyCfdChanged { id }))
                })
                &&& (!agg.spec_rollover_in_flight() ==> r is Err && *final(db) == *old(db))
            },
    {
        self.complete(RolloverCompleted::Failed, db, pm, now)
    }

    /// Forward an incoming rollover protocol message to the running
    /// negotiation task. A message arriving while no task exists stops
    /// the actor: without its negotiation the rollover cannot proceed.
    pub fn forward_protocol_msg(&mut self, msg: ProtocolMsg) -> (r: Result<
        RolloverAction,
        RolloverError,
    >)
        requires
            old(self).spec_wf(),
        ensures
            final(self).spec_wf(),
            old(self).stage is Negotiating ==> *final(self) == *old(self) && r == Ok::<
                RolloverAction,
                RolloverError,
            >(RolloverAction::ForwardToNegotiation { msg: msg.0 }),
            !(old(self).stage is Negotiating) ==> final(self).stage is Stopped && r is Err,
    {
        if matches!(self.stage, RolloverStage::Negotiating) {
            Ok(RolloverAction::ForwardToNegotiation { msg: msg.0 })
        } else {
            self.stage = RolloverStage::Stopped;
            Err(RolloverError::Command(CommandError::NoRolloverInFlight))
        }
    }
}

} // verus!
