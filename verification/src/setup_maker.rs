//! The maker's per-contract setup protocol actor, as a state machine.
//!
//! Stages: awaiting the operator's decision, confirming the order to the
//! taker, negotiating (the spawned task exchanges signed partial
//! transactions over the wire), and stopped. Handlers validate the stage
//! and the derived aggregate state, persist the resulting domain events
//! through the process manager, and hand the runtime the outward actions
//! to perform. At most one negotiation ever runs per actor: a second
//! accept is a no-op and produces no additional `ContractSetupStarted`.

use vstd::prelude::*;

use crate::db::{Connection, StoreError};
use crate::model::cfd::{lemma_fold_keeps_terms, spec_cfd_aggregate, Cfd, SetupParams};
use crate::model::{CfdEvent, Dlc, EventKind, Identity, OrderId, Timestamp, Usd};
use crate::process_manager;
use crate::process_manager::Command;
use crate::wire::SetupMsg;

verus! {

/// The maker user accepted the taker's order request.
#[derive(Clone, Copy, PartialEq, Eq, Structural, Debug)]
pub struct Accepted;

/// The maker user rejected the taker's order request.
#[derive(Clone, Copy, PartialEq, Eq, Structural, Debug)]
pub struct Rejected;

/// The spawned negotiation task finished successfully with a DLC.
#[derive(Clone, Copy, PartialEq, Eq, Structural, Debug)]
pub struct SetupSucceeded {
    pub dlc: Dlc,
}

/// The spawned negotiation task failed.
#[derive(PartialEq, Eq, Debug)]
pub struct SetupFailed {
    pub reason: String,
}

/// A wire message arrived for a negotiation task that does not exist:
/// a protocol violation; the message is logged and dropped.
#[derive(Clone, Copy, PartialEq, Eq, Structural, Debug)]
pub struct ProtocolViolation;

/// Where the actor stands in the setup protocol.
#[derive(Clone, Copy, PartialEq, Eq, Structural, Debug)]
pub enum SetupStage {
    /// Waiting for the maker user to accept or reject the order.
    AwaitingDecision,
    /// The order confirmation is on its way to the taker; protocol
    /// messages are not accepted yet.
    Confirming,
    /// The negotiation task is running and receives forwarded protocol
    /// messages.
    Negotiating,
    /// A terminal event stopped the actor.
    Stopped,
}

/// An outward instruction for the runtime: a wire send or a task spawn.
#[derive(PartialEq, Eq, Debug)]
pub enum SetupAction {
    /// Confirm the order to the taker; protocol messages are accepted
    /// only after this acknowledgment round-trip completes.
    ConfirmOrder { taker: Identity, order: OrderId },
    /// Tell the taker the order was rejected.
    RejectOrder { taker: Identity, order: OrderId },
    /// Spawn the negotiation task with these parameters.
    SpawnNegotiation { params: SetupParams },
    /// Forward a protocol message to the running negotiation task.
    ForwardToNegotiation { msg: SetupMsg },
}

/// What one handler asks the runtime to do: this actor's own outward
/// actions, then the persisted events' side-effect commands, in order.
#[derive(PartialEq, Eq, Debug)]
pub struct Reaction {
    pub actions: Vec<SetupAction>,
    pub effects: Vec<Command>,
}

impl Reaction {
    pub open spec fn spec_empty(self) -> bool {
        self.actions@.len() == 0 && self.effects@.len() == 0
    }

    fn empty() -> (r: Reaction)
        ensures
            r.spec_empty(),
    {
        Reaction { actions: Vec::new(), effects: Vec::new() }
    }
}

/// The maker's setup actor for one contract.
#[derive(Clone, Copy, PartialEq, Eq, Structural, Debug)]
pub struct Actor {
    pub order_id: OrderId,
    pub min_quantity: Usd,
    pub max_quantity: Usd,
    /// The quantity the taker asked for.
    pub quantity: Usd,
    pub taker_id: Identity,
    pub stage: SetupStage,
}

impl Actor {
    /// The taker's quantity falls outside the order's bounds; the offer
    /// is auto-rejected before any negotiation begins.
    pub open spec fn spec_quantity_out_of_bounds(self) -> bool {
        self.quantity.0 < self.min_quantity.0 || self.quantity.0 > self.max_quantity.0
    }

    pub fn new(
        order_id: OrderId,
        min_quantity: Usd,
        max_quantity: Usd,
        quantity: Usd,
        taker_id: Identity,
    ) -> (a: Actor)
        ensures
            a == (Actor {
                order_id,
                min_quantity,
                max_quantity,
                quantity,
                taker_id,
                stage: SetupStage::AwaitingDecision,
            }),
    {
        Actor {
            order_id,
            min_quantity,
            max_quantity,
            quantity,
            taker_id,
            stage: SetupStage::AwaitingDecision,
        }
    }

    /// The quantity-bounds check that runs once at actor start,
    /// independent of any operator action: a quantity outside
    /// `[min_quantity, max_quantity]` rejects the order before
    /// negotiation begins, persisting `OfferRejected`.
    pub fn started(
        &mut self,
        db: &mut Connection,
        pm: &process_manager::Actor,
        now: Timestamp,
    ) -> (r: Result<Reaction, StoreError>)
        requires
            old(db).wf(),
        ensures
            final(db).wf(),
            final(self).order_id == old(self).order_id,
            final(self).taker_id == old(self).taker_id,
            !old(self).spec_quantity_out_of_bounds() ==> *final(db) == *old(db) && *final(self)
                == *old(self) && (r matches Ok(re) && re.spec_empty()),
            old(self).spec_quantity_out_of_bounds() ==> final(self).stage is Stopped,
            old(self).spec_quantity_out_of_bounds() && !old(db).spec_contains_cfd(
                old(self).order_id,
            ) ==> r is Err && *final(db) == *old(db),
            old(self).spec_quantity_out_of_bounds() && old(db).spec_contains_cfd(
                old(self).order_id,
            ) ==> {
                let agg = spec_cfd_aggregate(*old(db), old(self).order_id);
                &&& r is Ok
                &&& (r matches Ok(re) ==> re.actions@ =~= seq![
                    SetupAction::RejectOrder { taker: old(self).taker_id, order: old(self).order_id },
                ])
                &&& (agg.setup is NotStarted ==> {
                    let event = CfdEvent {
                        timestamp: now,
                        id: old(self).order_id,
                        event: EventKind::OfferRejected,
                    };
                    &&& final(db).spec_events(old(self).order_id) =~= old(db).spec_events(
                        old(self).order_id,
                    ).push(event)
                    &&& (r matches Ok(re) ==> re.effects@ == process_manager::spec_dispatches(
                        pm.role,
                        event,
                    ).push(Command::NotifyCfdChanged { id: old(self).order_id }))
                })
                &&& (!(agg.setup is NotStarted) ==> *final(db) == *old(db) && (r matches Ok(re)
                    ==> re.effects@.len() == 0))
            },
    {
        if !(self.quantity.0 < self.min_quantity.0 || self.quantity.0 > self.max_quantity.0) {
            return Ok(Reaction::empty());
        }
        self.stage = SetupStage::Stopped;
        let mut actions: Vec<SetupAction> = Vec::new();
        actions.push(SetupAction::RejectOrder { taker: self.taker_id, order: self.order_id });
        let cfd = match db.load_open_cfd::<Cfd>(self.order_id, ()) {
            Ok(cfd) => cfd,
            Err(e) => {
                return Err(e);
            },
        };
        proof {
            lemma_fold_keeps_terms(
                Cfd::spec_seed(old(db).spec_cfd(self.order_id)),
                old(db).spec_events(self.order_id),
            );
        }
        match cfd.reject_contract_setup(now) {
            Ok(event) => {
                match pm.handle(db, process_manager::Event::new(event)) {
                    Ok(effects) => Ok(Reaction { actions, effects }),
                    Err(e) => {
                        proof {
                            // the row exists, so its log exists too
                            let ci = old(db).spec_cfd_idx(self.order_id);
                            assert(old(db).spec_contains_log(old(db).cfds@[ci].id));
                            assert(false);
                        }
                        Err(e)
                    },
                }
            },
            Err(_) => {
                // the setup already ran; nothing to record
                Ok(Reaction { actions, effects: Vec::new() })
            },
        }
    }

    /// The maker user accepts the order. From the awaiting-decision stage
    /// this asks the runtime to confirm the order to the taker; the
    /// negotiation itself starts only once that confirmation is
    /// acknowledged. In every other stage — a setup already confirming,
    /// negotiating or stopped — this is a no-op: no event is emitted and
    /// no second negotiation can start.
    pub fn handle_accepted(&mut self, msg: Accepted) -> (r: Reaction)
        ensures
            !(old(self).stage is AwaitingDecision) ==> *final(self) == *old(self)
                && r.spec_empty(),
            old(self).stage is AwaitingDecision ==> {
                &&& *final(self) == (Actor { stage: SetupStage::Confirming, ..*old(self) })
                &&& r.actions@ =~= seq![
                    SetupAction::ConfirmOrder {
                        taker: old(self).taker_id,
                        order: old(self).order_id,
                    },
                ]
                &&& r.effects@.len() == 0
            },
    {
        if !matches!(self.stage, SetupStage::AwaitingDecision) {
            return Reaction::empty();
        }
        self.stage = SetupStage::Confirming;
        let mut actions: Vec<SetupAction> = Vec::new();
        actions.push(SetupAction::ConfirmOrder { taker: self.taker_id, order: self.order_id });
        Reaction { actions, effects: Vec::new() }
    }

    /// The order-confirmation round-trip finished. On success this
    /// persists `ContractSetupStarted` and spawns the negotiation task;
    /// on failure — the confirmation could not be delivered, or the
    /// aggregate refuses a second setup — it records the setup as failed.
    pub fn handle_order_confirmed(
        &mut self,
        confirmed: bool,
        db: &mut Connection,
        pm: &process_manager::Actor,
        now: Timestamp,
    ) -> (r: Result<Reaction, StoreError>)
        requires
            old(db).wf(),
        ensures
            final(db).wf(),
            !(old(self).stage is Confirming) ==> *final(db) == *old(db) && *final(self) == *old(
                self,
            ) && (r matches Ok(re) && re.spec_empty()),
            old(self).stage is Confirming ==> {
                let agg = spec_cfd_aggregate(*old(db), old(self).order_id);
                let started_event = CfdEvent {
                    timestamp: now,
                    id: old(self).order_id,
                    event: EventKind::ContractSetupStarted,
                };
                let failed_event = CfdEvent {
                    timestamp: now,
                    id: old(self).order_id,
                    event: EventKind::ContractSetupFailed,
                };
                &&& (!old(db).spec_contains_cfd(old(self).order_id) ==> r is Err && *final(db)
                    == *old(db) && final(self).stage is Stopped)
                &&& (old(db).spec_contains_cfd(old(self).order_id) ==> {
                    &&& r is Ok
                    &&& (confirmed && agg.setup is NotStarted && agg.rollover is Inactive ==> {
                        &&& *final(self) == (Actor {
                            stage: SetupStage::Negotiating,
                            ..*old(self)
                        })
                        &&& final(db).spec_events(old(self).order_id) =~= old(db).spec_events(
                            old(self).order_id,
                        ).push(started_event)
                        &&& (r matches Ok(re) ==> re.actions@ =~= seq![
                            SetupAction::SpawnNegotiation { params: agg.spec_setup_params() },
                        ] && re.effects@ == process_manager::spec_dispatches(
                            pm.role,
                            started_event,
                        ).push(Command::NotifyCfdChanged { id: old(self).order_id }))
                    })
                    &&& (!(confirmed && agg.setup is NotStarted && agg.rollover is Inactive)
                        ==> {
                        &&& final(self).stage is Stopped
                        &&& final(db).spec_events(old(self).order_id) =~= old(db).spec_events(
                            old(self).order_id,
                        ).push(failed_event)
                        &&& (r matches Ok(re) ==> re.actions@.len() == 0 && re.effects@
                            == process_manager::spec_dispatches(pm.role, failed_event).push(
                            Command::NotifyCfdChanged { id: old(self).order_id },
                        ))
                    })
                })
            },
    {
        if !matches!(self.stage, SetupStage::Confirming) {
            return Ok(Reaction::empty());
        }
        let cfd = match db.load_open_cfd::<Cfd>(self.order_id, ()) {
            Ok(cfd) => cfd,
            Err(e) => {
                self.stage = SetupStage::Stopped;
                return Err(e);
            },
        };
        proof {
            lemma_fold_keeps_terms(
                Cfd::spec_seed(old(db).spec_cfd(self.order_id)),
                old(db).spec_events(self.order_id),
            );
        }
        let started = if confirmed {
            cfd.start_contract_setup(now)
        } else {
            Err(crate::model::cfd::CommandError::Conflict)
        };
        match started {
            Ok((event, params)) => {
                match pm.handle(db, process_manager::Event::new(event)) {
                    Ok(effects) => {
                        self.stage = SetupStage::Negotiating;
                        let mut actions: Vec<SetupAction> = Vec::new();
                        actions.push(SetupAction::SpawnNegotiation { params });
                        Ok(Reaction { actions, effects })
                    },
                    Err(e) => {
                        proof {
                            let ci = old(db).spec_cfd_idx(self.order_id);
                            assert(old(db).spec_contains_log(old(db).cfds@[ci].id));
                            assert(false);
                        }
                        self.stage = SetupStage::Stopped;
                        Err(e)
                    },
                }
            },
            Err(_) => {
                // the confirmation failed or the aggregate refuses a
                // second setup: record the setup as failed
                self.stage = SetupStage::Stopped;
                let event = cfd.fail_contract_setup(now);
                match pm.handle(db, process_manager::Event::new(event)) {
                    Ok(effects) => Ok(Reaction { actions: Vec::new(), effects }),
                    Err(e) => {
                        proof {
                            let ci = old(db).spec_cfd_idx(self.order_id);
                            assert(old(db).spec_contains_log(old(db).cfds@[ci].id));
                            assert(false);
                        }
                        Err(e)
                    },
                }
            },
        }
    }

    /// The maker user rejects the order: tell the taker and persist
    /// `OfferRejected`. The actor stops either way.
    pub fn handle_rejected(
        &mut self,
        msg: Rejected,
        db: &mut Connection,
        pm: &process_manager::Actor,
        now: Timestamp,
    ) -> (r: Result<Reaction, StoreError>)
        requires
            old(db).wf(),
        ensures
            final(db).wf(),
            final(self).stage is Stopped,
            !old(db).spec_contains_cfd(old(self).order_id) ==> r is Err && *final(db) == *old(db),
            old(db).spec_contains_cfd(old(self).order_id) ==> {
                let agg = spec_cfd_aggregate(*old(db), old(self).order_id);
                &&& r is Ok
                &&& (r matches Ok(re) ==> re.actions@ =~= seq![
                    SetupAction::RejectOrder { taker: old(self).taker_id, order: old(self).order_id },
                ])
                &&& (agg.setup is NotStarted ==> {
                    let event = CfdEvent {
                        timestamp: now,
                        id: old(self).order_id,
                        event: EventKind::OfferRejected,
                    };
                    &&& final(db).spec_events(old(self).order_id) =~= old(db).spec_events(
                        old(self).order_id,
                    ).push(event)
                    &&& (r matches Ok(re) ==> re.effects@ == process_manager::spec_dispatches(
                        pm.role,
                        event,
                    ).push(Command::NotifyCfdChanged { id: old(self).order_id }))
                })
                &&& (!(agg.setup is NotStarted) ==> *final(db) == *old(db) && (r matches Ok(re)
                    ==> re.effects@.len() == 0))
            },
    {
        self.stage = SetupStage::Stopped;
        let mut actions: Vec<SetupAction> = Vec::new();
        actions.push(SetupAction::RejectOrder { taker: self.taker_id, order: self.order_id });
        let cfd = match db.load_open_cfd::<Cfd>(self.order_id, ()) {
            Ok(cfd) => cfd,
            Err(e) => {
                return Err(e);
            },
        };
        proof {
            lemma_fold_keeps_terms(
                Cfd::spec_seed(old(db).spec_cfd(self.order_id)),
                old(db).spec_events(self.order_id),
            );
        }
        match cfd.reject_contract_setup(now) {
            Ok(event) => {
                match pm.handle(db, process_manager::Event::new(event)) {
                    Ok(effects) => Ok(Reaction { actions, effects }),
                    Err(e) => {
                        proof {
                            let ci = old(db).spec_cfd_idx(self.order_id);
                            assert(old(db).spec_contains_log(old(db).cfds@[ci].id));
                            assert(false);
                        }
                        Err(e)
                    },
                }
            },
            Err(_) => Ok(Reaction { actions, effects: Vec::new() }),
        }
    }

    /// The negotiation task reports success: persist
    /// `ContractSetupCompleted` with the DLC; its side effects broadcast
    /// the lock transaction and arm the monitors. The actor stops.
    pub fn handle_setup_succeeded(
        &mut self,
        msg: SetupSucceeded,
        db: &mut Connection,
        pm: &process_manager::Actor,
        now: Timestamp,
    ) -> (r: Result<Reaction, StoreError>)
        requires
            old(db).wf(),
        ensures
            final(db).wf(),
            final(self).stage is Stopped,
            !old(db).spec_contains_cfd(old(self).order_id) ==> r is Err && *final(db) == *old(db),
            old(db).spec_contains_cfd(old(self).order_id) ==> {
                let agg = spec_cfd_aggregate(*old(db), old(self).order_id);
                &&& r is Ok
                &&& (agg.setup is Started ==> {
                    let event = CfdEvent {
                        timestamp: now,
                        id: old(self).order_id,
                        event: EventKind::ContractSetupCompleted { dlc: msg.dlc },
                    };
                    &&& final(db).spec_events(old(self).order_id) =~= old(db).spec_events(
                        old(self).order_id,
                    ).push(event)
                    &&& (r matches Ok(re) ==> re.effects@ == process_manager::spec_dispatches(
                        pm.role,
                        event,
                    ).push(Command::NotifyCfdChanged { id: old(self).order_id }))
                })
                &&& (!(agg.setup is Started) ==> *final(db) == *old(db))
            },
    {
        self.stage = SetupStage::Stopped;
        let cfd = match db.load_open_cfd::<Cfd>(self.order_id, ()) {
            Ok(cfd) => cfd,
            Err(e) => {
                return Err(e);
            },
        };
        proof {
            lemma_fold_keeps_terms(
                Cfd::spec_seed(old(db).spec_cfd(self.order_id)),
                old(db).spec_events(self.order_id),
            );
        }
        match cfd.complete_contract_setup(msg.dlc, now) {
            Ok(event) => {
                match pm.handle(db, process_manager::Event::new(event)) {
                    Ok(effects) => Ok(Reaction { actions: Vec::new(), effects }),
                    Err(e) => {
                        proof {
                            let ci = old(db).spec_cfd_idx(self.order_id);
                            assert(old(db).spec_contains_log(old(db).cfds@[ci].id));
                            assert(false);
                        }
                        Err(e)
                    },
                }
            },
            Err(_) => Ok(Reaction::empty()),
        }
    }

    /// The negotiation task reports failure: persist
    /// `ContractSetupFailed` — the failure becomes a permanent domain
    /// event rather than being dropped. The actor stops.
    pub fn handle_setup_failed(
        &mut self,
        msg: SetupFailed,
        db: &mut Connection,
        pm: &process_manager::Actor,
        now: Timestamp,
    ) -> (r: Result<Reaction, StoreError>)
        requires
            old(db).wf(),
        ensures
            final(db).wf(),
            final(self).stage is Stopped,
            !old(db).spec_contains_cfd(old(self).order_id) ==> r is Err && *final(db) == *old(db),
            old(db).spec_contains_cfd(old(self).order_id) ==> {
                let event = CfdEvent {
                    timestamp: now,
                    id: old(self).order_id,
                    event: EventKind::ContractSetupFailed,
                };
                &&& r is Ok
                &&& final(db).spec_events(old(self).order_id) =~= old(db).spec_events(
                    old(self).order_id,
                ).push(event)
                &&& (r matches Ok(re) ==> re.effects@ == process_manager::spec_dispatches(
                    pm.role,
                    event,
                ).push(Command::NotifyCfdChanged { id: old(self).order_id }))
            },
    {
        self.stage = SetupStage::Stopped;
        let cfd = match db.load_open_cfd::<Cfd>(self.order_id, ()) {
            Ok(cfd) => cfd,
            Err(e) => {
                return Err(e);
            },
        };
        proof {
            lemma_fold_keeps_terms(
                Cfd::spec_seed(old(db).spec_cfd(self.order_id)),
                old(db).spec_events(self.order_id),
            );
        }
        let event = cfd.fail_contract_setup(now);
        match pm.handle(db, process_manager::Event::new(event)) {
            Ok(effects) => Ok(Reaction { actions: Vec::new(), effects }),
            Err(e) => {
                proof {
                    let ci = old(db).spec_cfd_idx(self.order_id);
                    assert(old(db).spec_contains_log(old(db).cfds@[ci].id));
                    assert(false);
                }
                Err(e)
            },
        }
    }

    /// Forward an incoming wire message to the running negotiation task.
    /// A message arriving while no task exists is a protocol violation:
    /// the caller logs and drops it.
    pub fn forward_protocol_msg(&self, msg: SetupMsg) -> (r: Result<SetupAction, ProtocolViolation>)
        ensures
            self.stage is Negotiating ==> r == Ok::<SetupAction, ProtocolViolation>(
                SetupAction::ForwardToNegotiation { msg },
            ),
            !(self.stage is Negotiating) ==> r == Err::<SetupAction, ProtocolViolation>(
                ProtocolViolation,
            ),
    {
        if matches!(self.stage, SetupStage::Negotiating) {
            Ok(SetupAction::ForwardToNegotiation { msg })
        } else {
            Err(ProtocolViolation)
        }
    }
}

} // verus!
