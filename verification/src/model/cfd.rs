//! The contract aggregate: pure state derived by folding the event log,
//! plus command validation.
//!
//! The aggregate is never stored. Its authoritative value is
//! `spec_fold(seed, events)` over the persisted log, and every command
//! validates the derived state before emitting new events, so the event
//! log remains the single source of truth.

use vstd::prelude::*;

use crate::model::{BitMexPriceEventId, CfdEvent, Dlc, EventKind, Identity, Leverage, OrderId,
    Position, Price, Timestamp, Txid, Usd, Role};

verus! {

/// A command's precondition on the derived contract state failed. The
/// command is rejected synchronously and no event is emitted.
#[derive(Clone, Copy, PartialEq, Eq, Structural, Debug)]
pub enum CommandError {
    /// Another negotiation (setup or rollover) is already in flight, or
    /// the contract setup has already run.
    Conflict,
    /// The contract is not open with a live DLC.
    NotOpen,
    /// No contract setup is currently in flight.
    NoSetupInFlight,
    /// No rollover is currently in flight.
    NoRolloverInFlight,
}

/// Progress of the initial contract setup, as derived from the log.
#[derive(Clone, Copy, PartialEq, Eq, Structural, Debug)]
pub enum SetupStatus {
    NotStarted,
    Started,
    Succeeded,
    Failed,
    Rejected,
}

/// Progress of a rollover, as derived from the log. A completed, rejected
/// or failed rollover returns to `Inactive`, so a later rollover can run.
#[derive(Clone, Copy, PartialEq, Eq, Structural, Debug)]
pub enum RolloverStatus {
    Inactive,
    Proposed,
    Accepted,
}

/// The immediate, non-persisted payload a caller needs to spawn a setup
/// negotiation task.
#[derive(Clone, Copy, PartialEq, Eq, Structural, Debug)]
pub struct SetupParams {
    pub id: OrderId,
    pub counterparty: Identity,
    pub role: Role,
    pub position: Position,
    pub price: Price,
    pub quantity: Usd,
    pub taker_leverage: Leverage,
    pub oracle_event_id: BitMexPriceEventId,
}

impl SetupParams {
    pub fn counterparty_identity(&self) -> (r: Identity)
        ensures
            r == self.counterparty,
    {
        self.counterparty
    }
}

/// The immediate, non-persisted payload a caller needs to spawn a rollover
/// negotiation task: the terms and the existing DLC the rollover extends.
#[derive(Clone, Copy, PartialEq, Eq, Structural, Debug)]
pub struct RolloverParams {
    pub id: OrderId,
    pub quantity: Usd,
    pub price: Price,
    pub taker_leverage: Leverage,
    pub dlc: Dlc,
    pub settlement_interval_hours: u32,
}

/// A rollover proposal received from the taker: which contract to roll
/// over, and when the proposal was made. Ephemeral — held only by the
/// responsible protocol actor; only its outcome becomes an event.
#[derive(Clone, Copy, PartialEq, Eq, Structural, Debug)]
pub struct RolloverProposal {
    pub order_id: OrderId,
    pub timestamp: Timestamp,
}

/// Outcome of a rollover negotiation, reported back by the protocol actor.
#[derive(Clone, Copy, PartialEq, Eq, Structural, Debug)]
pub enum RolloverCompleted {
    Succeeded { dlc: Dlc },
    Rejected,
    Failed,
}

/// The contract aggregate. `version` counts the folded events; the
/// booleans and the live DLC are derived from history, never stored
/// independently.
#[derive(Clone, Copy, PartialEq, Eq, Structural, Debug)]
pub struct Cfd {
    /// The immutable terms the contract was accepted under.
    pub terms: crate::db::Cfd,
    /// Number of events folded into this state.
    pub version: u64,
    /// The live DLC, if the contract is collateralized. Replaced wholesale
    /// on rollover completion.
    pub dlc: Option<Dlc>,
    pub setup: SetupStatus,
    pub rollover: RolloverStatus,
    /// The lock transaction has been confirmed on chain.
    pub lock_confirmed: bool,
    /// A commit transaction that was published but not yet confirmed.
    pub pending_commit: Option<Txid>,
    /// A refund transaction that became due but was not yet confirmed.
    pub pending_refund: Option<Txid>,
    pub is_open: bool,
    pub is_closed: bool,
    pub is_failed: bool,
    pub is_refunded: bool,
}

impl Cfd {
    /// The version-0 state seeded from accepted order terms.
    pub open spec fn spec_seed(terms: crate::db::Cfd) -> Cfd {
        Cfd {
            terms,
            version: 0,
            dlc: None,
            setup: SetupStatus::NotStarted,
            rollover: RolloverStatus::Inactive,
            lock_confirmed: false,
            pending_commit: None,
            pending_refund: None,
            is_open: false,
            is_closed: false,
            is_failed: false,
            is_refunded: false,
        }
    }

    /// The pure, total, exhaustive transition function of the aggregate:
    /// the state after folding one more event of the given kind.
    pub open spec fn spec_transition(self, kind: EventKind) -> Cfd {
        let next = Cfd { version: (self.version + 1) as u64, ..self };
        match kind {
            EventKind::ContractSetupStarted => Cfd {
                setup: SetupStatus::Started,
                is_open: false,
                is_closed: false,
                is_failed: false,
                is_refunded: false,
                ..next
            },
            EventKind::ContractSetupCompleted { dlc } => Cfd {
                setup: SetupStatus::Succeeded,
                dlc: Some(dlc),
                is_open: true,
                ..next
            },
            EventKind::ContractSetupFailed => Cfd {
                setup: SetupStatus::Failed,
                is_failed: true,
                ..next
            },
            EventKind::OfferRejected => Cfd {
                setup: SetupStatus::Rejected,
                is_failed: true,
                ..next
            },
            EventKind::RolloverStarted => Cfd { rollover: RolloverStatus::Proposed, ..next },
            EventKind::RolloverAccepted => Cfd { rollover: RolloverStatus::Accepted, ..next },
            EventKind::RolloverRejected => Cfd { rollover: RolloverStatus::Inactive, ..next },
            EventKind::RolloverCompleted { dlc } => Cfd {
                rollover: RolloverStatus::Inactive,
                dlc: Some(dlc),
                ..next
            },
            EventKind::RolloverFailed => Cfd { rollover: RolloverStatus::Inactive, ..next },
            EventKind::CollaborativeSettlementStarted { .. } => next,
            EventKind::CollaborativeSettlementProposalAccepted => next,
            EventKind::CollaborativeSettlementCompleted { .. } => Cfd {
                is_open: false,
                is_closed: true,
                ..next
            },
            EventKind::CollaborativeSettlementRejected => next,
            EventKind::CollaborativeSettlementFailed => next,
            EventKind::CollaborativeSettlementConfirmed => Cfd {
                is_open: false,
                is_closed: true,
                ..next
            },
            EventKind::LockConfirmed => Cfd { lock_confirmed: true, is_open: true, ..next },
            EventKind::LockConfirmedAfterFinality => Cfd {
                lock_confirmed: true,
                is_open: true,
                ..next
            },
            EventKind::CommitConfirmed => Cfd { pending_commit: None, ..next },
            EventKind::CetConfirmed => Cfd { is_open: false, is_closed: true, ..next },
            EventKind::RefundConfirmed => Cfd {
                pending_refund: None,
                is_open: false,
                is_refunded: true,
                ..next
            },
            EventKind::RevokeConfirmed => Cfd { is_open: false, is_closed: true, ..next },
            EventKind::ManualCommit { tx } => Cfd { pending_commit: Some(tx), ..next },
            EventKind::RefundTimelockExpired { refund_tx } => Cfd {
                pending_refund: Some(refund_tx),
                is_open: false,
                is_closed: true,
                ..next
            },
            EventKind::CetTimelockExpiredPriorOracleAttestation => Cfd {
                is_open: false,
                is_closed: true,
                ..next
            },
            EventKind::CetTimelockExpiredPostOracleAttestation { .. } => Cfd {
                is_open: false,
                is_closed: true,
                ..next
            },
            EventKind::OracleAttestedPriorCetTimelock { .. } => Cfd {
                is_open: false,
                is_closed: true,
                ..next
            },
            EventKind::OracleAttestedPostCetTimelock { .. } => Cfd {
                is_open: false,
                is_closed: true,
                ..next
            },
        }
    }

    /// A contract setup negotiation is running and has not reached a
    /// terminal event.
    pub open spec fn spec_setup_in_flight(self) -> bool {
        self.setup is Started
    }

    /// A rollover is running and has not reached a terminal event.
    pub open spec fn spec_rollover_in_flight(self) -> bool {
        !(self.rollover is Inactive)
    }

    /// Some negotiation — setup or rollover — is in flight. At most one
    /// may run per contract at any time.
    pub open spec fn spec_negotiation_in_flight(self) -> bool {
        self.spec_setup_in_flight() || self.spec_rollover_in_flight()
    }

    /// The contract is open and collateralized by a live DLC.
    pub open spec fn spec_has_open_dlc(self) -> bool {
        self.is_open && self.dlc is Some
    }

    pub open spec fn spec_setup_params(self) -> SetupParams {
        SetupParams {
            id: self.terms.id,
            counterparty: self.terms.counterparty_network_identity,
            role: self.terms.role,
            position: self.terms.position,
            price: self.terms.initial_price,
            quantity: self.terms.quantity_usd,
            taker_leverage: self.terms.taker_leverage,
            oracle_event_id: self.terms.oracle_event_id,
        }
    }

    pub open spec fn spec_rollover_params(self) -> RolloverParams {
        RolloverParams {
            id: self.terms.id,
            quantity: self.terms.quantity_usd,
            price: self.terms.initial_price,
            taker_leverage: self.terms.taker_leverage,
            dlc: self.dlc->Some_0,
            settlement_interval_hours: self.terms.settlement_interval_hours,
        }
    }

    /// Validate and start the initial contract setup.
    ///
    /// Succeeds exactly when the setup has never run and no negotiation is
    /// in flight; then emits `ContractSetupStarted` together with the
    /// parameters the negotiation task needs.
    pub fn start_contract_setup(&self, now: Timestamp) -> (r: Result<
        (CfdEvent, SetupParams),
        CommandError,
    >)
        ensures
            r is Ok <==> (self.setup is NotStarted && !self.spec_rollover_in_flight()),
            r is Ok ==> r == Ok::<(CfdEvent, SetupParams), CommandError>(
                (
                    CfdEvent {
                        timestamp: now,
                        id: self.terms.id,
                        event: EventKind::ContractSetupStarted,
                    },
                    self.spec_setup_params(),
                ),
            ),
            r is Err ==> r == Err::<(CfdEvent, SetupParams), CommandError>(CommandError::Conflict),
    {
        if !matches!(self.setup, SetupStatus::NotStarted) || !matches!(
            self.rollover,
            RolloverStatus::Inactive,
        ) {
            return Err(CommandError::Conflict);
        }
        let event = CfdEvent {
            timestamp: now,
            id: self.terms.id,
            event: EventKind::ContractSetupStarted,
        };
        let params = SetupParams {
            id: self.terms.id,
            counterparty: self.terms.counterparty_network_identity,
            role: self.terms.role,
            position: self.terms.position,
            price: self.terms.initial_price,
            quantity: self.terms.quantity_usd,
            taker_leverage: self.terms.taker_leverage,
            oracle_event_id: self.terms.oracle_event_id,
        };
        Ok((event, params))
    }

    /// Record that the setup negotiation produced a DLC.
    ///
    /// Succeeds exactly when a setup is in flight; then emits
    /// `ContractSetupCompleted` carrying the new DLC.
    pub fn complete_contract_setup(&self, dlc: Dlc, now: Timestamp) -> (r: Result<
        CfdEvent,
        CommandError,
    >)
        ensures
            r is Ok <==> self.spec_setup_in_flight(),
            r is Ok ==> r == Ok::<CfdEvent, CommandError>(
                CfdEvent {
                    timestamp: now,
                    id: self.terms.id,
                    event: EventKind::ContractSetupCompleted { dlc },
                },
            ),
            r is Err ==> r == Err::<CfdEvent, CommandError>(CommandError::NoSetupInFlight),
    {
        if matches!(self.setup, SetupStatus::Started) {
            Ok(
                CfdEvent {
                    timestamp: now,
                    id: self.terms.id,
                    event: EventKind::ContractSetupCompleted { dlc },
                },
            )
        } else {
            Err(CommandError::NoSetupInFlight)
        }
    }

    /// Reject the offer before any negotiation has started.
    ///
    /// Succeeds exactly when the setup has never run; then emits
    /// `OfferRejected`.
    pub fn reject_contract_setup(&self, now: Timestamp) -> (r: Result<CfdEvent, CommandError>)
        ensures
            r is Ok <==> self.setup is NotStarted,
            r is Ok ==> r == Ok::<CfdEvent, CommandError>(
                CfdEvent { timestamp: now, id: self.terms.id, event: EventKind::OfferRejected },
            ),
            r is Err ==> r == Err::<CfdEvent, CommandError>(CommandError::Conflict),
    {
        if matches!(self.setup, SetupStatus::NotStarted) {
            Ok(CfdEvent { timestamp: now, id: self.terms.id, event: EventKind::OfferRejected })
        } else {
            Err(CommandError::Conflict)
        }
    }

    /// Record that the setup could not be carried through. Always
    /// permitted: a failure observed by the protocol actor is never
    /// swallowed.
    pub fn fail_contract_setup(&self, now: Timestamp) -> (e: CfdEvent)
        ensures
            e == (CfdEvent {
                timestamp: now,
                id: self.terms.id,
                event: EventKind::ContractSetupFailed,
            }),
    {
        CfdEvent { timestamp: now, id: self.terms.id, event: EventKind::ContractSetupFailed }
    }

    /// Validate an incoming rollover proposal.
    ///
    /// Fails with [`CommandError::Conflict`] exactly when the aggregate
    /// already shows an in-flight rollover or setup — negotiations are
    /// mutually exclusive per contract. Otherwise fails with
    /// [`CommandError::NotOpen`] exactly when the contract has no live
    /// DLC. Otherwise emits `RolloverStarted`.
    pub fn receive_rollover_proposal(&self, now: Timestamp) -> (r: Result<CfdEvent, CommandError>)
        ensures
            self.spec_negotiation_in_flight() ==> r == Err::<CfdEvent, CommandError>(
                CommandError::Conflict,
            ),
            !self.spec_negotiation_in_flight() && !self.spec_has_open_dlc() ==> r == Err::<
                CfdEvent,
                CommandError,
            >(CommandError::NotOpen),
            !self.spec_negotiation_in_flight() && self.spec_has_open_dlc() ==> r == Ok::<
                CfdEvent,
                CommandError,
            >(CfdEvent { timestamp: now, id: self.terms.id, event: EventKind::RolloverStarted }),
    {
        if matches!(self.setup, SetupStatus::Started) || !matches!(
            self.rollover,
            RolloverStatus::Inactive,
        ) {
            Err(CommandError::Conflict)
        } else if !self.is_open || self.dlc.is_none() {
            Err(CommandError::NotOpen)
        } else {
            Ok(CfdEvent { timestamp: now, id: self.terms.id, event: EventKind::RolloverStarted })
        }
    }

    /// Accept a pending rollover proposal.
    ///
    /// Succeeds exactly when a proposal is pending and a live DLC exists;
    /// then emits `RolloverAccepted` together with the parameters the
    /// negotiation task needs, reusing the existing DLC as input.
    pub fn accept_rollover_proposal(&self, now: Timestamp) -> (r: Result<
        (CfdEvent, RolloverParams),
        CommandError,
    >)
        ensures
            r is Ok <==> (self.rollover is Proposed && self.dlc is Some),
            r is Ok ==> r == Ok::<(CfdEvent, RolloverParams), CommandError>(
                (
                    CfdEvent {
                        timestamp: now,
                        id: self.terms.id,
                        event: EventKind::RolloverAccepted,
                    },
                    self.spec_rollover_params(),
                ),
            ),
            !(self.rollover is Proposed) ==> r == Err::<(CfdEvent, RolloverParams), CommandError>(
                CommandError::NoRolloverInFlight,
            ),
            self.rollover is Proposed && self.dlc is None ==> r == Err::<
                (CfdEvent, RolloverParams),
                CommandError,
            >(CommandError::NotOpen),
    {
        if !matches!(self.rollover, RolloverStatus::Proposed) {
            return Err(CommandError::NoRolloverInFlight);
        }
        match self.dlc {
            Some(dlc) => {
                let event = CfdEvent {
                    timestamp: now,
                    id: self.terms.id,
                    event: EventKind::RolloverAccepted,
                };
                let params = RolloverParams {
                    id: self.terms.id,
                    quantity: self.terms.quantity_usd,
                    price: self.terms.initial_price,
                    taker_leverage: self.terms.taker_leverage,
                    dlc,
                    settlement_interval_hours: self.terms.settlement_interval_hours,
                };
                Ok((event, params))
            },
            None => Err(CommandError::NotOpen),
        }
    }

    /// Record the outcome of a rollover: one event that replaces the live
    /// DLC wholesale (on success), or marks the rollover rejected or
    /// failed.
    ///
    /// Succeeds exactly when a rollover is in flight.
    pub fn roll_over(&self, completed: RolloverCompleted, now: Timestamp) -> (r: Result<
        CfdEvent,
        CommandError,
    >)
        ensures
            r is Ok <==> self.spec_rollover_in_flight(),
            r is Err ==> r == Err::<CfdEvent, CommandError>(CommandError::NoRolloverInFlight),
            r is Ok ==> r == Ok::<CfdEvent, CommandError>(
                CfdEvent {
                    timestamp: now,
                    id: self.terms.id,
                    event: match completed {
                        RolloverCompleted::Succeeded { dlc } => EventKind::RolloverCompleted { dlc },
                        RolloverCompleted::Rejected => EventKind::RolloverRejected,
                        RolloverCompleted::Failed => EventKind::RolloverFailed,
                    },
                },
            ),
    {
        if matches!(self.rollover, RolloverStatus::Inactive) {
            return Err(CommandError::NoRolloverInFlight);
        }
        let kind = match completed {
            RolloverCompleted::Succeeded { dlc } => EventKind::RolloverCompleted { dlc },
            RolloverCompleted::Rejected => EventKind::RolloverRejected,
            RolloverCompleted::Failed => EventKind::RolloverFailed,
        };
        Ok(CfdEvent { timestamp: now, id: self.terms.id, event: kind })
    }

    /// The lock transaction, if it still awaits its on-chain
    /// confirmation and should be (re)broadcast.
    pub fn pending_open_lock_tx(&self) -> (r: Option<Txid>)
        ensures
            r == self.spec_pending_open_lock_tx(),
    {
        match self.dlc {
            Some(dlc) => {
                if self.is_open && !self.lock_confirmed {
                    Some(dlc.lock_tx)
                } else {
                    None
                }
            },
            None => None,
        }
    }

    pub open spec fn spec_pending_open_lock_tx(self) -> Option<Txid> {
        if self.is_open && !self.lock_confirmed && self.dlc is Some {
            Some(self.dlc->Some_0.lock_tx)
        } else {
            None
        }
    }

    /// The refund transaction, if it became due and still awaits its
    /// confirmation.
    pub fn due_refund_tx(&self) -> (r: Option<Txid>)
        ensures
            r == self.pending_refund,
    {
        self.pending_refund
    }

    /// The commit transaction, if one was published and still awaits its
    /// confirmation.
    pub fn due_commit_tx(&self) -> (r: Option<Txid>)
        ensures
            r == self.pending_commit,
    {
        self.pending_commit
    }

    /// A negotiation was interrupted: its start is on record but no
    /// terminal event followed.
    pub fn is_interrupted(&self) -> (b: bool)
        ensures
            b == self.spec_negotiation_in_flight(),
    {
        matches!(self.setup, SetupStatus::Started) || !matches!(
            self.rollover,
            RolloverStatus::Inactive,
        )
    }
}

/// The contract aggregate the store derives for `id`: the seed from the
/// stored terms with the whole persisted event sequence folded in.
pub open spec fn spec_cfd_aggregate(db: crate::db::Connection, id: OrderId) -> Cfd {
    crate::db::spec_fold(Cfd::spec_seed(db.spec_cfd(id)), db.spec_events(id))
}

/// The terms a contract was accepted under are immutable: no folded
/// event ever changes them.
pub proof fn lemma_fold_keeps_terms(a: Cfd, events: Seq<CfdEvent>)
    ensures
        crate::db::spec_fold(a, events).terms == a.terms,
    decreases events.len(),
{
    if events.len() > 0 {
        assert(crate::db::CfdAggregate::spec_apply(a, events[0]).terms == a.terms);
        lemma_fold_keeps_terms(crate::db::CfdAggregate::spec_apply(a, events[0]), events.drop_first());
    }
}

impl crate::db::CfdAggregate for Cfd {
    type CtorArgs = ();

    open spec fn spec_new(args: (), cfd: crate::db::Cfd) -> Cfd {
        Cfd::spec_seed(cfd)
    }

    open spec fn spec_apply(self, event: CfdEvent) -> Cfd {
        self.spec_transition(event.event)
    }

    open spec fn spec_version(self) -> u64 {
        self.version
    }

    fn new(args: (), cfd: crate::db::Cfd) -> (r: Cfd) {
        Cfd {
            terms: cfd,
            version: 0,
            dlc: None,
            setup: SetupStatus::NotStarted,
            rollover: RolloverStatus::Inactive,
            lock_confirmed: false,
            pending_commit: None,
            pending_refund: None,
            is_open: false,
            is_closed: false,
            is_failed: false,
            is_refunded: false,
        }
    }

    fn apply(self, event: CfdEvent) -> (r: Cfd) {
        let next = Cfd { version: self.version + 1, ..self };
        match event.event {
            EventKind::ContractSetupStarted => Cfd {
                setup: SetupStatus::Started,
                is_open: false,
                is_closed: false,
                is_failed: false,
                is_refunded: false,
                ..next
            },
            EventKind::ContractSetupCompleted { dlc } => Cfd {
                setup: SetupStatus::Succeeded,
                dlc: Some(dlc),
                is_open: true,
                ..next
            },
            EventKind::ContractSetupFailed => Cfd {
                setup: SetupStatus::Failed,
                is_failed: true,
                ..next
            },
            EventKind::OfferRejected => Cfd {
                setup: SetupStatus::Rejected,
                is_failed: true,
                ..next
            },
            EventKind::RolloverStarted => Cfd { rollover: RolloverStatus::Proposed, ..next },
            EventKind::RolloverAccepted => Cfd { rollover: RolloverStatus::Accepted, ..next },
            EventKind::RolloverRejected => Cfd { rollover: RolloverStatus::Inactive, ..next },
            EventKind::RolloverCompleted { dlc } => Cfd {
                rollover: RolloverStatus::Inactive,
                dlc: Some(dlc),
                ..next
            },
            EventKind::RolloverFailed => Cfd { rollover: RolloverStatus::Inactive, ..next },
            EventKind::CollaborativeSettlementStarted { .. } => next,
            EventKind::CollaborativeSettlementProposalAccepted => next,
            EventKind::CollaborativeSettlementCompleted { .. } => Cfd {
                is_open: false,
                is_closed: true,
                ..next
            },
            EventKind::CollaborativeSettlementRejected => next,
            EventKind::CollaborativeSettlementFailed => next,
            EventKind::CollaborativeSettlementConfirmed => Cfd {
                is_open: false,
                is_closed: true,
                ..next
            },
            EventKind::LockConfirmed => Cfd { lock_confirmed: true, is_open: true, ..next },
            EventKind::LockConfirmedAfterFinality => Cfd {
                lock_confirmed: true,
                is_open: true,
                ..next
            },
            EventKind::CommitConfirmed => Cfd { pending_commit: None, ..next },
            EventKind::CetConfirmed => Cfd { is_open: false, is_closed: true, ..next },
            EventKind::RefundConfirmed => Cfd {
                pending_refund: None,
                is_open: false,
                is_refunded: true,
                ..next
            },
            EventKind::RevokeConfirmed => Cfd { is_open: false, is_closed: true, ..next },
            EventKind::ManualCommit { tx } => Cfd { pending_commit: Some(tx), ..next },
            EventKind::RefundTimelockExpired { refund_tx } => Cfd {
                pending_refund: Some(refund_tx),
                is_open: false,
                is_closed: true,
                ..next
            },
            EventKind::CetTimelockExpiredPriorOracleAttestation => Cfd {
                is_open: false,
                is_closed: true,
                ..next
            },
            EventKind::CetTimelockExpiredPostOracleAttestation { .. } => Cfd {
                is_open: false,
                is_closed: true,
                ..next
            },
            EventKind::OracleAttestedPriorCetTimelock { .. } => Cfd {
                is_open: false,
                is_closed: true,
                ..next
            },
            EventKind::OracleAttestedPostCetTimelock { .. } => Cfd {
                is_open: false,
                is_closed: true,
                ..next
            },
        }
    }

    fn version(&self) -> (v: u64) {
        self.version
    }

    proof fn new_version_is_zero(args: (), cfd: crate::db::Cfd) {
    }

    proof fn apply_increments_version(self, event: CfdEvent) {
    }
}

} // verus!
