//! The observability read model: a lightweight per-contract projection
//! rebuilt by full rehydration at a fixed interval, aggregated into
//! exported gauges by position side and status.

use vstd::prelude::*;

use crate::db;
use crate::db::{CfdAggregate, ClosedCfd, ClosedCfdAggregate};
use crate::db::failed::{FailedCfd, FailedCfdAggregate};
use crate::model::{CfdEvent, EventKind, Position, Usd};

verus! {

/// Read model of one contract for the position metrics: its side, its
/// notional quantity, and the derived status booleans.
#[derive(Clone, Copy, PartialEq, Eq, Structural, Debug)]
pub struct Cfd {
    pub position: Position,
    pub quantity_usd: Usd,
    pub is_open: bool,
    pub is_closed: bool,
    pub is_failed: bool,
    pub is_refunded: bool,
    pub version: u64,
}

impl Cfd {
    /// The metrics read model's transition function: how one event
    /// changes the derived status booleans. Exhaustive over event kinds.
    pub open spec fn spec_transition(self, kind: EventKind) -> Cfd {
        let next = Cfd { version: (self.version + 1) as u64, ..self };
        match kind {
            EventKind::ContractSetupStarted => Cfd {
                is_open: false,
                is_closed: false,
                is_failed: false,
                is_refunded: false,
                ..next
            },
            EventKind::ContractSetupCompleted { .. } => Cfd { is_open: true, ..next },
            EventKind::LockConfirmed => Cfd { is_open: true, ..next },
            EventKind::LockConfirmedAfterFinality => Cfd { is_open: true, ..next },
            EventKind::ContractSetupFailed => Cfd { is_failed: true, ..next },
            EventKind::OfferRejected => Cfd { is_failed: true, ..next },
            EventKind::RolloverStarted => next,
            EventKind::RolloverAccepted => next,
            EventKind::RolloverRejected => next,
            EventKind::RolloverCompleted { .. } => next,
            EventKind::RolloverFailed => next,
            EventKind::CollaborativeSettlementStarted { .. } => next,
            EventKind::CollaborativeSettlementProposalAccepted => next,
            EventKind::CollaborativeSettlementRejected => next,
            EventKind::CollaborativeSettlementFailed => next,
            EventKind::CollaborativeSettlementCompleted { .. } => Cfd {
                is_open: false,
                is_closed: true,
                ..next
            },
            EventKind::ManualCommit { .. } => next,
            EventKind::CommitConfirmed => next,
            EventKind::CetConfirmed => Cfd { is_open: false, is_closed: true, ..next },
            EventKind::RefundConfirmed => Cfd { is_open: false, is_refunded: true, ..next },
            EventKind::RevokeConfirmed => Cfd { is_open: false, is_closed: true, ..next },
            EventKind::CollaborativeSettlementConfirmed => Cfd {
                is_open: false,
                is_closed: true,
                ..next
            },
            EventKind::CetTimelockExpiredPriorOracleAttestation => Cfd {
                is_open: false,
                is_closed: true,
                ..next
            },
            EventKind::CetTimelockExpiredPostOracleAttestation { .. } => Cfd {
                is_open: false,
                is_closed: true,
                ..next
            },
            EventKind::RefundTimelockExpired { .. } => Cfd {
                is_open: false,
                is_closed: true,
                ..next
            },
            EventKind::OracleAttestedPriorCetTimelock { .. } => Cfd {
                is_open: false,
                is_closed: true,
                ..next
            },
            EventKind::OracleAttestedPostCetTimelock { .. } => Cfd {
                is_open: false,
                is_closed: true,
                ..next
            },
        }
    }
}

impl CfdAggregate for Cfd {
    type CtorArgs = ();

    open spec fn spec_new(args: (), cfd: db::Cfd) -> Cfd {
        Cfd {
            position: cfd.position,
            quantity_usd: cfd.quantity_usd,
            is_open: false,
            is_closed: false,
            is_failed: false,
            is_refunded: false,
            version: 0,
        }
    }

    open spec fn spec_apply(self, event: CfdEvent) -> Cfd {
        self.spec_transition(event.event)
    }

    open spec fn spec_version(self) -> u64 {
        self.version
    }

    fn new(args: (), cfd: db::Cfd) -> (r: Cfd) {
        Cfd {
            position: cfd.position,
            quantity_usd: cfd.quantity_usd,
            is_open: false,
            is_closed: false,
            is_failed: false,
            is_refunded: false,
            version: 0,
        }
    }

    fn apply(self, event: CfdEvent) -> (r: Cfd) {
        let next = Cfd { version: self.version + 1, ..self };
        match event.event {
            EventKind::ContractSetupStarted => Cfd {
                is_open: false,
                is_closed: false,
                is_failed: false,
                is_refunded: false,
                ..next
            },
            EventKind::ContractSetupCompleted { .. } => Cfd { is_open: true, ..next },
            EventKind::LockConfirmed => Cfd { is_open: true, ..next },
            EventKind::LockConfirmedAfterFinality => Cfd { is_open: true, ..next },
            EventKind::ContractSetupFailed => Cfd { is_failed: true, ..next },
            EventKind::OfferRejected => Cfd { is_failed: true, ..next },
            EventKind::RolloverStarted => next,
            EventKind::RolloverAccepted => next,
            EventKind::RolloverRejected => next,
            EventKind::RolloverCompleted { .. } => next,
            EventKind::RolloverFailed => next,
            EventKind::CollaborativeSettlementStarted { .. } => next,
            EventKind::CollaborativeSettlementProposalAccepted => next,
            EventKind::CollaborativeSettlementRejected => next,
            EventKind::CollaborativeSettlementFailed => next,
            EventKind::CollaborativeSettlementCompleted { .. } => Cfd {
                is_open: false,
                is_closed: true,
                ..next
            },
            EventKind::ManualCommit { .. } => next,
            EventKind::CommitConfirmed => next,
            EventKind::CetConfirmed => Cfd { is_open: false, is_closed: true, ..next },
            EventKind::RefundConfirmed => Cfd { is_open: false, is_refunded: true, ..next },
            EventKind::RevokeConfirmed => Cfd { is_open: false, is_closed: true, ..next },
            EventKind::CollaborativeSettlementConfirmed => Cfd {
                is_open: false,
                is_closed: true,
                ..next
            },
            EventKind::CetTimelockExpiredPriorOracleAttestation => Cfd {
                is_open: false,
                is_closed: true,
                ..next
            },
            EventKind::CetTimelockExpiredPostOracleAttestation { .. } => Cfd {
                is_open: false,
                is_closed: true,
                ..next
            },
            EventKind::RefundTimelockExpired { .. } => Cfd {
                is_open: false,
                is_closed: true,
                ..next
            },
            EventKind::OracleAttestedPriorCetTimelock { .. } => Cfd {
                is_open: false,
                is_closed: true,
                ..next
            },
            EventKind::OracleAttestedPostCetTimelock { .. } => Cfd {
                is_open: false,
                is_closed: true,
                ..next
            },
        }
    }

    fn version(&self) -> (v: u64) {
        self.version
    }

    proof fn new_version_is_zero(args: (), cfd: db::Cfd) {
    }

    proof fn apply_increments_version(self, event: CfdEvent) {
    }
}

impl ClosedCfdAggregate for Cfd {
    open spec fn spec_new_closed(args: (), closed: ClosedCfd) -> Cfd {
        Cfd {
            position: closed.position,
            quantity_usd: Usd(closed.n_contracts.0),
            is_open: false,
            is_closed: true,
            is_failed: false,
            is_refunded: false,
            version: 0,
        }
    }

    fn new_closed(args: (), closed: ClosedCfd) -> (r: Cfd) {
        Cfd {
            position: closed.position,
            quantity_usd: Usd(closed.n_contracts.0),
            is_open: false,
            is_closed: true,
            is_failed: false,
            is_refunded: false,
            version: 0,
        }
    }
}

impl FailedCfdAggregate for Cfd {
    open spec fn spec_new_failed(args: (), failed: FailedCfd) -> Cfd {
        Cfd {
            position: failed.position,
            quantity_usd: Usd(failed.n_contracts.0),
            is_open: false,
            is_closed: false,
            is_failed: true,
            is_refunded: false,
            version: 0,
        }
    }

    fn new_failed(args: (), failed: FailedCfd) -> (r: Cfd) {
        Cfd {
            position: failed.position,
            quantity_usd: Usd(failed.n_contracts.0),
            is_open: false,
            is_closed: false,
            is_failed: true,
            is_refunded: false,
            version: 0,
        }
    }
}

/// The status a gauge is labeled with.
#[derive(Clone, Copy, PartialEq, Eq, Structural, Debug)]
pub enum Status {
    Open,
    Closed,
    Failed,
    Refunded,
}

/// Whether this contract counts towards the given status.
pub open spec fn spec_has_status(c: Cfd, status: Status) -> bool {
    match status {
        Status::Open => c.is_open,
        Status::Closed => c.is_closed,
        Status::Failed => c.is_failed,
        Status::Refunded => c.is_refunded,
    }
}

/// How many of the first `n` contracts hold the given position with the
/// given status.
pub open spec fn spec_count(cfds: Seq<Cfd>, position: Position, status: Status, n: int) -> int
    decreases n,
{
    if n <= 0 {
        0
    } else {
        spec_count(cfds, position, status, n - 1) + if cfds[n - 1].position == position
            && spec_has_status(cfds[n - 1], status) {
            1int
        } else {
            0int
        }
    }
}

/// The total notional quantity of the first `n` contracts holding the
/// given position with the given status.
pub open spec fn spec_quantity(cfds: Seq<Cfd>, position: Position, status: Status, n: int) -> int
    decreases n,
{
    if n <= 0 {
        0
    } else {
        spec_quantity(cfds, position, status, n - 1) + if cfds[n - 1].position == position
            && spec_has_status(cfds[n - 1], status) {
            cfds[n - 1].quantity_usd.0 as int
        } else {
            0int
        }
    }
}

proof fn lemma_count_bounds(cfds: Seq<Cfd>, position: Position, status: Status, n: int)
    requires
        0 <= n,
    ensures
        0 <= spec_count(cfds, position, status, n) <= n,
    decreases n,
{
    if n > 0 {
        lemma_count_bounds(cfds, position, status, n - 1);
    }
}

proof fn lemma_quantity_bounds(cfds: Seq<Cfd>, position: Position, status: Status, n: int)
    requires
        0 <= n,
    ensures
        0 <= spec_quantity(cfds, position, status, n) <= n * (u64::MAX as int),
    decreases n,
{
    if n > 0 {
        lemma_quantity_bounds(cfds, position, status, n - 1);
        assert((n - 1) * (u64::MAX as int) + (u64::MAX as int) == n * (u64::MAX as int)) by (
        nonlinear_arith);
    }
}

/// The aggregated gauge values for one position side and one status.
#[derive(Clone, Copy, PartialEq, Eq, Structural, Debug)]
pub struct PositionMetrics {
    /// Total notional quantity, in whole dollars.
    pub quantity: u128,
    /// Number of contracts.
    pub count: u64,
}

/// The full set of exported gauges: quantity and count by position
/// (long/short) and status (open/closed/failed/refunded).
#[derive(Clone, Copy, PartialEq, Eq, Structural, Debug)]
pub struct MetricsSnapshot {
    pub open_long: PositionMetrics,
    pub open_short: PositionMetrics,
    pub closed_long: PositionMetrics,
    pub closed_short: PositionMetrics,
    pub failed_long: PositionMetrics,
    pub failed_short: PositionMetrics,
    pub refunded_long: PositionMetrics,
    pub refunded_short: PositionMetrics,
}

/// The gauge values hold the spec sums for this position and status.
pub open spec fn spec_metrics_for(m: PositionMetrics, cfds: Seq<Cfd>, position: Position, status: Status) -> bool {
    &&& m.quantity == spec_quantity(cfds, position, status, cfds.len() as int)
    &&& m.count == spec_count(cfds, position, status, cfds.len() as int)
}

/// Aggregate quantity and count for one status, partitioned by position
/// side.
pub fn set_position_metrics(cfds: &Vec<Cfd>, status: Status) -> (r: (
    PositionMetrics,
    PositionMetrics,
))
    ensures
        spec_metrics_for(r.0, cfds@, Position::Long, status),
        spec_metrics_for(r.1, cfds@, Position::Short, status),
{
    let mut long = PositionMetrics { quantity: 0, count: 0 };
    let mut short = PositionMetrics { quantity: 0, count: 0 };
    let mut i: usize = 0;
    while i < cfds.len()
        invariant
            0 <= i <= cfds@.len(),
            long.quantity == spec_quantity(cfds@, Position::Long, status, i as int),
            long.count == spec_count(cfds@, Position::Long, status, i as int),
            short.quantity == spec_quantity(cfds@, Position::Short, status, i as int),
            short.count == spec_count(cfds@, Position::Short, status, i as int),
        decreases cfds@.len() - i,
    {
        proof {
            lemma_count_bounds(cfds@, Position::Long, status, i as int);
            lemma_count_bounds(cfds@, Position::Short, status, i as int);
            lemma_quantity_bounds(cfds@, Position::Long, status, i as int);
            lemma_quantity_bounds(cfds@, Position::Short, status, i as int);
            assert((i as int) * (u64::MAX as int) + (u64::MAX as int) <= (u64::MAX as int) * (
            u64::MAX as int) + (u64::MAX as int)) by (nonlinear_arith)
                requires
                    0 <= i as int <= u64::MAX as int,
            ;
        }
        let c = cfds[i];
        let counted = match status {
            Status::Open => c.is_open,
            Status::Closed => c.is_closed,
            Status::Failed => c.is_failed,
            Status::Refunded => c.is_refunded,
        };
        if counted {
            if matches!(c.position, Position::Long) {
                long = PositionMetrics {
                    quantity: long.quantity + c.quantity_usd.0 as u128,
                    count: long.count + 1,
                };
            } else {
                short = PositionMetrics {
                    quantity: short.quantity + c.quantity_usd.0 as u128,
                    count: short.count + 1,
                };
            }
        }
        i = i + 1;
    }
    (long, short)
}

/// Rebuild every exported gauge value from the rehydrated read models:
/// notional quantity and contract count, by position side and status.
pub fn update_position_metrics(cfds: &Vec<Cfd>) -> (r: MetricsSnapshot)
    ensures
        spec_metrics_for(r.open_long, cfds@, Position::Long, Status::Open),
        spec_metrics_for(r.open_short, cfds@, Position::Short, Status::Open),
        spec_metrics_for(r.closed_long, cfds@, Position::Long, Status::Closed),
        spec_metrics_for(r.closed_short, cfds@, Position::Short, Status::Closed),
        spec_metrics_for(r.failed_long, cfds@, Position::Long, Status::Failed),
        spec_metrics_for(r.failed_short, cfds@, Position::Short, Status::Failed),
        spec_metrics_for(r.refunded_long, cfds@, Position::Long, Status::Refunded),
        spec_metrics_for(r.refunded_short, cfds@, Position::Short, Status::Refunded),
{
    let (open_long, open_short) = set_position_metrics(cfds, Status::Open);
    let (closed_long, closed_short) = set_position_metrics(cfds, Status::Closed);
    let (failed_long, failed_short) = set_position_metrics(cfds, Status::Failed);
    let (refunded_long, refunded_short) = set_position_metrics(cfds, Status::Refunded);
    MetricsSnapshot {
        open_long,
        open_short,
        closed_long,
        closed_short,
        failed_long,
        failed_short,
        refunded_long,
        refunded_short,
    }
}

} // verus!
