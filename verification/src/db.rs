//! The storage model: hot contract rows, per-contract append-only event
//! logs, and the archive of terminally failed contracts.
//!
//! `Connection` holds the engine's view of the relational store as plain
//! values. Sequence numbers per contract are contiguous from 0; events are
//! never updated or deleted except by the archiver's single atomic move
//! (see [`failed`]).

use vstd::prelude::*;

use crate::model::{CfdEvent, FundingRate, Identity, Leverage, OrderId, Position, Price, Role, Usd};
use crate::model::{BitMexPriceEventId, Contracts};

pub mod failed;

verus! {

/// The immutable terms of one contract, as stored in the hot contract
/// table when the order is accepted.
#[derive(Clone, Copy, PartialEq, Eq, Structural, Debug)]
pub struct Cfd {
    pub id: OrderId,
    pub position: Position,
    pub initial_price: Price,
    pub taker_leverage: Leverage,
    /// Hours between two settlement/funding events.
    pub settlement_interval_hours: u32,
    pub quantity_usd: Usd,
    pub counterparty_network_identity: Identity,
    pub role: Role,
    /// Fee the taker pays the maker when the contract opens, in satoshis.
    pub opening_fee_sats: u64,
    pub initial_funding_rate: FundingRate,
    /// Oracle price event the initial DLC settles on.
    pub oracle_event_id: BitMexPriceEventId,
}

/// An aggregate that can be rehydrated by folding a contract's event log.
///
/// `spec_new` and `spec_apply` are the mathematical seed and transition
/// function; the executable constructors and `apply` are bound to them, so
/// rehydration is deterministic by construction: the derived state is a
/// function of the stored row and the event sequence alone.
pub trait CfdAggregate: Sized {
    /// Extra arguments the aggregate needs besides the stored contract row.
    type CtorArgs;

    /// Mathematical seed state for a stored contract row.
    spec fn spec_new(args: Self::CtorArgs, cfd: Cfd) -> Self;

    /// Mathematical transition function: the state after one more event.
    spec fn spec_apply(self, event: CfdEvent) -> Self;

    /// The number of events folded into this state.
    spec fn spec_version(self) -> u64;

    /// Seed the version-0 state from the stored contract row.
    fn new(args: Self::CtorArgs, cfd: Cfd) -> (r: Self)
        ensures
            r == Self::spec_new(args, cfd),
    ;

    /// Fold one more event into the state.
    fn apply(self, event: CfdEvent) -> (r: Self)
        requires
            self.spec_version() < u64::MAX,
        ensures
            r == self.spec_apply(event),
    ;

    /// The number of events folded into this state.
    fn version(&self) -> (v: u64)
        ensures
            v == self.spec_version(),
    ;

    /// A fresh aggregate has folded no events.
    proof fn new_version_is_zero(args: Self::CtorArgs, cfd: Cfd)
        ensures
            Self::spec_new(args, cfd).spec_version() == 0,
    ;

    /// Folding one event increments the version by exactly one.
    proof fn apply_increments_version(self, event: CfdEvent)
        requires
            self.spec_version() < u64::MAX,
        ensures
            self.spec_apply(event).spec_version() == self.spec_version() + 1,
    ;
}

/// The precomputed terminal projection of a contract that closed in an
/// orderly way, stored so that reading it back needs no replay.
#[derive(Clone, Copy, PartialEq, Eq, Structural, Debug)]
pub struct ClosedCfd {
    pub id: OrderId,
    pub position: Position,
    pub n_contracts: Contracts,
}

/// An aggregate that can also be built from a closed contract's stored
/// projection, without replaying events.
pub trait ClosedCfdAggregate: CfdAggregate {
    /// Mathematical constructor from the stored projection.
    spec fn spec_new_closed(args: Self::CtorArgs, cfd: ClosedCfd) -> Self;

    /// Build the aggregate from the stored projection.
    fn new_closed(args: Self::CtorArgs, cfd: ClosedCfd) -> (r: Self)
        ensures
            r == Self::spec_new_closed(args, cfd),
    ;
}

/// The state derived by folding `events`, in order, onto the seed `a`.
pub open spec fn spec_fold<A: CfdAggregate>(a: A, events: Seq<CfdEvent>) -> A
    decreases events.len(),
{
    if events.len() == 0 {
        a
    } else {
        spec_fold(a.spec_apply(events[0]), events.drop_first())
    }
}

/// Folding a sequence and then one more event is folding the extended
/// sequence.
pub proof fn lemma_fold_snoc<A: CfdAggregate>(a: A, events: Seq<CfdEvent>, e: CfdEvent)
    ensures
        spec_fold(a, events.push(e)) == spec_fold(a, events).spec_apply(e),
    decreases events.len(),
{
    if events.len() == 0 {
        assert(events.push(e)[0] == e);
        assert(events.push(e).drop_first() =~= Seq::<CfdEvent>::empty());
        assert(spec_fold(a, events.push(e)) == spec_fold(a.spec_apply(e), Seq::empty()));
    } else {
        assert(events.push(e)[0] == events[0]);
        assert(events.push(e).drop_first() =~= events.drop_first().push(e));
        lemma_fold_snoc(a.spec_apply(events[0]), events.drop_first(), e);
        assert(spec_fold(a, events.push(e)) == spec_fold(
            a.spec_apply(events[0]),
            events.drop_first().push(e),
        ));
    }
}

/// Folding a concatenation is folding the first part, then the second.
pub proof fn lemma_fold_concat<A: CfdAggregate>(a: A, s: Seq<CfdEvent>, t: Seq<CfdEvent>)
    ensures
        spec_fold(a, s + t) == spec_fold(spec_fold(a, s), t),
    decreases t.len(),
{
    if t.len() == 0 {
        assert(s + t =~= s);
    } else {
        assert(s + t =~= (s + t.drop_last()).push(t.last()));
        lemma_fold_concat(a, s, t.drop_last());
        lemma_fold_snoc(a, s + t.drop_last(), t.last());
        lemma_fold_snoc(spec_fold(a, s), t.drop_last(), t.last());
        assert(t.drop_last().push(t.last()) =~= t);
    }
}

/// Determinism of rehydration: the derived state is a function of the seed
/// and the event sequence alone, so replaying an identical event sequence
/// always yields an identical state.
pub proof fn lemma_fold_deterministic<A: CfdAggregate>(
    a1: A,
    a2: A,
    events1: Seq<CfdEvent>,
    events2: Seq<CfdEvent>,
)
    requires
        a1 == a2,
        events1 == events2,
    ensures
        spec_fold(a1, events1) == spec_fold(a2, events2),
{
}

/// A persistence operation could not be carried out; the store is left
/// exactly as it was — there are no partial writes.
#[derive(Clone, Copy, PartialEq, Eq, Structural, Debug)]
pub enum StoreError {
    /// The contract is not in the hot store.
    NotFound,
    /// A contract with this identifier is already in the hot store.
    Duplicate,
}

/// One persisted event together with its per-contract sequence number.
#[derive(Clone, Copy, PartialEq, Eq, Structural, Debug)]
pub struct EventRow {
    pub seq: u64,
    pub event: CfdEvent,
}

/// The append-only event log of one contract.
#[derive(PartialEq, Eq, Debug)]
pub struct ContractLog {
    pub id: OrderId,
    pub events: Vec<EventRow>,
}

/// The engine's view of the relational store: the hot contract table, the
/// per-contract event logs, and the archive of failed contracts. All
/// multi-step writes go through methods that either complete wholly or
/// leave the value untouched.
#[derive(PartialEq, Eq, Debug)]
pub struct Connection {
    pub cfds: Vec<Cfd>,
    pub logs: Vec<ContractLog>,
    pub failed_cfds: Vec<failed::FailedCfdRow>,
}

/// Sequence numbers in one log are contiguous from 0 and every event in it
/// carries the log's contract id.
pub open spec fn spec_log_wf(log: ContractLog) -> bool {
    forall|k: int|
        0 <= k < log.events@.len() ==> (#[trigger] log.events@[k]).seq == k
            && log.events@[k].event.id == log.id
}

impl Connection {
    pub open spec fn spec_contains_cfd(self, id: OrderId) -> bool {
        exists|i: int| 0 <= i < self.cfds@.len() && (#[trigger] self.cfds@[i]).id == id
    }

    pub open spec fn spec_cfd_idx(self, id: OrderId) -> int {
        choose|i: int| 0 <= i < self.cfds@.len() && (#[trigger] self.cfds@[i]).id == id
    }

    /// The stored row of contract `id`.
    pub open spec fn spec_cfd(self, id: OrderId) -> Cfd {
        self.cfds@[self.spec_cfd_idx(id)]
    }

    pub open spec fn spec_contains_log(self, id: OrderId) -> bool {
        exists|i: int| 0 <= i < self.logs@.len() && (#[trigger] self.logs@[i]).id == id
    }

    pub open spec fn spec_log_idx(self, id: OrderId) -> int {
        choose|i: int| 0 <= i < self.logs@.len() && (#[trigger] self.logs@[i]).id == id
    }

    /// The stored event rows of contract `id`, in sequence order.
    pub open spec fn spec_log(self, id: OrderId) -> Seq<EventRow> {
        self.logs@[self.spec_log_idx(id)].events@
    }

    /// The persisted event sequence of contract `id`.
    pub open spec fn spec_events(self, id: OrderId) -> Seq<CfdEvent> {
        self.spec_log(id).map_values(|r: EventRow| r.event)
    }

    pub open spec fn spec_contains_failed(self, id: OrderId) -> bool {
        exists|i: int|
            0 <= i < self.failed_cfds@.len() && (#[trigger] self.failed_cfds@[i]).cfd.id == id
    }

    pub open spec fn spec_failed_idx(self, id: OrderId) -> int {
        choose|i: int|
            0 <= i < self.failed_cfds@.len() && (#[trigger] self.failed_cfds@[i]).cfd.id == id
    }

    /// The archived projection of failed contract `id`.
    pub open spec fn spec_failed(self, id: OrderId) -> failed::FailedCfd {
        self.failed_cfds@[self.spec_failed_idx(id)].cfd
    }

    /// The archived event-log copy of failed contract `id`.
    pub open spec fn spec_failed_log(self, id: OrderId) -> Seq<failed::EventLogEntry> {
        self.failed_cfds@[self.spec_failed_idx(id)].log@
    }

    /// Contract ids are unique in the hot contract table.
    pub open spec fn spec_cfds_unique(self) -> bool {
        forall|i: int, j: int|
            0 <= i < self.cfds@.len() && 0 <= j < self.cfds@.len() && i != j ==> (
            #[trigger] self.cfds@[i]).id != (#[trigger] self.cfds@[j]).id
    }

    /// Contract ids are unique among the event logs.
    pub open spec fn spec_logs_unique(self) -> bool {
        forall|i: int, j: int|
            0 <= i < self.logs@.len() && 0 <= j < self.logs@.len() && i != j ==> (
            #[trigger] self.logs@[i]).id != (#[trigger] self.logs@[j]).id
    }

    /// Contract ids are unique in the archive.
    pub open spec fn spec_failed_unique(self) -> bool {
        forall|i: int, j: int|
            0 <= i < self.failed_cfds@.len() && 0 <= j < self.failed_cfds@.len() && i != j ==> (
            #[trigger] self.failed_cfds@[i]).cfd.id != (#[trigger] self.failed_cfds@[j]).cfd.id
    }

    /// Every log's sequence numbers are contiguous from 0.
    pub open spec fn spec_logs_wf(self) -> bool {
        forall|i: int| 0 <= i < self.logs@.len() ==> spec_log_wf(#[trigger] self.logs@[i])
    }

    /// A contract row and its event log exist together.
    pub open spec fn spec_rows_and_logs_correspond(self) -> bool {
        &&& forall|i: int|
            0 <= i < self.cfds@.len() ==> self.spec_contains_log((#[trigger] self.cfds@[i]).id)
        &&& forall|i: int|
            0 <= i < self.logs@.len() ==> self.spec_contains_cfd((#[trigger] self.logs@[i]).id)
    }

    /// Well-formedness of the store: identifiers are unique in each table,
    /// a contract row and its event log exist together, and each log's
    /// sequence numbers are contiguous from 0.
    pub open spec fn wf(self) -> bool {
        &&& self.spec_cfds_unique()
        &&& self.spec_logs_unique()
        &&& self.spec_failed_unique()
        &&& self.spec_logs_wf()
        &&& self.spec_rows_and_logs_correspond()
    }

    /// Both stores read the same for contract `id` in `self` and `other`:
    /// same presence, same row, same log, same archive entry.
    pub open spec fn spec_same_contract(self, other: Connection, id: OrderId) -> bool {
        &&& self.spec_contains_cfd(id) == other.spec_contains_cfd(id)
        &&& self.spec_contains_log(id) == other.spec_contains_log(id)
        &&& (self.spec_contains_cfd(id) ==> self.spec_cfd(id) == other.spec_cfd(id))
        &&& (self.spec_contains_log(id) ==> self.spec_log(id) == other.spec_log(id))
        &&& self.spec_contains_failed(id) == other.spec_contains_failed(id)
        &&& (self.spec_contains_failed(id) ==> self.spec_failed(id) == other.spec_failed(id)
            && self.spec_failed_log(id) == other.spec_failed_log(id))
    }

    /// In a well-formed store, any index whose row carries `id` is the
    /// index `spec_cfd` reads from.
    pub proof fn lemma_cfd_at(self, id: OrderId, i: int)
        requires
            self.spec_cfds_unique(),
            0 <= i < self.cfds@.len(),
            self.cfds@[i].id == id,
        ensures
            self.spec_contains_cfd(id),
            self.spec_cfd_idx(id) == i,
            self.spec_cfd(id) == self.cfds@[i],
    {
        assert(self.spec_contains_cfd(id));
        let j = self.spec_cfd_idx(id);
        assert(0 <= j < self.cfds@.len() && self.cfds@[j].id == id);
    }

    /// In a well-formed store, any index whose log carries `id` is the
    /// index `spec_log` reads from.
    pub proof fn lemma_log_at(self, id: OrderId, i: int)
        requires
            self.spec_logs_unique(),
            0 <= i < self.logs@.len(),
            self.logs@[i].id == id,
        ensures
            self.spec_contains_log(id),
            self.spec_log_idx(id) == i,
            self.spec_log(id) == self.logs@[i].events@,
    {
        assert(self.spec_contains_log(id));
        let j = self.spec_log_idx(id);
        assert(0 <= j < self.logs@.len() && self.logs@[j].id == id);
    }

    /// In a well-formed store, any index whose archive row carries `id` is
    /// the index `spec_failed` reads from.
    pub proof fn lemma_failed_at(self, id: OrderId, i: int)
        requires
            self.spec_failed_unique(),
            0 <= i < self.failed_cfds@.len(),
            self.failed_cfds@[i].cfd.id == id,
        ensures
            self.spec_contains_failed(id),
            self.spec_failed_idx(id) == i,
            self.spec_failed(id) == self.failed_cfds@[i].cfd,
            self.spec_failed_log(id) == self.failed_cfds@[i].log@,
    {
        assert(self.spec_contains_failed(id));
        let j = self.spec_failed_idx(id);
        assert(0 <= j < self.failed_cfds@.len() && self.failed_cfds@[j].cfd.id == id);
    }

    /// Sequence integrity: in a well-formed store, the persisted sequence
    /// numbers of every contract are contiguous from 0 — no gaps, no
    /// duplicates — and every event carries its contract's id.
    pub proof fn lemma_sequence_integrity(self, id: OrderId)
        requires
            self.wf(),
            self.spec_contains_log(id),
        ensures
            forall|k: int|
                0 <= k < self.spec_log(id).len() ==> (#[trigger] self.spec_log(id)[k]).seq == k
                    && self.spec_log(id)[k].event.id == id,
    {
        let i = self.spec_log_idx(id);
        assert(0 <= i < self.logs@.len() && self.logs@[i].id == id);
        assert(spec_log_wf(self.logs@[i]));
    }

    /// Two stores with the same contract table read the same rows.
    pub proof fn lemma_cfd_read_eq(self, other: Connection, id: OrderId)
        requires
            self.cfds@ == other.cfds@,
            self.spec_cfds_unique(),
        ensures
            self.spec_contains_cfd(id) == other.spec_contains_cfd(id),
            self.spec_contains_cfd(id) ==> self.spec_cfd(id) == other.spec_cfd(id),
    {
        assert(other.spec_cfds_unique());
        if self.spec_contains_cfd(id) {
            let i = self.spec_cfd_idx(id);
            assert(0 <= i < self.cfds@.len() && self.cfds@[i].id == id);
            self.lemma_cfd_at(id, i);
            other.lemma_cfd_at(id, i);
        }
        if other.spec_contains_cfd(id) {
            let i = other.spec_cfd_idx(id);
            assert(0 <= i < other.cfds@.len() && other.cfds@[i].id == id);
            self.lemma_cfd_at(id, i);
        }
    }

    /// Two stores with the same log table read the same logs.
    pub proof fn lemma_log_read_eq(self, other: Connection, id: OrderId)
        requires
            self.logs@ == other.logs@,
            self.spec_logs_unique(),
        ensures
            self.spec_contains_log(id) == other.spec_contains_log(id),
            self.spec_contains_log(id) ==> self.spec_log(id) == other.spec_log(id),
    {
        assert(other.spec_logs_unique());
        if self.spec_contains_log(id) {
            let i = self.spec_log_idx(id);
            assert(0 <= i < self.logs@.len() && self.logs@[i].id == id);
            self.lemma_log_at(id, i);
            other.lemma_log_at(id, i);
        }
        if other.spec_contains_log(id) {
            let i = other.spec_log_idx(id);
            assert(0 <= i < other.logs@.len() && other.logs@[i].id == id);
            self.lemma_log_at(id, i);
        }
    }

    /// Two stores with the same archive table read the same archive rows.
    pub proof fn lemma_failed_read_eq(self, other: Connection, id: OrderId)
        requires
            self.failed_cfds@ == other.failed_cfds@,
            self.spec_failed_unique(),
        ensures
            self.spec_contains_failed(id) == other.spec_contains_failed(id),
            self.spec_contains_failed(id) ==> self.spec_failed(id) == other.spec_failed(id)
                && self.spec_failed_log(id) == other.spec_failed_log(id),
    {
        assert(other.spec_failed_unique());
        if self.spec_contains_failed(id) {
            let i = self.spec_failed_idx(id);
            assert(0 <= i < self.failed_cfds@.len() && self.failed_cfds@[i].cfd.id == id);
            self.lemma_failed_at(id, i);
            other.lemma_failed_at(id, i);
        }
        if other.spec_contains_failed(id) {
            let i = other.spec_failed_idx(id);
            assert(0 <= i < other.failed_cfds@.len() && other.failed_cfds@[i].cfd.id == id);
            self.lemma_failed_at(id, i);
        }
    }

    /// An empty store; the daemon's schema migration starts from this.
    pub fn new() -> (c: Connection)
        ensures
            c.wf(),
            c.cfds@.len() == 0,
            c.logs@.len() == 0,
            c.failed_cfds@.len() == 0,
            forall|id: OrderId| !c.spec_contains_cfd(id),
            forall|id: OrderId| !c.spec_contains_log(id),
            forall|id: OrderId| !c.spec_contains_failed(id),
    {
        Connection { cfds: Vec::new(), logs: Vec::new(), failed_cfds: Vec::new() }
    }

    fn find_cfd_index(&self, id: OrderId) -> (r: Option<usize>)
        ensures
            match r {
                Some(i) => i < self.cfds@.len() && self.cfds@[i as int].id == id,
                None => !self.spec_contains_cfd(id),
            },
    {
        let mut i: usize = 0;
        while i < self.cfds.len()
            invariant
                0 <= i <= self.cfds@.len(),
                forall|j: int| 0 <= j < i ==> (#[trigger] self.cfds@[j]).id != id,
            decreases self.cfds@.len() - i,
        {
            if self.cfds[i].id.0 == id.0 {
                return Some(i);
            }
            i = i + 1;
        }
        None
    }

    fn find_log_index(&self, id: OrderId) -> (r: Option<usize>)
        ensures
            match r {
                Some(i) => i < self.logs@.len() && self.logs@[i as int].id == id,
                None => !self.spec_contains_log(id),
            },
    {
        let mut i: usize = 0;
        while i < self.logs.len()
            invariant
                0 <= i <= self.logs@.len(),
                forall|j: int| 0 <= j < i ==> (#[trigger] self.logs@[j]).id != id,
            decreases self.logs@.len() - i,
        {
            if self.logs[i].id.0 == id.0 {
                return Some(i);
            }
            i = i + 1;
        }
        None
    }

    fn find_failed_index(&self, id: OrderId) -> (r: Option<usize>)
        ensures
            match r {
                Some(i) => i < self.failed_cfds@.len() && self.failed_cfds@[i as int].cfd.id == id,
                None => !self.spec_contains_failed(id),
            },
    {
        let mut i: usize = 0;
        while i < self.failed_cfds.len()
            invariant
                0 <= i <= self.failed_cfds@.len(),
                forall|j: int| 0 <= j < i ==> (#[trigger] self.failed_cfds@[j]).cfd.id != id,
            decreases self.failed_cfds@.len() - i,
        {
            if self.failed_cfds[i].cfd.id.0 == id.0 {
                return Some(i);
            }
            i = i + 1;
        }
        None
    }
}

impl Connection {
    /// Insert the accepted terms of a new contract, creating its empty
    /// event log in the same step.
    ///
    /// Fails with `Duplicate`, leaving the store untouched, exactly when a
    /// contract with this id is already stored.
    pub fn insert_cfd(&mut self, cfd: Cfd) -> (r: Result<(), StoreError>)
        requires
            old(self).wf(),
        ensures
            final(self).wf(),
            r is Ok <==> !old(self).spec_contains_cfd(cfd.id),
            r is Err ==> *final(self) == *old(self) && r == Err::<(), StoreError>(
                StoreError::Duplicate,
            ),
            r is Ok ==> {
                &&& final(self).spec_contains_cfd(cfd.id)
                &&& final(self).spec_cfd(cfd.id) == cfd
                &&& final(self).spec_contains_log(cfd.id)
                &&& final(self).spec_log(cfd.id) =~= Seq::<EventRow>::empty()
                &&& !final(self).spec_contains_failed(cfd.id) == !old(self).spec_contains_failed(
                    cfd.id,
                )
                &&& forall|id: OrderId|
                    id != cfd.id ==> #[trigger] final(self).spec_same_contract(*old(self), id)
                &&& final(self).cfds@.len() == old(self).cfds@.len() + 1
                &&& final(self).failed_cfds@ == old(self).failed_cfds@
            },
    {
        if self.find_cfd_index(cfd.id).is_some() {
            return Err(StoreError::Duplicate);
        }
        let id = cfd.id;
        let ghost prev = *self;
        self.cfds.push(cfd);
        self.logs.push(ContractLog { id, events: Vec::new() });
        proof {
            let n = prev.cfds@.len() as int;
            let m = prev.logs@.len() as int;
            assert(self.cfds@ =~= prev.cfds@.push(cfd));
            assert forall|i: int| 0 <= i < m implies self.logs@[i] == prev.logs@[i] by {}
            // the new contract had no log either, by the row/log correspondence
            assert(!prev.spec_contains_log(id)) by {
                if prev.spec_contains_log(id) {
                    let i = prev.spec_log_idx(id);
                    assert(prev.spec_contains_cfd(prev.logs@[i].id));
                }
            }
            assert(self.wf()) by {
                assert forall|i: int|
                    0 <= i < self.cfds@.len() implies self.spec_contains_log(
                    (#[trigger] self.cfds@[i]).id,
                ) by {
                    if i < n {
                        assert(prev.spec_contains_log(prev.cfds@[i].id));
                        let j = prev.spec_log_idx(prev.cfds@[i].id);
                        assert(self.logs@[j].id == self.cfds@[i].id);
                    } else {
                        assert(self.logs@[m].id == id);
                    }
                }
                assert forall|i: int|
                    0 <= i < self.logs@.len() implies self.spec_contains_cfd(
                    (#[trigger] self.logs@[i]).id,
                ) by {
                    if i < m {
                        assert(prev.spec_contains_cfd(prev.logs@[i].id));
                        let j = prev.spec_cfd_idx(prev.logs@[i].id);
                        assert(self.cfds@[j].id == self.logs@[i].id);
                    } else {
                        assert(self.cfds@[n].id == id);
                    }
                }
            }
            self.lemma_cfd_at(id, n);
            self.lemma_log_at(id, m);
            assert forall|id2: OrderId| id2 != id implies #[trigger] self.spec_same_contract(
                prev,
                id2,
            ) by {
                if self.spec_contains_cfd(id2) {
                    let i = self.spec_cfd_idx(id2);
                    assert(i < n);
                    prev.lemma_cfd_at(id2, i);
                }
                if prev.spec_contains_cfd(id2) {
                    let i = prev.spec_cfd_idx(id2);
                    self.lemma_cfd_at(id2, i);
                }
                if self.spec_contains_log(id2) {
                    let i = self.spec_log_idx(id2);
                    assert(i < m);
                    prev.lemma_log_at(id2, i);
                }
                if prev.spec_contains_log(id2) {
                    let i = prev.spec_log_idx(id2);
                    self.lemma_log_at(id2, i);
                }
            }
        }
        Ok(())
    }

    /// Append one event to its contract's log, assigning the next
    /// sequence number.
    ///
    /// Fails with `NotFound`, leaving the store untouched, exactly when
    /// the contract is not in the hot store. The log is append-only:
    /// everything already stored, and every other contract, is unchanged.
    pub fn append_event(&mut self, event: CfdEvent) -> (r: Result<(), StoreError>)
        requires
            old(self).wf(),
        ensures
            final(self).wf(),
            r is Ok <==> old(self).spec_contains_log(event.id),
            r is Err ==> *final(self) == *old(self) && r == Err::<(), StoreError>(
                StoreError::NotFound,
            ),
            r is Ok ==> {
                &&& final(self).spec_contains_log(event.id)
                &&& final(self).spec_log(event.id) =~= old(self).spec_log(event.id).push(
                    EventRow { seq: old(self).spec_log(event.id).len() as u64, event },
                )
                &&& final(self).spec_events(event.id) =~= old(self).spec_events(event.id).push(
                    event,
                )
                &&& forall|id: OrderId|
                    id != event.id ==> #[trigger] final(self).spec_same_contract(*old(self), id)
                &&& final(self).cfds@ == old(self).cfds@
                &&& final(self).failed_cfds@ == old(self).failed_cfds@
            },
    {
        let id = event.id;
        let li = match self.find_log_index(id) {
            Some(li) => li,
            None => {
                return Err(StoreError::NotFound);
            },
        };
        let ghost prev = *self;
        let mut log = self.logs.remove(li);
        let seq = log.events.len() as u64;
        log.events.push(EventRow { seq, event });
        self.logs.insert(li, log);
        proof {
            let l = li as int;
            assert forall|i: int| 0 <= i < self.logs@.len() && i != l implies self.logs@[i]
                == prev.logs@[i] by {}
            assert(self.logs@.len() == prev.logs@.len());
            assert(self.logs@[l].id == id);
            assert(self.logs@[l].events@ =~= prev.logs@[l].events@.push(
                EventRow { seq: prev.logs@[l].events@.len() as u64, event },
            ));
            assert(self.wf()) by {
                assert(spec_log_wf(self.logs@[l])) by {
                    assert(spec_log_wf(prev.logs@[l]));
                }
                assert forall|i: int|
                    0 <= i < self.cfds@.len() implies self.spec_contains_log(
                    (#[trigger] self.cfds@[i]).id,
                ) by {
                    assert(prev.spec_contains_log(prev.cfds@[i].id));
                    let j = prev.spec_log_idx(prev.cfds@[i].id);
                    assert(self.logs@[j].id == self.cfds@[i].id);
                }
                assert forall|i: int|
                    0 <= i < self.logs@.len() implies self.spec_contains_cfd(
                    (#[trigger] self.logs@[i]).id,
                ) by {
                    assert(prev.spec_contains_cfd(prev.logs@[i].id));
                }
            }
            prev.lemma_log_at(id, l);
            self.lemma_log_at(id, l);
            assert(self.spec_events(id) =~= prev.spec_events(id).push(event));
            assert forall|id2: OrderId| id2 != id implies #[trigger] self.spec_same_contract(
                prev,
                id2,
            ) by {
                if self.spec_contains_cfd(id2) {
                    let i = self.spec_cfd_idx(id2);
                    prev.lemma_cfd_at(id2, i);
                }
                if prev.spec_contains_cfd(id2) {
                    let i = prev.spec_cfd_idx(id2);
                    self.lemma_cfd_at(id2, i);
                }
                if self.spec_contains_log(id2) {
                    let i = self.spec_log_idx(id2);
                    assert(i != l);
                    prev.lemma_log_at(id2, i);
                }
                if prev.spec_contains_log(id2) {
                    let i = prev.spec_log_idx(id2);
                    assert(i != l);
                    self.lemma_log_at(id2, i);
                }
            }
        }
        Ok(())
    }

    /// Read back the stored terms of one contract.
    pub fn load_cfd_row(&self, id: OrderId) -> (r: Result<Cfd, StoreError>)
        requires
            self.wf(),
        ensures
            r is Ok <==> self.spec_contains_cfd(id),
            r is Ok ==> r == Ok::<Cfd, StoreError>(self.spec_cfd(id)),
            r is Err ==> r == Err::<Cfd, StoreError>(StoreError::NotFound),
    {
        match self.find_cfd_index(id) {
            Some(i) => {
                proof {
                    self.lemma_cfd_at(id, i as int);
                }
                Ok(self.cfds[i])
            },
            None => Err(StoreError::NotFound),
        }
    }

    /// The ordered event sequence of one contract from a sequence-number
    /// offset on: full replay from 0, incremental replay from any later
    /// offset.
    pub fn load_cfd_events(&self, id: OrderId, from_seq: u64) -> (r: Result<
        Vec<CfdEvent>,
        StoreError,
    >)
        requires
            self.wf(),
        ensures
            r is Ok <==> self.spec_contains_log(id),
            r is Err ==> r == Err::<Vec<CfdEvent>, StoreError>(StoreError::NotFound),
            r matches Ok(events) ==> events@ =~= if from_seq <= self.spec_events(id).len() {
                self.spec_events(id).skip(from_seq as int)
            } else {
                Seq::<CfdEvent>::empty()
            },
    {
        let li = match self.find_log_index(id) {
            Some(li) => li,
            None => {
                return Err(StoreError::NotFound);
            },
        };
        proof {
            self.lemma_log_at(id, li as int);
        }
        let log = &self.logs[li];
        let mut events: Vec<CfdEvent> = Vec::new();
        if from_seq >= log.events.len() as u64 {
            proof {
                if from_seq == self.spec_events(id).len() {
                    assert(self.spec_events(id).skip(from_seq as int) =~= Seq::<
                        CfdEvent,
                    >::empty());
                }
            }
            return Ok(events);
        }
        let mut i: usize = from_seq as usize;
        while i < log.events.len()
            invariant
                from_seq <= i <= log.events@.len(),
                self.wf(),
                self.spec_contains_log(id),
                log == &self.logs@[self.spec_log_idx(id)],
                events@ =~= self.spec_events(id).subrange(from_seq as int, i as int),
            decreases log.events@.len() - i,
        {
            events.push(log.events[i].event);
            i = i + 1;
            proof {
                assert(events@ =~= self.spec_events(id).subrange(from_seq as int, i as int));
            }
        }
        proof {
            assert(self.spec_events(id).subrange(from_seq as int, self.spec_events(id).len() as int)
                =~= self.spec_events(id).skip(from_seq as int));
        }
        Ok(events)
    }
}

impl Connection {
    /// Fold one contract's whole log onto a fresh aggregate seed.
    fn fold_log<A: CfdAggregate>(args: A::CtorArgs, row: Cfd, log: &ContractLog) -> (a: A)
        ensures
            a == spec_fold(
                A::spec_new(args, row),
                log.events@.map_values(|r: EventRow| r.event),
            ),
    {
        let mut a: A = A::new(args, row);
        proof {
            A::new_version_is_zero(args, row);
            assert(log.events@.map_values(|r: EventRow| r.event).take(0) =~= Seq::<
                CfdEvent,
            >::empty());
        }
        let mut i: usize = 0;
        while i < log.events.len()
            invariant
                0 <= i <= log.events@.len(),
                a == spec_fold(
                    A::spec_new(args, row),
                    log.events@.map_values(|r: EventRow| r.event).take(i as int),
                ),
                a.spec_version() == i,
            decreases log.events@.len() - i,
        {
            let ghost events = log.events@.map_values(|r: EventRow| r.event);
            let e = log.events[i].event;
            proof {
                assert(events[i as int] == e);
                assert(events.take(i + 1) =~= events.take(i as int).push(e));
                lemma_fold_snoc(A::spec_new(args, row), events.take(i as int), e);
                a.apply_increments_version(e);
            }
            a = a.apply(e);
            i = i + 1;
        }
        proof {
            assert(log.events@.map_values(|r: EventRow| r.event).take(log.events@.len() as int)
                =~= log.events@.map_values(|r: EventRow| r.event));
        }
        a
    }

    /// Rehydrate one open contract: seed the aggregate from the stored
    /// row and replay its full event log, in order.
    ///
    /// The result is pinned to `spec_fold` of the stored row and events,
    /// so rehydration is deterministic: any two replays of the same log
    /// derive the same state.
    pub fn load_open_cfd<A: CfdAggregate>(&self, id: OrderId, args: A::CtorArgs) -> (r: Result<
        A,
        StoreError,
    >)
        requires
            self.wf(),
        ensures
            r is Ok <==> self.spec_contains_cfd(id),
            r is Err ==> r == Err::<A, StoreError>(StoreError::NotFound),
            r matches Ok(a) ==> a == spec_fold(
                A::spec_new(args, self.spec_cfd(id)),
                self.spec_events(id),
            ),
    {
        let ci = match self.find_cfd_index(id) {
            Some(ci) => ci,
            None => {
                return Err(StoreError::NotFound);
            },
        };
        proof {
            self.lemma_cfd_at(id, ci as int);
        }
        let row = self.cfds[ci];
        let li = match self.find_log_index(id) {
            Some(li) => li,
            None => {
                proof {
                    assert(self.spec_contains_log(self.cfds@[ci as int].id));
                    assert(false);
                }
                0
            },
        };
        proof {
            self.lemma_log_at(id, li as int);
        }
        Ok(Self::fold_log(args, row, &self.logs[li]))
    }

    /// Rehydrate every contract in the hot store, in table order.
    pub fn load_all_cfds<A: CfdAggregate>(&self, args: A::CtorArgs) -> (r: Vec<A>) where
        A::CtorArgs: Copy,

        requires
            self.wf(),
        ensures
            r@.len() == self.cfds@.len(),
            forall|i: int|
                0 <= i < r@.len() ==> r@[i] == spec_fold(
                    A::spec_new(args, self.cfds@[i]),
                    self.spec_events((#[trigger] self.cfds@[i]).id),
                ),
    {
        let mut r: Vec<A> = Vec::new();
        let mut i: usize = 0;
        while i < self.cfds.len()
            invariant
                0 <= i <= self.cfds@.len(),
                self.wf(),
                r@.len() == i,
                forall|j: int|
                    0 <= j < i ==> r@[j] == spec_fold(
                        A::spec_new(args, self.cfds@[j]),
                        self.spec_events((#[trigger] self.cfds@[j]).id),
                    ),
            decreases self.cfds@.len() - i,
        {
            let row = self.cfds[i];
            proof {
                self.lemma_cfd_at(row.id, i as int);
            }
            let li = match self.find_log_index(row.id) {
                Some(li) => li,
                None => {
                    proof {
                        assert(self.spec_contains_log(self.cfds@[i as int].id));
                        assert(false);
                    }
                    0
                },
            };
            proof {
                self.lemma_log_at(row.id, li as int);
            }
            let a: A = Self::fold_log(args, row, &self.logs[li]);
            r.push(a);
            i = i + 1;
        }
        r
    }

    /// Rehydrate the contracts whose stored terms settle on the given
    /// oracle price event, in table order.
    pub fn load_cfds_by_oracle_event_id<A: CfdAggregate>(
        &self,
        oracle_event_id: BitMexPriceEventId,
        args: A::CtorArgs,
    ) -> (r: Vec<A>) where A::CtorArgs: Copy
        requires
            self.wf(),
        ensures
            r@ =~= self.cfds@.filter(
                |row: Cfd| row.oracle_event_id == oracle_event_id,
            ).map_values(
                |row: Cfd|
                    spec_fold(A::spec_new(args, row), self.spec_events(row.id)),
            ),
    {
        let ghost pred = |row: Cfd| row.oracle_event_id == oracle_event_id;
        let mut r: Vec<A> = Vec::new();
        let mut i: usize = 0;
        proof {
            reveal(Seq::filter);
            assert(self.cfds@.take(0) =~= Seq::<Cfd>::empty());
        }
        while i < self.cfds.len()
            invariant
                0 <= i <= self.cfds@.len(),
                self.wf(),
                r@ =~= self.cfds@.take(i as int).filter(
                    |row: Cfd| row.oracle_event_id == oracle_event_id,
                ).map_values(
                    |row: Cfd|
                        spec_fold(A::spec_new(args, row), self.spec_events(row.id)),
                ),
            decreases self.cfds@.len() - i,
        {
            let row = self.cfds[i];
            proof {
                reveal(Seq::filter);
                assert(self.cfds@.take(i + 1).drop_last() =~= self.cfds@.take(i as int));
                assert(self.cfds@.take(i + 1).last() == row);
            }
            if row.oracle_event_id.0 == oracle_event_id.0 {
                proof {
                    self.lemma_cfd_at(row.id, i as int);
                }
                let li = match self.find_log_index(row.id) {
                    Some(li) => li,
                    None => {
                        proof {
                            assert(self.spec_contains_log(self.cfds@[i as int].id));
                            assert(false);
                        }
                        0
                    },
                };
                proof {
                    self.lemma_log_at(row.id, li as int);
                }
                let a: A = Self::fold_log(args, row, &self.logs[li]);
                r.push(a);
            }
            i = i + 1;
        }
        proof {
            reveal(Seq::filter);
            assert(self.cfds@.take(self.cfds@.len() as int) =~= self.cfds@);
        }
        r
    }

    /// Delete one contract row from the hot table.
    pub(crate) fn delete_from_cfds_table(&mut self, id: OrderId) -> (r: Result<(), StoreError>)
        requires
            old(self).spec_cfds_unique(),
        ensures
            r is Ok <==> old(self).spec_contains_cfd(id),
            r is Err ==> *final(self) == *old(self) && r == Err::<(), StoreError>(
                StoreError::NotFound,
            ),
            r is Ok ==> {
                &&& !final(self).spec_contains_cfd(id)
                &&& final(self).cfds@.len() == old(self).cfds@.len() - 1
                &&& final(self).logs@ == old(self).logs@
                &&& final(self).failed_cfds@ == old(self).failed_cfds@
                &&& forall|id2: OrderId|
                    id2 != id ==> (#[trigger] final(self).spec_contains_cfd(id2)) == old(self).spec_contains_cfd(id2)
                        && (final(self).spec_contains_cfd(id2) ==> final(self).spec_cfd(id2) == old(self).spec_cfd(id2))
            },
            final(self).cfds@.len() <= old(self).cfds@.len(),
            // uniqueness and log well-formedness survive; the row/log
            // correspondence is restored once the log is deleted too
            forall|i: int, j: int|
                0 <= i < final(self).cfds@.len() && 0 <= j < final(self).cfds@.len() && i != j ==> (
                #[trigger] final(self).cfds@[i]).id != (#[trigger] final(self).cfds@[j]).id,
    {
        let ci = match self.find_cfd_index(id) {
            Some(ci) => ci,
            None => {
                return Err(StoreError::NotFound);
            },
        };
        let ghost prev = *self;
        self.cfds.remove(ci);
        proof {
            let c = ci as int;
            assert(self.cfds@ =~= prev.cfds@.remove(c));
            assert forall|i: int| 0 <= i < self.cfds@.len() implies self.cfds@[i] == if i < c {
                prev.cfds@[i]
            } else {
                prev.cfds@[i + 1]
            } by {}
            assert(!self.spec_contains_cfd(id)) by {
                if self.spec_contains_cfd(id) {
                    let i = self.spec_cfd_idx(id);
                    if i < c {
                        assert(prev.cfds@[i].id == prev.cfds@[c].id);
                    } else {
                        assert(prev.cfds@[i + 1].id == prev.cfds@[c].id);
                    }
                }
            }
            assert forall|id2: OrderId| id2 != id implies (#[trigger] self.spec_contains_cfd(id2))
                == prev.spec_contains_cfd(id2) && (self.spec_contains_cfd(id2)
                ==> self.spec_cfd(id2) == prev.spec_cfd(id2)) by {
                if prev.spec_contains_cfd(id2) {
                    let i = prev.spec_cfd_idx(id2);
                    assert(i != c);
                    if i < c {
                        assert(self.cfds@[i].id == id2);
                    } else {
                        assert(self.cfds@[i - 1].id == id2);
                    }
                    assert(self.spec_contains_cfd(id2));
                }
                if self.spec_contains_cfd(id2) {
                    let i = self.spec_cfd_idx(id2);
                    assert(self.cfds@[i].id == id2);
                    if i < c {
                        assert(prev.cfds@[i].id == id2);
                    } else {
                        assert(prev.cfds@[i + 1].id == id2);
                    }
                    assert(prev.spec_contains_cfd(id2));
                    let pi = prev.spec_cfd_idx(id2);
                    assert(prev.cfds@[pi].id == id2);
                    if i < c {
                        assert(pi == i) by {
                            if pi != i {
                                assert(prev.cfds@[pi].id != prev.cfds@[i].id);
                            }
                        }
                    } else {
                        assert(pi == i + 1) by {
                            if pi != i + 1 {
                                assert(prev.cfds@[pi].id != prev.cfds@[i + 1].id);
                            }
                        }
                    }
                }
            }
        }
        Ok(())
    }

    /// Delete one contract's event log.
    pub(crate) fn delete_from_events_table(&mut self, id: OrderId) -> (r: Result<(), StoreError>)
        requires
            old(self).spec_logs_unique(),
            old(self).spec_logs_wf(),
        ensures
            r is Ok <==> old(self).spec_contains_log(id),
            r is Err ==> *final(self) == *old(self) && r == Err::<(), StoreError>(
                StoreError::NotFound,
            ),
            r is Ok ==> {
                &&& !final(self).spec_contains_log(id)
                &&& final(self).logs@.len() == old(self).logs@.len() - 1
                &&& final(self).cfds@ == old(self).cfds@
                &&& final(self).failed_cfds@ == old(self).failed_cfds@
                &&& forall|id2: OrderId|
                    id2 != id ==> (#[trigger] final(self).spec_contains_log(id2)) == old(self).spec_contains_log(id2)
                        && (final(self).spec_contains_log(id2) ==> final(self).spec_log(id2) == old(self).spec_log(id2))
            },
            forall|i: int, j: int|
                0 <= i < final(self).logs@.len() && 0 <= j < final(self).logs@.len() && i != j ==> (
                #[trigger] final(self).logs@[i]).id != (#[trigger] final(self).logs@[j]).id,
            forall|i: int|
                0 <= i < final(self).logs@.len() ==> spec_log_wf(#[trigger] final(self).logs@[i]),
    {
        let li = match self.find_log_index(id) {
            Some(li) => li,
            None => {
                return Err(StoreError::NotFound);
            },
        };
        let ghost prev = *self;
        self.logs.remove(li);
        proof {
            let c = li as int;
            assert forall|i: int| 0 <= i < self.logs@.len() implies self.logs@[i] == if i < c {
                prev.logs@[i]
            } else {
                prev.logs@[i + 1]
            } by {}
            assert(!self.spec_contains_log(id)) by {
                if self.spec_contains_log(id) {
                    let i = self.spec_log_idx(id);
                    if i < c {
                        assert(prev.logs@[i].id == prev.logs@[c].id);
                    } else {
                        assert(prev.logs@[i + 1].id == prev.logs@[c].id);
                    }
                }
            }
            assert forall|id2: OrderId| id2 != id implies (#[trigger] self.spec_contains_log(id2))
                == prev.spec_contains_log(id2) && (self.spec_contains_log(id2) ==> self.spec_log(
                id2,
            ) == prev.spec_log(id2)) by {
                if prev.spec_contains_log(id2) {
                    let i = prev.spec_log_idx(id2);
                    assert(i != c);
                    if i < c {
                        assert(self.logs@[i].id == id2);
                    } else {
                        assert(self.logs@[i - 1].id == id2);
                    }
                    assert(self.spec_contains_log(id2));
                }
                if self.spec_contains_log(id2) {
                    let i = self.spec_log_idx(id2);
                    assert(self.logs@[i].id == id2);
                    if i < c {
                        assert(prev.logs@[i].id == id2);
                    } else {
                        assert(prev.logs@[i + 1].id == id2);
                    }
                    assert(prev.spec_contains_log(id2));
                    let pi = prev.spec_log_idx(id2);
                    assert(prev.logs@[pi].id == id2);
                    if i < c {
                        assert(pi == i) by {
                            if pi != i {
                                assert(prev.logs@[pi].id != prev.logs@[i].id);
                            }
                        }
                    } else {
                        assert(pi == i + 1) by {
                            if pi != i + 1 {
                                assert(prev.logs@[pi].id != prev.logs@[i + 1].id);
                            }
                        }
                    }
                }
            }
        }
        Ok(())
    }
}

/// The version of a folded state counts the folded events: seed version
/// plus the length of the sequence.
pub proof fn lemma_fold_version<A: CfdAggregate>(a: A, events: Seq<CfdEvent>)
    requires
        a.spec_version() + events.len() <= u64::MAX,
    ensures
        spec_fold(a, events).spec_version() == a.spec_version() + events.len(),
    decreases events.len(),
{
    if events.len() > 0 {
        a.apply_increments_version(events[0]);
        lemma_fold_version(a.spec_apply(events[0]), events.drop_first());
    }
}

} // verus!
