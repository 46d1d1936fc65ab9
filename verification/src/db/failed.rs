//! The archive of failed contracts.
//!
//! Failed contracts are ones that never reached the point of having a DLC
//! on chain: either the offer was rejected or contract setup did not finish
//! successfully. The archiver moves them out of the hot store in one atomic
//! step so that they can be loaded independently from open contracts.

use vstd::prelude::*;

use crate::db::Connection;
use crate::db::StoreError;
use crate::model::{
    fee_account_balance,
    funding_fee,
    long_and_short_leverage,
    spec_fee_balance,
    spec_funding_fee_sats,
    spec_margin_sats,
    spec_taker_is_long,
    CfdEvent,
    Contracts,
    EventKind,
    Fees,
    FundingFee,
    Identity,
    Leverage,
    OrderId,
    Position,
    Price,
    Role,
    Timestamp,
};

verus! {

broadcast use vstd::string::group_string_axioms;

/// Why a contract ended up in the failed archive.
#[derive(Clone, Copy, PartialEq, Eq, Structural, Debug)]
pub enum Kind {
    OfferRejected,
    ContractSetupFailed,
}

/// Error returned when a string names no failed-contract kind.
#[derive(Clone, Copy, PartialEq, Eq, Structural, Debug)]
pub struct UnknownKind;

impl Kind {
    /// The stable name under which this kind is stored.
    pub open spec fn spec_label(self) -> Seq<char> {
        match self {
            Kind::OfferRejected => "OfferRejected"@,
            Kind::ContractSetupFailed => "ContractSetupFailed"@,
        }
    }

    /// The stable name under which this kind is stored.
    pub fn label(&self) -> (s: String)
        ensures
            s@ == self.spec_label(),
    {
        match self {
            Kind::OfferRejected => String::from_str("OfferRejected"),
            Kind::ContractSetupFailed => String::from_str("ContractSetupFailed"),
        }
    }

    /// Parse a stored label back into the kind it names.
    pub fn from_label(s: &str) -> (r: Result<Kind, UnknownKind>)
        ensures
            s@ == "OfferRejected"@ ==> r == Ok::<Kind, UnknownKind>(Kind::OfferRejected),
            s@ == "ContractSetupFailed"@ ==> r == Ok::<Kind, UnknownKind>(
                Kind::ContractSetupFailed,
            ),
            s@ != "OfferRejected"@ && s@ != "ContractSetupFailed"@ ==> r == Err::<
                Kind,
                UnknownKind,
            >(UnknownKind),
    {
        proof {
            reveal_strlit("OfferRejected");
            reveal_strlit("ContractSetupFailed");
            assert("OfferRejected"@.len() == 13);
            assert("ContractSetupFailed"@.len() == 19);
        }
        let owned = String::from_str(s);
        if owned == String::from_str("OfferRejected") {
            Ok(Kind::OfferRejected)
        } else if owned == String::from_str("ContractSetupFailed") {
            Ok(Kind::ContractSetupFailed)
        } else {
            Err(UnknownKind)
        }
    }
}

/// The self-contained projection of a failed contract, as stored in the
/// archive: the immutable terms, the classified failure kind, and the final
/// fee accounting, so reading it back never requires a replay.
#[derive(Clone, Copy, PartialEq, Eq, Structural, Debug)]
pub struct FailedCfd {
    pub id: OrderId,
    pub position: Position,
    pub initial_price: Price,
    pub taker_leverage: Leverage,
    pub n_contracts: Contracts,
    pub counterparty_network_identity: Identity,
    pub role: Role,
    pub fees: Fees,
    pub kind: Kind,
    pub creation_timestamp: Timestamp,
}

/// One entry of an archived event log: the event kind's stable name and
/// the time the event was recorded.
#[derive(PartialEq, Eq, Debug)]
pub struct EventLogEntry {
    pub name: String,
    pub created_at: Timestamp,
}

/// One archived contract: its terminal projection plus the copied event
/// log.
#[derive(PartialEq, Eq, Debug)]
pub struct FailedCfdRow {
    pub cfd: FailedCfd,
    pub log: Vec<EventLogEntry>,
}

/// An aggregate that can also be built from an archived failed contract,
/// without replaying events.
pub trait FailedCfdAggregate: crate::db::CfdAggregate {
    /// Mathematical constructor from the archived projection.
    spec fn spec_new_failed(args: Self::CtorArgs, cfd: FailedCfd) -> Self;

    /// Build the aggregate from the archived projection.
    fn new_failed(args: Self::CtorArgs, cfd: FailedCfd) -> (r: Self)
        ensures
            r == Self::spec_new_failed(args, cfd),
    ;
}

/// The event is a terminal-failure marker.
pub open spec fn spec_is_failure_marker(e: CfdEvent) -> bool {
    e.event is OfferRejected || e.event is ContractSetupFailed
}

pub open spec fn spec_has_offer_rejected(events: Seq<CfdEvent>) -> bool {
    exists|i: int| 0 <= i < events.len() && (#[trigger] events[i]).event is OfferRejected
}

pub open spec fn spec_has_setup_failed(events: Seq<CfdEvent>) -> bool {
    exists|i: int| 0 <= i < events.len() && (#[trigger] events[i]).event is ContractSetupFailed
}

/// The lock transaction was confirmed at some point: the contract made it
/// on chain and is not a failed contract.
pub open spec fn spec_has_lock_confirmed(events: Seq<CfdEvent>) -> bool {
    exists|i: int|
        0 <= i < events.len() && ((#[trigger] events[i]).event is LockConfirmed
            || events[i].event is LockConfirmedAfterFinality)
}

/// Classify a failed contract's log by precedence: a rejected offer
/// outranks a failed setup; a log with neither marker is no failed
/// contract.
pub open spec fn spec_classify(events: Seq<CfdEvent>) -> Option<Kind> {
    if spec_has_offer_rejected(events) {
        Some(Kind::OfferRejected)
    } else if spec_has_setup_failed(events) {
        Some(Kind::ContractSetupFailed)
    } else {
        None
    }
}

/// The log marks a terminal failure and the contract never reached the
/// chain: it is a candidate for the failed-contract archive.
pub open spec fn spec_failed_candidate(events: Seq<CfdEvent>) -> bool {
    spec_classify(events) is Some && !spec_has_lock_confirmed(events)
}

/// The time the contract failed: the timestamp of the first
/// terminal-failure marker in the log.
pub open spec fn spec_creation_timestamp(events: Seq<CfdEvent>) -> Option<Timestamp>
    decreases events.len(),
{
    if events.len() == 0 {
        None
    } else if spec_is_failure_marker(events[0]) {
        Some(events[0].timestamp)
    } else {
        spec_creation_timestamp(events.drop_first())
    }
}

/// Extending a log by one event moves the first failure marker only if
/// none was there before.
proof fn lemma_creation_timestamp_push(events: Seq<CfdEvent>, e: CfdEvent)
    ensures
        spec_creation_timestamp(events.push(e)) == if spec_creation_timestamp(events) is Some {
            spec_creation_timestamp(events)
        } else if spec_is_failure_marker(e) {
            Some(e.timestamp)
        } else {
            None
        },
    decreases events.len(),
{
    if events.len() == 0 {
        assert(events.push(e)[0] == e);
        assert(events.push(e).drop_first() =~= Seq::<CfdEvent>::empty());
        if spec_is_failure_marker(e) {
            assert(spec_creation_timestamp(events.push(e)) == Some(e.timestamp));
        } else {
            assert(spec_creation_timestamp(events.push(e)) == spec_creation_timestamp(
                events.push(e).drop_first(),
            ));
        }
    } else {
        assert(events.push(e)[0] == events[0]);
        assert(events.push(e).drop_first() =~= events.drop_first().push(e));
        lemma_creation_timestamp_push(events.drop_first(), e);
        if spec_is_failure_marker(events[0]) {
            assert(spec_creation_timestamp(events.push(e)) == Some(events[0].timestamp));
            assert(spec_creation_timestamp(events) == Some(events[0].timestamp));
        } else {
            assert(spec_creation_timestamp(events.push(e)) == spec_creation_timestamp(
                events.drop_first().push(e),
            ));
            assert(spec_creation_timestamp(events) == spec_creation_timestamp(
                events.drop_first(),
            ));
        }
    }
}

/// One forward pass over a contract's event log, collecting everything the
/// archiver needs to know.
struct LogScan {
    offer_rejected: bool,
    setup_failed: bool,
    lock_confirmed: bool,
    first_failure: Option<Timestamp>,
}

fn scan_events(events: &Vec<CfdEvent>) -> (s: LogScan)
    ensures
        s.offer_rejected == spec_has_offer_rejected(events@),
        s.setup_failed == spec_has_setup_failed(events@),
        s.lock_confirmed == spec_has_lock_confirmed(events@),
        s.first_failure == spec_creation_timestamp(events@),
        (s.offer_rejected || s.setup_failed) == (s.first_failure is Some),
{
    let mut s = LogScan {
        offer_rejected: false,
        setup_failed: false,
        lock_confirmed: false,
        first_failure: None,
    };
    proof {
        assert(events@.take(0) =~= Seq::<CfdEvent>::empty());
    }
    let mut i: usize = 0;
    while i < events.len()
        invariant
            0 <= i <= events@.len(),
            s.offer_rejected == spec_has_offer_rejected(events@.take(i as int)),
            s.setup_failed == spec_has_setup_failed(events@.take(i as int)),
            s.lock_confirmed == spec_has_lock_confirmed(events@.take(i as int)),
            s.first_failure == spec_creation_timestamp(events@.take(i as int)),
            (s.offer_rejected || s.setup_failed) == (s.first_failure is Some),
        decreases events@.len() - i,
    {
        let e = events[i];
        proof {
            assert(events@.take(i + 1) =~= events@.take(i as int).push(e));
            lemma_creation_timestamp_push(events@.take(i as int), e);
            assert(spec_has_offer_rejected(events@.take(i + 1)) == (spec_has_offer_rejected(
                events@.take(i as int),
            ) || e.event is OfferRejected)) by {
                let t = events@.take(i + 1);
                if spec_has_offer_rejected(t) {
                    let k = choose|k: int|
                        0 <= k < t.len() && (#[trigger] t[k]).event is OfferRejected;
                    if k < i {
                        assert(events@.take(i as int)[k].event is OfferRejected);
                    }
                }
                if spec_has_offer_rejected(events@.take(i as int)) {
                    let k = choose|k: int|
                        0 <= k < i && (#[trigger] events@.take(i as int)[k]).event
                            is OfferRejected;
                    assert(t[k].event is OfferRejected);
                }
                if e.event is OfferRejected {
                    assert(t[i as int].event is OfferRejected);
                }
            }
            assert(spec_has_setup_failed(events@.take(i + 1)) == (spec_has_setup_failed(
                events@.take(i as int),
            ) || e.event is ContractSetupFailed)) by {
                let t = events@.take(i + 1);
                if spec_has_setup_failed(t) {
                    let k = choose|k: int|
                        0 <= k < t.len() && (#[trigger] t[k]).event is ContractSetupFailed;
                    if k < i {
                        assert(events@.take(i as int)[k].event is ContractSetupFailed);
                    }
                }
                if spec_has_setup_failed(events@.take(i as int)) {
                    let k = choose|k: int|
                        0 <= k < i && (#[trigger] events@.take(i as int)[k]).event
                            is ContractSetupFailed;
                    assert(t[k].event is ContractSetupFailed);
                }
                if e.event is ContractSetupFailed {
                    assert(t[i as int].event is ContractSetupFailed);
                }
            }
            assert(spec_has_lock_confirmed(events@.take(i + 1)) == (spec_has_lock_confirmed(
                events@.take(i as int),
            ) || e.event is LockConfirmed || e.event is LockConfirmedAfterFinality)) by {
                let t = events@.take(i + 1);
                if spec_has_lock_confirmed(t) {
                    let k = choose|k: int|
                        0 <= k < t.len() && ((#[trigger] t[k]).event is LockConfirmed
                            || t[k].event is LockConfirmedAfterFinality);
                    if k < i {
                        assert(events@.take(i as int)[k].event is LockConfirmed || events@.take(
                            i as int,
                        )[k].event is LockConfirmedAfterFinality);
                    }
                }
                if spec_has_lock_confirmed(events@.take(i as int)) {
                    let k = choose|k: int|
                        0 <= k < i && ((#[trigger] events@.take(i as int)[k]).event
                            is LockConfirmed || events@.take(i as int)[k].event
                            is LockConfirmedAfterFinality);
                    assert(t[k].event is LockConfirmed || t[k].event
                        is LockConfirmedAfterFinality);
                }
                if e.event is LockConfirmed || e.event is LockConfirmedAfterFinality {
                    assert(t[i as int].event is LockConfirmed || t[i as int].event
                        is LockConfirmedAfterFinality);
                }
            }
        }
        let is_marker = matches!(e.event, EventKind::OfferRejected)
            || matches!(e.event, EventKind::ContractSetupFailed);
        if matches!(e.event, EventKind::OfferRejected) {
            s.offer_rejected = true;
        }
        if matches!(e.event, EventKind::ContractSetupFailed) {
            s.setup_failed = true;
        }
        if matches!(e.event, EventKind::LockConfirmed) || matches!(
            e.event,
            EventKind::LockConfirmedAfterFinality,
        ) {
            s.lock_confirmed = true;
        }
        if s.first_failure.is_none() && is_marker {
            s.first_failure = Some(e.timestamp);
        }
        i = i + 1;
    }
    proof {
        assert(events@.take(events@.len() as int) =~= events@);
    }
    s
}

/// Copy a contract's event log into archive form: each event's stable
/// name and its timestamp.
fn archived_log(events: &Vec<CfdEvent>) -> (log: Vec<EventLogEntry>)
    ensures
        log@.len() == events@.len(),
        forall|i: int|
            0 <= i < events@.len() ==> (#[trigger] log@[i]).name@ == events@[i].event.spec_name()
                && log@[i].created_at == events@[i].timestamp,
{
    let mut log: Vec<EventLogEntry> = Vec::new();
    let mut i: usize = 0;
    while i < events.len()
        invariant
            0 <= i <= events@.len(),
            log@.len() == i,
            forall|j: int|
                0 <= j < i ==> (#[trigger] log@[j]).name@ == events@[j].event.spec_name()
                    && log@[j].created_at == events@[j].timestamp,
        decreases events@.len() - i,
    {
        let e = events[i];
        log.push(EventLogEntry { name: e.event.name(), created_at: e.timestamp });
        i = i + 1;
    }
    log
}

/// The long side's leverage under these terms: the taker's agreed
/// leverage if the taker is long, else the maker's leverage of 1.
pub open spec fn spec_long_leverage(row: crate::db::Cfd) -> Leverage {
    if spec_taker_is_long(row.role, row.position) {
        row.taker_leverage
    } else {
        Leverage(1)
    }
}

/// The short side's leverage under these terms.
pub open spec fn spec_short_leverage(row: crate::db::Cfd) -> Leverage {
    if spec_taker_is_long(row.role, row.position) {
        Leverage(1)
    } else {
        row.taker_leverage
    }
}

/// The side whose margin the initial funding fee charges.
pub open spec fn spec_payer_leverage(row: crate::db::Cfd) -> Leverage {
    if row.initial_funding_rate.0 >= 0 {
        spec_long_leverage(row)
    } else {
        spec_short_leverage(row)
    }
}

/// The stored terms yield a fee: prices and the payer's leverage are
/// positive and the amounts stay in range.
pub open spec fn spec_fee_ok(row: crate::db::Cfd) -> bool {
    &&& row.initial_price.0 > 0
    &&& spec_payer_leverage(row).0 > 0
    &&& spec_margin_sats(row.initial_price, row.quantity_usd, spec_payer_leverage(row))
        <= u64::MAX
    &&& spec_funding_fee_sats(
        row.initial_price,
        row.quantity_usd,
        spec_payer_leverage(row),
        row.initial_funding_rate,
        row.settlement_interval_hours,
    ) <= u64::MAX
}

/// The initial funding fee under these terms.
pub open spec fn spec_funding(row: crate::db::Cfd) -> FundingFee {
    FundingFee {
        sats: spec_funding_fee_sats(
            row.initial_price,
            row.quantity_usd,
            spec_payer_leverage(row),
            row.initial_funding_rate,
            row.settlement_interval_hours,
        ) as u64,
        long_pays: row.initial_funding_rate.0 >= 0,
    }
}

/// The final fee balance archived with a failed contract: the opening fee
/// plus the initial funding fee, settled for this party.
pub open spec fn spec_fees(row: crate::db::Cfd) -> int {
    spec_fee_balance(row.position, row.role, row.opening_fee_sats, spec_funding(row))
}

/// The self-contained projection the archiver stores for a failed
/// contract, computed deterministically from the stored terms and the
/// event log alone.
pub open spec fn spec_failed_projection(row: crate::db::Cfd, events: Seq<CfdEvent>) -> FailedCfd {
    FailedCfd {
        id: row.id,
        position: row.position,
        initial_price: row.initial_price,
        taker_leverage: row.taker_leverage,
        n_contracts: Contracts(row.quantity_usd.0),
        counterparty_network_identity: row.counterparty_network_identity,
        role: row.role,
        fees: Fees(spec_fees(row) as i128),
        kind: spec_classify(events)->Some_0,
        creation_timestamp: spec_creation_timestamp(events)->Some_0,
    }
}

/// The archived copy of a log carries, entry for entry, each event's
/// stable name and timestamp.
pub open spec fn spec_archived_log_matches(log: Seq<EventLogEntry>, events: Seq<CfdEvent>) -> bool {
    &&& log.len() == events.len()
    &&& forall|i: int|
        0 <= i < events.len() ==> (#[trigger] log[i]).name@ == events[i].event.spec_name()
            && log[i].created_at == events[i].timestamp
}

/// The contract was moved whole into the archive of `new`: the projection
/// computed from `row` and `events`, plus the copied log.
pub open spec fn spec_archived(
    new: Connection,
    id: OrderId,
    row: crate::db::Cfd,
    events: Seq<CfdEvent>,
) -> bool {
    &&& new.spec_contains_failed(id)
    &&& new.spec_failed(id) == spec_failed_projection(row, events)
    &&& spec_archived_log_matches(new.spec_failed_log(id), events)
}

/// A failed contract could not be archived; the hot store and the archive
/// are left exactly as they were, and the contract is retried on the next
/// sweep.
#[derive(Clone, Copy, PartialEq, Eq, Structural, Debug)]
pub enum ArchiveError {
    /// The contract is not in the hot store.
    NotFound,
    /// The archive already holds a contract with this id.
    AlreadyArchived,
    /// The event log shows no terminal failure without a prior lock
    /// confirmation: archiving it would be a data-integrity bug.
    NotFailed,
    /// The stored terms yield no fee accounting.
    InvalidTerms,
}

impl Connection {
    /// Move one failed contract out of the hot store, atomically: compute
    /// the self-contained projection and the log copy, insert both into
    /// the archive, and delete the contract row and its event log. Any
    /// failure leaves the store exactly as it was.
    pub fn migrate_failed_cfd(&mut self, id: OrderId) -> (r: Result<(), ArchiveError>)
        requires
            old(self).wf(),
        ensures
            final(self).wf(),
            r is Err ==> *final(self) == *old(self),
            ({
                if !old(self).spec_contains_cfd(id) {
                    r == Err::<(), ArchiveError>(ArchiveError::NotFound)
                } else if old(self).spec_contains_failed(id) {
                    r == Err::<(), ArchiveError>(ArchiveError::AlreadyArchived)
                } else if !spec_failed_candidate(old(self).spec_events(id)) {
                    r == Err::<(), ArchiveError>(ArchiveError::NotFailed)
                } else if !spec_fee_ok(old(self).spec_cfd(id)) {
                    r == Err::<(), ArchiveError>(ArchiveError::InvalidTerms)
                } else {
                    r is Ok
                }
            }),
            r is Ok ==> {
                &&& !final(self).spec_contains_cfd(id)
                &&& !final(self).spec_contains_log(id)
                &&& spec_archived(*final(self), id, old(self).spec_cfd(id), old(self).spec_events(id))
                &&& forall|id2: OrderId|
                    id2 != id ==> #[trigger] final(self).spec_same_contract(*old(self), id2)
                &&& final(self).cfds@.len() == old(self).cfds@.len() - 1
            },
    {
        let row = match self.load_cfd_row(id) {
            Ok(row) => row,
            Err(_) => {
                return Err(ArchiveError::NotFound);
            },
        };
        if self.find_failed_index(id).is_some() {
            return Err(ArchiveError::AlreadyArchived);
        }
        let events = match self.load_cfd_events(id, 0) {
            Ok(events) => events,
            Err(_) => {
                proof {
                    let ci = self.spec_cfd_idx(id);
                    assert(self.spec_contains_log(self.cfds@[ci].id));
                    assert(false);
                }
                Vec::new()
            },
        };
        proof {
            assert(self.spec_events(id).skip(0) =~= self.spec_events(id));
            assert(events@ == self.spec_events(id));
        }
        let s = scan_events(&events);
        let kind = if s.offer_rejected {
            Kind::OfferRejected
        } else if s.setup_failed {
            Kind::ContractSetupFailed
        } else {
            return Err(ArchiveError::NotFailed);
        };
        if s.lock_confirmed {
            return Err(ArchiveError::NotFailed);
        }
        let ts = match s.first_failure {
            Some(ts) => ts,
            None => {
                proof {
                    assert(false);
                }
                Timestamp(0)
            },
        };
        let (long_leverage, short_leverage) = long_and_short_leverage(
            row.taker_leverage,
            row.role,
            row.position,
        );
        let ff = match funding_fee(
            row.initial_price,
            row.quantity_usd,
            long_leverage,
            short_leverage,
            row.initial_funding_rate,
            row.settlement_interval_hours,
        ) {
            Ok(ff) => ff,
            Err(_) => {
                return Err(ArchiveError::InvalidTerms);
            },
        };
        proof {
            assert(spec_fee_ok(row));
        }
        let fees = fee_account_balance(row.position, row.role, row.opening_fee_sats, ff);
        let cfd = FailedCfd {
            id,
            position: row.position,
            initial_price: row.initial_price,
            taker_leverage: row.taker_leverage,
            n_contracts: Contracts(row.quantity_usd.0),
            counterparty_network_identity: row.counterparty_network_identity,
            role: row.role,
            fees,
            kind,
            creation_timestamp: ts,
        };
        let log = archived_log(&events);
        let ghost prev = *self;
        self.failed_cfds.push(FailedCfdRow { cfd, log });
        proof {
            let n = prev.failed_cfds@.len() as int;
            assert(self.cfds@ == prev.cfds@);
            assert(self.logs@ == prev.logs@);
            assert forall|i: int| 0 <= i < n implies self.failed_cfds@[i] == prev.failed_cfds@[i]
                by {}
            assert(self.wf()) by {
                assert forall|i: int|
                    0 <= i < self.cfds@.len() implies self.spec_contains_log(
                    (#[trigger] self.cfds@[i]).id,
                ) by {
                    assert(prev.spec_contains_log(prev.cfds@[i].id));
                }
                assert forall|i: int|
                    0 <= i < self.logs@.len() implies self.spec_contains_cfd(
                    (#[trigger] self.logs@[i]).id,
                ) by {
                    assert(prev.spec_contains_cfd(prev.logs@[i].id));
                }
            }
            self.lemma_failed_at(id, n);
            assert(self.spec_cfd(id) == prev.spec_cfd(id)) by {
                let ci = prev.spec_cfd_idx(id);
                prev.lemma_cfd_at(id, ci);
                self.lemma_cfd_at(id, ci);
            }
            assert(self.spec_events(id) == prev.spec_events(id)) by {
                let li = prev.spec_log_idx(id);
                prev.lemma_log_at(id, li);
                self.lemma_log_at(id, li);
            }
        }
        let ghost mid = *self;
        match self.delete_from_events_table(id) {
            Ok(_) => {},
            Err(_) => {
                proof {
                    let li = prev.spec_log_idx(id);
                    prev.lemma_log_at(id, li);
                    assert(mid.logs@[li].id == id);
                    assert(mid.spec_contains_log(id));
                    assert(false);
                }
            },
        };
        let ghost mid2 = *self;
        match self.delete_from_cfds_table(id) {
            Ok(_) => {},
            Err(_) => {
                proof {
                    let ci = prev.spec_cfd_idx(id);
                    prev.lemma_cfd_at(id, ci);
                    assert(mid2.cfds@[ci].id == id);
                    assert(mid2.spec_contains_cfd(id));
                    assert(false);
                }
            },
        };
        proof {
            // uniqueness of each table survived all three steps
            assert(self.spec_cfds_unique());
            assert(self.spec_logs_unique());
            assert(self.spec_failed_unique()) by {
                assert(self.failed_cfds@ == mid.failed_cfds@);
            }
            assert(self.spec_logs_wf());
            assert(!self.spec_contains_log(id)) by {
                self.lemma_log_read_eq(mid2, id);
            }
            // the row/log correspondence holds again once both are gone
            assert(self.spec_rows_and_logs_correspond()) by {
                assert forall|i: int|
                    0 <= i < self.cfds@.len() implies self.spec_contains_log(
                    (#[trigger] self.cfds@[i]).id,
                ) by {
                    let id2 = self.cfds@[i].id;
                    assert(self.spec_contains_cfd(id2));
                    assert(id2 != id);
                    assert(mid2.spec_contains_cfd(id2));
                    mid2.lemma_cfd_read_eq(mid, id2);
                    let j = mid.spec_cfd_idx(id2);
                    mid.lemma_cfd_at(id2, j);
                    assert(mid.spec_contains_log(mid.cfds@[j].id));
                    assert(mid2.spec_contains_log(id2));
                    assert(self.spec_contains_log(id2)) by {
                        self.lemma_log_read_eq(mid2, id2);
                    }
                }
                assert forall|i: int|
                    0 <= i < self.logs@.len() implies self.spec_contains_cfd(
                    (#[trigger] self.logs@[i]).id,
                ) by {
                    let id2 = self.logs@[i].id;
                    assert(self.spec_contains_log(id2));
                    assert(id2 != id);
                    assert(mid2.spec_contains_log(id2)) by {
                        self.lemma_log_read_eq(mid2, id2);
                    }
                    assert(mid.spec_contains_log(id2));
                    let j = mid.spec_log_idx(id2);
                    mid.lemma_log_at(id2, j);
                    assert(mid.spec_contains_cfd(mid.logs@[j].id));
                    mid2.lemma_cfd_read_eq(mid, id2);
                    assert(self.spec_contains_cfd(id2));
                }
            }
            // the archive row reached its place and survived both deletes
            assert(spec_archived(*self, id, prev.spec_cfd(id), prev.spec_events(id))) by {
                let n = prev.failed_cfds@.len() as int;
                mid.lemma_failed_at(id, n);
                self.lemma_failed_at(id, n);
                assert(self.spec_failed(id) == cfd);
                assert(self.spec_failed_log(id) == log@);
                assert(row == prev.spec_cfd(id));
                assert(events@ == prev.spec_events(id));
                assert(cfd == spec_failed_projection(prev.spec_cfd(id), prev.spec_events(id)));
            }
            // every other contract reads exactly as before
            assert forall|id2: OrderId| id2 != id implies #[trigger] self.spec_same_contract(
                prev,
                id2,
            ) by {
                mid.lemma_cfd_read_eq(prev, id2);
                mid.lemma_log_read_eq(prev, id2);
                assert(mid.spec_contains_failed(id2) == prev.spec_contains_failed(id2)
                    && (mid.spec_contains_failed(id2) ==> mid.spec_failed(id2)
                    == prev.spec_failed(id2) && mid.spec_failed_log(id2) == prev.spec_failed_log(
                    id2,
                ))) by {
                    if prev.spec_contains_failed(id2) {
                        let i = prev.spec_failed_idx(id2);
                        prev.lemma_failed_at(id2, i);
                        mid.lemma_failed_at(id2, i);
                    }
                    if mid.spec_contains_failed(id2) {
                        let i = mid.spec_failed_idx(id2);
                        mid.lemma_failed_at(id2, i);
                        assert(i < prev.failed_cfds@.len());
                        prev.lemma_failed_at(id2, i);
                    }
                }
                mid2.lemma_cfd_read_eq(mid, id2);
                mid2.lemma_failed_read_eq(mid, id2);
                self.lemma_log_read_eq(mid2, id2);
                self.lemma_failed_read_eq(mid2, id2);
            }
        }
        Ok(())
    }
}

/// The contract can be archived as failed right now: it sits in the hot
/// store with a failure-marked log, its archive slot is free, and its
/// terms yield a fee.
pub open spec fn spec_archivable(db: Connection, id: OrderId) -> bool {
    &&& db.spec_contains_cfd(id)
    &&& spec_failed_candidate(db.spec_events(id))
    &&& !db.spec_contains_failed(id)
    &&& spec_fee_ok(db.spec_cfd(id))
}

/// Relating two stores contract by contract is transitive.
pub proof fn lemma_same_contract_trans(a: Connection, b: Connection, c: Connection, id: OrderId)
    requires
        a.spec_same_contract(b, id),
        b.spec_same_contract(c, id),
    ensures
        a.spec_same_contract(c, id),
{
}

/// An archived log entry that marks the terminal failure.
pub open spec fn spec_entry_is_failure(e: EventLogEntry) -> bool {
    e.name@ == "OfferRejected"@ || e.name@ == "ContractSetupFailed"@
}

/// The time a failed contract was created according to its archived log:
/// the timestamp of the first failure-marked entry.
pub open spec fn spec_log_creation_timestamp(log: Seq<EventLogEntry>) -> Option<Timestamp>
    decreases log.len(),
{
    if log.len() == 0 {
        None
    } else if spec_entry_is_failure(log[0]) {
        Some(log[0].created_at)
    } else {
        spec_log_creation_timestamp(log.drop_first())
    }
}

/// Skipping a failure-free prefix does not move the first failure entry.
proof fn lemma_log_creation_timestamp_skip(log: Seq<EventLogEntry>, j: int)
    requires
        0 <= j <= log.len(),
        forall|m: int| 0 <= m < j ==> !spec_entry_is_failure(#[trigger] log[m]),
    ensures
        spec_log_creation_timestamp(log) == spec_log_creation_timestamp(log.skip(j)),
    decreases j,
{
    if j > 0 {
        lemma_log_creation_timestamp_skip(log, j - 1);
        let s = log.skip(j - 1);
        assert(s[0] == log[j - 1]);
        assert(!spec_entry_is_failure(s[0]));
        assert(s.drop_first() =~= log.skip(j));
        assert(spec_log_creation_timestamp(s) == spec_log_creation_timestamp(s.drop_first()));
    } else {
        assert(log.skip(0) =~= log);
    }
}

impl Connection {
    /// The ids of the contracts whose event logs mark them failed: a
    /// terminal-failure event with no lock confirmation.
    fn failed_cfd_ids_according_to_events(&self) -> (ids: Vec<OrderId>)
        requires
            self.wf(),
        ensures
            forall|k: int|
                0 <= k < ids@.len() ==> self.spec_contains_cfd(#[trigger] ids@[k])
                    && spec_failed_candidate(self.spec_events(ids@[k])),
            forall|i: int|
                0 <= i < self.cfds@.len() && spec_failed_candidate(
                    self.spec_events((#[trigger] self.cfds@[i]).id),
                ) ==> ids@.contains(self.cfds@[i].id),
    {
        let mut ids: Vec<OrderId> = Vec::new();
        let mut i: usize = 0;
        while i < self.cfds.len()
            invariant
                0 <= i <= self.cfds@.len(),
                self.wf(),
                forall|k: int|
                    0 <= k < ids@.len() ==> self.spec_contains_cfd(#[trigger] ids@[k])
                        && spec_failed_candidate(self.spec_events(ids@[k])),
                forall|j: int|
                    0 <= j < i && spec_failed_candidate(
                        self.spec_events((#[trigger] self.cfds@[j]).id),
                    ) ==> ids@.contains(self.cfds@[j].id),
            decreases self.cfds@.len() - i,
        {
            let id = self.cfds[i].id;
            proof {
                self.lemma_cfd_at(id, i as int);
            }
            let ghost ids_before = ids@;
            let events = match self.load_cfd_events(id, 0) {
                Ok(events) => events,
                Err(_) => {
                    proof {
                        assert(self.spec_contains_log(self.cfds@[i as int].id));
                        assert(false);
                    }
                    Vec::new()
                },
            };
            proof {
                assert(self.spec_events(id).skip(0) =~= self.spec_events(id));
            }
            let s = scan_events(&events);
            if (s.offer_rejected || s.setup_failed) && !s.lock_confirmed {
                ids.push(id);
                proof {
                    assert(ids@ =~= ids_before.push(id));
                    assert(ids@[ids_before.len() as int] == id);
                    assert forall|j: int|
                        0 <= j < ids_before.len() implies ids@[j] == ids_before[j] by {}
                    assert(ids@.contains(id));
                    assert forall|x: OrderId| ids_before.contains(x) implies ids@.contains(x) by {
                        let k = choose|k: int|
                            0 <= k < ids_before.len() && ids_before[k] == x;
                        assert(ids@[k] == x);
                    }
                }
            }
            i = i + 1;
        }
        ids
    }

    /// One archiver sweep: find every contract whose log marks it failed
    /// and move each, one atomic migration at a time. A contract whose
    /// migration fails stays whole in the hot store and is retried on the
    /// next sweep; the sweep itself always completes.
    pub fn move_to_failed_cfds(&mut self) -> (r: Result<(), StoreError>)
        requires
            old(self).wf(),
        ensures
            final(self).wf(),
            r == Ok::<(), StoreError>(()),
            forall|id: OrderId|
                !(old(self).spec_contains_cfd(id) && spec_failed_candidate(
                    old(self).spec_events(id),
                )) ==> #[trigger] final(self).spec_same_contract(*old(self), id),
            forall|id: OrderId|
                #[trigger] spec_archivable(*old(self), id) ==> !final(self).spec_contains_cfd(id)
                    && !final(self).spec_contains_log(id) && spec_archived(
                    *final(self),
                    id,
                    old(self).spec_cfd(id),
                    old(self).spec_events(id),
                ),
            forall|id: OrderId|
                old(self).spec_contains_cfd(id) && spec_failed_candidate(old(self).spec_events(id))
                    && !spec_archivable(*old(self), id)
                    ==> #[trigger] final(self).spec_same_contract(*old(self), id),
    {
        let ghost prev = *self;
        let ids = self.failed_cfd_ids_according_to_events();
        let mut k: usize = 0;
        proof {
            assert(ids@.take(0) =~= Seq::<OrderId>::empty());
        }
        while k < ids.len()
            invariant
                0 <= k <= ids@.len(),
                self.wf(),
                forall|x: int|
                    0 <= x < ids@.len() ==> prev.spec_contains_cfd(#[trigger] ids@[x])
                        && spec_failed_candidate(prev.spec_events(ids@[x])),
                forall|id2: OrderId|
                    !ids@.take(k as int).contains(id2) ==> #[trigger] self.spec_same_contract(
                        prev,
                        id2,
                    ),
                forall|j: int|
                    0 <= j < k && spec_archivable(prev, #[trigger] ids@[j]) ==> (
                    !self.spec_contains_cfd(ids@[j]) && !self.spec_contains_log(ids@[j])
                        && spec_archived(
                        *self,
                        ids@[j],
                        prev.spec_cfd(ids@[j]),
                        prev.spec_events(ids@[j]),
                    )),
                forall|j: int|
                    0 <= j < k && !spec_archivable(prev, #[trigger] ids@[j])
                        ==> self.spec_same_contract(prev, ids@[j]),
            decreases ids@.len() - k,
        {
            let cur = ids[k];
            let ghost before = *self;
            let ghost in_prefix = ids@.take(k as int).contains(cur);
            proof {
                if !in_prefix {
                    assert(before.spec_same_contract(prev, cur));
                }
            }
            let outcome = self.migrate_failed_cfd(cur);
            proof {
                let kk = k as int;
                assert(ids@.take(kk + 1) =~= ids@.take(kk).push(cur));
                // membership in the extended prefix
                assert forall|id2: OrderId|
                    !ids@.take(kk + 1).contains(id2) implies #[trigger] self.spec_same_contract(
                    prev,
                    id2,
                ) by {
                    assert(!ids@.take(kk).contains(id2)) by {
                        if ids@.take(kk).contains(id2) {
                            let w = choose|w: int|
                                0 <= w < kk && ids@.take(kk)[w] == id2;
                            assert(ids@.take(kk + 1)[w] == id2);
                        }
                    }
                    assert(id2 != cur) by {
                        if id2 == cur {
                            assert(ids@.take(kk + 1)[kk] == cur);
                        }
                    }
                    assert(before.spec_same_contract(prev, id2));
                    if outcome is Ok {
                        assert(self.spec_same_contract(before, id2));
                        lemma_same_contract_trans(*self, before, prev, id2);
                    }
                }
                // dispositions for every processed index, the new one
                // included
                assert forall|j: int|
                    0 <= j < kk + 1 && spec_archivable(prev, #[trigger] ids@[j]) implies (
                !self.spec_contains_cfd(ids@[j]) && !self.spec_contains_log(ids@[j])
                    && spec_archived(
                    *self,
                    ids@[j],
                    prev.spec_cfd(ids@[j]),
                    prev.spec_events(ids@[j]),
                )) by {
                    let idj = ids@[j];
                    if j < kk && idj != cur {
                        assert(!before.spec_contains_cfd(idj) && !before.spec_contains_log(idj)
                            && spec_archived(
                            before,
                            idj,
                            prev.spec_cfd(idj),
                            prev.spec_events(idj),
                        ));
                        if outcome is Ok {
                            assert(self.spec_same_contract(before, idj));
                        }
                    } else if idj == cur {
                        if in_prefix {
                            // already archived by an earlier pass over the
                            // same id; this call found nothing to move
                            let w = choose|w: int|
                                0 <= w < kk && ids@.take(kk)[w] == cur;
                            assert(ids@[w] == cur);
                            assert(!before.spec_contains_cfd(cur));
                            assert(outcome is Err);
                            assert(*self == before);
                        } else {
                            assert(before.spec_same_contract(prev, cur));
                            assert(before.spec_contains_cfd(cur));
                            assert(before.spec_events(cur) == prev.spec_events(cur));
                            assert(spec_failed_candidate(before.spec_events(cur)));
                            assert(!before.spec_contains_failed(cur));
                            assert(before.spec_cfd(cur) == prev.spec_cfd(cur));
                            assert(spec_fee_ok(before.spec_cfd(cur)));
                            assert(outcome is Ok);
                            assert(spec_archived(
                                *self,
                                cur,
                                before.spec_cfd(cur),
                                before.spec_events(cur),
                            ));
                        }
                    }
                }
                assert forall|j: int|
                    0 <= j < kk + 1 && !spec_archivable(prev, #[trigger] ids@[j])
                        implies self.spec_same_contract(prev, ids@[j]) by {
                    let idj = ids@[j];
                    if j < kk && idj != cur {
                        assert(before.spec_same_contract(prev, idj));
                        if outcome is Ok {
                            assert(self.spec_same_contract(before, idj));
                            lemma_same_contract_trans(*self, before, prev, idj);
                        }
                    } else if idj == cur {
                        // the migration refused this contract and left the
                        // store untouched
                        if in_prefix {
                            assert(before.spec_same_contract(prev, cur));
                        } else {
                            assert(before.spec_same_contract(prev, cur));
                        }
                        assert(before.spec_contains_cfd(cur));
                        assert(spec_failed_candidate(before.spec_events(cur)));
                        assert(outcome is Err) by {
                            if outcome is Ok {
                                assert(!before.spec_contains_failed(cur) && spec_fee_ok(
                                    before.spec_cfd(cur),
                                ));
                                assert(spec_archivable(prev, cur));
                            }
                        }
                        assert(*self == before);
                    }
                }
            }
            k = k + 1;
        }
        proof {
            assert(ids@.take(ids@.len() as int) =~= ids@);
            assert forall|id: OrderId|
                !(prev.spec_contains_cfd(id) && spec_failed_candidate(prev.spec_events(id)))
                    implies #[trigger] self.spec_same_contract(prev, id) by {
                assert(!ids@.contains(id)) by {
                    if ids@.contains(id) {
                        let w = choose|w: int| 0 <= w < ids@.len() && ids@[w] == id;
                        assert(prev.spec_contains_cfd(ids@[w]));
                    }
                }
            }
            assert forall|id: OrderId| #[trigger] spec_archivable(prev, id) implies (
            !self.spec_contains_cfd(id) && !self.spec_contains_log(id) && spec_archived(
                *self,
                id,
                prev.spec_cfd(id),
                prev.spec_events(id),
            )) by {
                let ci = prev.spec_cfd_idx(id);
                prev.lemma_cfd_at(id, ci);
                assert(ids@.contains(prev.cfds@[ci].id));
                let w = choose|w: int| 0 <= w < ids@.len() && ids@[w] == id;
                assert(spec_archivable(prev, ids@[w]));
            }
            assert forall|id: OrderId|
                prev.spec_contains_cfd(id) && spec_failed_candidate(prev.spec_events(id))
                    && !spec_archivable(prev, id) implies #[trigger] self.spec_same_contract(
                prev,
                id,
            ) by {
                let ci = prev.spec_cfd_idx(id);
                prev.lemma_cfd_at(id, ci);
                assert(ids@.contains(prev.cfds@[ci].id));
                let w = choose|w: int| 0 <= w < ids@.len() && ids@[w] == id;
                assert(!spec_archivable(prev, ids@[w]));
            }
        }
        Ok(())
    }

    /// The time at which a failed contract was created, according to its
    /// archived event log: the first entry naming a rejected offer or a
    /// failed setup.
    pub fn load_creation_timestamp(&self, id: OrderId) -> (r: Result<Timestamp, StoreError>)
        requires
            self.wf(),
        ensures
            !self.spec_contains_failed(id) ==> r == Err::<Timestamp, StoreError>(
                StoreError::NotFound,
            ),
            self.spec_contains_failed(id) ==> r == match spec_log_creation_timestamp(
                self.spec_failed_log(id),
            ) {
                Some(t) => Ok::<Timestamp, StoreError>(t),
                None => Err::<Timestamp, StoreError>(StoreError::NotFound),
            },
    {
        let fi = match self.find_failed_index(id) {
            Some(fi) => fi,
            None => {
                return Err(StoreError::NotFound);
            },
        };
        proof {
            self.lemma_failed_at(id, fi as int);
            reveal_strlit("OfferRejected");
            reveal_strlit("ContractSetupFailed");
        }
        let offer_rejected = String::from_str("OfferRejected");
        let setup_failed = String::from_str("ContractSetupFailed");
        let ghost log = self.spec_failed_log(id);
        let row = &self.failed_cfds[fi];
        let mut j: usize = 0;
        while j < row.log.len()
            invariant
                0 <= j <= row.log@.len(),
                row == &self.failed_cfds@[fi as int],
                log == row.log@,
                self.spec_contains_failed(id),
                log == self.spec_failed_log(id),
                offer_rejected@ == "OfferRejected"@,
                setup_failed@ == "ContractSetupFailed"@,
                forall|m: int| 0 <= m < j ==> !spec_entry_is_failure(#[trigger] log[m]),
            decreases row.log@.len() - j,
        {
            let entry = &row.log[j];
            if entry.name == offer_rejected || entry.name == setup_failed {
                proof {
                    lemma_log_creation_timestamp_skip(log, j as int);
                    assert(log.skip(j as int)[0] == log[j as int]);
                    assert(spec_log_creation_timestamp(log) == Some(log[j as int].created_at));
                }
                return Ok(entry.created_at);
            }
            j = j + 1;
        }
        proof {
            lemma_log_creation_timestamp_skip(log, log.len() as int);
            assert(log.skip(log.len() as int) =~= Seq::<EventLogEntry>::empty());
        }
        Err(StoreError::NotFound)
    }

    /// Load a failed contract from the archive, without any replay: the
    /// stored terminal projection plus the creation time derived from the
    /// archived log.
    pub fn load_failed_cfd<C: FailedCfdAggregate>(&self, id: OrderId, args: C::CtorArgs) -> (r:
        Result<C, StoreError>)
        requires
            self.wf(),
        ensures
            r is Ok <==> (self.spec_contains_failed(id) && spec_log_creation_timestamp(
                self.spec_failed_log(id),
            ) is Some),
            r matches Ok(c) ==> c == C::spec_new_failed(
                args,
                FailedCfd {
                    creation_timestamp: spec_log_creation_timestamp(self.spec_failed_log(id))->Some_0,
                    ..self.spec_failed(id)
                },
            ),
            r is Err ==> r == Err::<C, StoreError>(StoreError::NotFound),
    {
        let fi = match self.find_failed_index(id) {
            Some(fi) => fi,
            None => {
                return Err(StoreError::NotFound);
            },
        };
        proof {
            self.lemma_failed_at(id, fi as int);
        }
        let creation_timestamp = match self.load_creation_timestamp(id) {
            Ok(t) => t,
            Err(_) => {
                return Err(StoreError::NotFound);
            },
        };
        let stored = self.failed_cfds[fi].cfd;
        let cfd = FailedCfd { creation_timestamp, ..stored };
        Ok(C::new_failed(args, cfd))
    }
}

} // verus!
