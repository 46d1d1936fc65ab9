//! Recovery sweeps run at startup (and optionally periodically): repair
//! aggregates whose negotiation was interrupted, and resubmit pending
//! transactions.
//!
//! The two passes are independent and order-independent. Broadcast is
//! idempotent at the network layer, so at-least-once resubmission is the
//! correct policy for the second pass.

use vstd::prelude::*;

use crate::db::{lemma_fold_concat, spec_fold, Connection, StoreError};
use crate::db::failed::lemma_same_contract_trans;
use crate::model::cfd::{spec_cfd_aggregate, Cfd};
use crate::model::{CfdEvent, EventKind, OrderId, Timestamp};
use crate::process_manager::{Command, TransactionKind};

verus! {

/// The synthetic failure events that make an interrupted aggregate
/// terminal: a failed setup for an in-flight setup, then a failed
/// rollover for an in-flight rollover.
pub open spec fn spec_repair_events(agg: Cfd, id: OrderId, now: Timestamp) -> Seq<CfdEvent> {
    (if agg.spec_setup_in_flight() {
        seq![CfdEvent { timestamp: now, id, event: EventKind::ContractSetupFailed }]
    } else {
        Seq::<CfdEvent>::empty()
    }) + (if agg.spec_rollover_in_flight() {
        seq![CfdEvent { timestamp: now, id, event: EventKind::RolloverFailed }]
    } else {
        Seq::<CfdEvent>::empty()
    })
}

/// Contract `id` was repaired going from `orig` to `db`: untouched if its
/// negotiations were whole, extended by exactly the synthetic failure
/// events otherwise — and in either case no negotiation is left in
/// flight.
pub open spec fn spec_repaired(orig: Connection, db: Connection, id: OrderId, now: Timestamp) -> bool {
    let agg = spec_cfd_aggregate(orig, id);
    &&& (!agg.spec_negotiation_in_flight() ==> db.spec_same_contract(orig, id))
    &&& (agg.spec_negotiation_in_flight() ==> db.spec_events(id) =~= orig.spec_events(id)
        + spec_repair_events(agg, id, now))
    &&& !spec_cfd_aggregate(db, id).spec_negotiation_in_flight()
}

/// Pass (a) of the recovery sweep: any open aggregate whose history
/// shows an interrupted negotiation — a started setup or rollover with
/// no terminal event — receives synthetic failure events, so it becomes
/// terminal rather than stuck. Aggregates with no interrupted
/// negotiation are untouched.
pub fn transition_non_continue_cfds_to_setup_failed(db: &mut Connection, now: Timestamp) -> (r:
    Result<(), StoreError>)
    requires
        old(db).wf(),
    ensures
        final(db).wf(),
        r == Ok::<(), StoreError>(()),
        final(db).cfds@ == old(db).cfds@,
        forall|id2: OrderId|
            !old(db).spec_contains_cfd(id2) ==> #[trigger] final(db).spec_same_contract(
                *old(db),
                id2,
            ),
        forall|i: int|
            0 <= i < old(db).cfds@.len() ==> spec_repaired(
                *old(db),
                *final(db),
                (#[trigger] old(db).cfds@[i]).id,
                now,
            ),
{
    let ghost orig = *db;
    let n = db.cfds.len();
    let mut i: usize = 0;
    while i < n
        invariant
            0 <= i <= n,
            n == orig.cfds@.len(),
            db.wf(),
            db.cfds@ == orig.cfds@,
            orig.wf(),
            forall|id2: OrderId|
                !orig.spec_contains_cfd(id2) ==> #[trigger] db.spec_same_contract(orig, id2),
            forall|j: int|
                i <= j < n ==> #[trigger] db.spec_same_contract(orig, orig.cfds@[j].id),
            forall|j: int|
                0 <= j < i ==> spec_repaired(orig, *db, (#[trigger] orig.cfds@[j]).id, now),
        decreases n - i,
    {
        let id = db.cfds[i].id;
        let ghost before = *db;
        proof {
            assert(before.spec_same_contract(orig, id));
            before.lemma_cfd_at(id, i as int);
            orig.lemma_cfd_at(id, i as int);
        }
        let ghost orig_agg = spec_cfd_aggregate(orig, id);
        let cfd = match db.load_open_cfd::<Cfd>(id, ()) {
            Ok(cfd) => cfd,
            Err(_) => {
                proof {
                    assert(db.spec_contains_cfd(id));
                    assert(false);
                }
                return Err(StoreError::NotFound);
            },
        };
        proof {
            assert(cfd == orig_agg);
        }
        let setup_interrupted = matches!(cfd.setup, crate::model::cfd::SetupStatus::Started);
        let rollover_interrupted = !matches!(
            cfd.rollover,
            crate::model::cfd::RolloverStatus::Inactive,
        );
        if setup_interrupted {
            let event = CfdEvent { timestamp: now, id, event: EventKind::ContractSetupFailed };
            match db.append_event(event) {
                Ok(_) => {},
                Err(_) => {
                    proof {
                        let ci = before.spec_cfd_idx(id);
                        assert(before.spec_contains_log(before.cfds@[ci].id));
                        assert(false);
                    }
                    return Err(StoreError::NotFound);
                },
            }
        }
        let ghost after_setup = *db;
        if rollover_interrupted {
            let event = CfdEvent { timestamp: now, id, event: EventKind::RolloverFailed };
            match db.append_event(event) {
                Ok(_) => {},
                Err(_) => {
                    proof {
                        if setup_interrupted {
                            assert(after_setup.spec_contains_log(id));
                        } else {
                            let ci = before.spec_cfd_idx(id);
                            assert(before.spec_contains_log(before.cfds@[ci].id));
                        }
                        assert(false);
                    }
                    return Err(StoreError::NotFound);
                },
            }
        }
        proof {
            let csf = CfdEvent { timestamp: now, id, event: EventKind::ContractSetupFailed };
            let rf = CfdEvent { timestamp: now, id, event: EventKind::RolloverFailed };
            // this contract now carries exactly the synthetic repairs
            assert(db.spec_events(id) =~= orig.spec_events(id) + spec_repair_events(
                orig_agg,
                id,
                now,
            )) by {
                if setup_interrupted && rollover_interrupted {
                    assert(db.spec_events(id) =~= before.spec_events(id).push(csf).push(rf));
                } else if setup_interrupted {
                    assert(db.spec_events(id) =~= before.spec_events(id).push(csf));
                } else if rollover_interrupted {
                    assert(db.spec_events(id) =~= before.spec_events(id).push(rf));
                } else {
                    assert(*db == before);
                }
                assert(before.spec_events(id) == orig.spec_events(id));
            }
            // and its derived state has no negotiation left in flight
            assert(spec_repaired(orig, *db, id, now)) by {
                db.lemma_cfd_at(id, i as int);
                assert(db.spec_cfd(id) == orig.spec_cfd(id));
                if setup_interrupted || rollover_interrupted {
                    let seed = Cfd::spec_seed(orig.spec_cfd(id));
                    lemma_fold_concat(
                        seed,
                        orig.spec_events(id),
                        spec_repair_events(orig_agg, id, now),
                    );
                    let repaired = spec_fold(orig_agg, spec_repair_events(orig_agg, id, now));
                    if setup_interrupted && rollover_interrupted {
                        assert(spec_repair_events(orig_agg, id, now) =~= Seq::<
                            CfdEvent,
                        >::empty().push(csf).push(rf));
                        crate::db::lemma_fold_snoc(orig_agg, Seq::<CfdEvent>::empty().push(csf), rf);
                        crate::db::lemma_fold_snoc(orig_agg, Seq::<CfdEvent>::empty(), csf);
                    } else if setup_interrupted {
                        assert(spec_repair_events(orig_agg, id, now) =~= Seq::<
                            CfdEvent,
                        >::empty().push(csf));
                        crate::db::lemma_fold_snoc(orig_agg, Seq::<CfdEvent>::empty(), csf);
                    } else {
                        assert(spec_repair_events(orig_agg, id, now) =~= Seq::<
                            CfdEvent,
                        >::empty().push(rf));
                        crate::db::lemma_fold_snoc(orig_agg, Seq::<CfdEvent>::empty(), rf);
                    }
                } else {
                    assert(db.spec_same_contract(orig, id)) by {
                        assert(*db == before);
                    }
                    assert(spec_cfd_aggregate(*db, id) == orig_agg);
                }
            }
            // every other contract reads as it did before this step
            assert forall|id2: OrderId| id2 != id implies #[trigger] db.spec_same_contract(
                before,
                id2,
            ) by {
                if setup_interrupted && rollover_interrupted {
                    assert(after_setup.spec_same_contract(before, id2));
                    assert(db.spec_same_contract(after_setup, id2));
                    lemma_same_contract_trans(*db, after_setup, before, id2);
                } else if setup_interrupted || rollover_interrupted {
                    assert(db.spec_same_contract(before, id2));
                } else {
                    assert(*db == before);
                }
            }
            assert forall|id2: OrderId|
                !orig.spec_contains_cfd(id2) implies #[trigger] db.spec_same_contract(
                orig,
                id2,
            ) by {
                assert(id2 != id);
                assert(before.spec_same_contract(orig, id2));
                lemma_same_contract_trans(*db, before, orig, id2);
            }
            assert forall|j: int|
                i + 1 <= j < n implies #[trigger] db.spec_same_contract(
                orig,
                orig.cfds@[j].id,
            ) by {
                assert(orig.cfds@[j].id != id);
                assert(before.spec_same_contract(orig, orig.cfds@[j].id));
                lemma_same_contract_trans(*db, before, orig, orig.cfds@[j].id);
            }
            assert forall|j: int|
                0 <= j < i implies spec_repaired(orig, *db, (#[trigger] orig.cfds@[j]).id, now) by {
                let idj = orig.cfds@[j].id;
                assert(idj != id);
                assert(spec_repaired(orig, before, idj, now));
                assert(db.spec_same_contract(before, idj));
                assert(spec_cfd_aggregate(*db, idj) == spec_cfd_aggregate(before, idj)) by {
                    if before.spec_contains_cfd(idj) {
                        before.lemma_cfd_read_eq(*db, idj);
                    }
                }
                if !spec_cfd_aggregate(orig, idj).spec_negotiation_in_flight() {
                    lemma_same_contract_trans(*db, before, orig, idj);
                }
            }
        }
        i = i + 1;
    }
    Ok(())
}

/// The lock-transaction rebroadcasts pass (b) asks for: one per open
/// contract whose DLC's lock transaction awaits confirmation.
pub open spec fn spec_lock_rebroadcasts(db: Connection, n: int) -> Seq<Command>
    decreases n,
{
    if n <= 0 {
        Seq::empty()
    } else {
        spec_lock_rebroadcasts(db, n - 1) + match spec_cfd_aggregate(
            db,
            db.cfds@[n - 1].id,
        ).spec_pending_open_lock_tx() {
            Some(tx) => seq![
                Command::TryBroadcastTransaction { tx, kind: TransactionKind::Lock },
            ],
            None => Seq::empty(),
        }
    }
}

/// The refund-transaction rebroadcasts pass (b) asks for: one per
/// contract whose refund became due and awaits confirmation.
pub open spec fn spec_refund_rebroadcasts(db: Connection, n: int) -> Seq<Command>
    decreases n,
{
    if n <= 0 {
        Seq::empty()
    } else {
        spec_refund_rebroadcasts(db, n - 1) + match spec_cfd_aggregate(
            db,
            db.cfds@[n - 1].id,
        ).pending_refund {
            Some(tx) => seq![
                Command::TryBroadcastTransaction { tx, kind: TransactionKind::Refund },
            ],
            None => Seq::empty(),
        }
    }
}

/// The commit-transaction rebroadcasts pass (b) asks for: one per
/// contract whose published commit transaction awaits confirmation.
pub open spec fn spec_commit_rebroadcasts(db: Connection, n: int) -> Seq<Command>
    decreases n,
{
    if n <= 0 {
        Seq::empty()
    } else {
        spec_commit_rebroadcasts(db, n - 1) + match spec_cfd_aggregate(
            db,
            db.cfds@[n - 1].id,
        ).pending_commit {
            Some(tx) => seq![
                Command::TryBroadcastTransaction { tx, kind: TransactionKind::Commit },
            ],
            None => Seq::empty(),
        }
    }
}

/// Pass (b) of the recovery sweep: derive, from persisted state alone,
/// every transaction that is pending but possibly unbroadcast — lock
/// transactions of contracts whose lock is unconfirmed, refund
/// transactions that became due, published commit transactions — and
/// hand back the broadcast commands, locks first, then refunds, then
/// commits.
pub fn rebroadcast_transactions(db: &Connection) -> (r: Vec<Command>)
    requires
        db.wf(),
    ensures
        r@ =~= spec_lock_rebroadcasts(*db, db.cfds@.len() as int) + spec_refund_rebroadcasts(
            *db,
            db.cfds@.len() as int,
        ) + spec_commit_rebroadcasts(*db, db.cfds@.len() as int),
{
    let n = db.cfds.len();
    let mut r: Vec<Command> = Vec::new();
    let mut i: usize = 0;
    while i < n
        invariant
            0 <= i <= n,
            n == db.cfds@.len(),
            db.wf(),
            r@ =~= spec_lock_rebroadcasts(*db, i as int),
        decreases n - i,
    {
        let id = db.cfds[i].id;
        proof {
            db.lemma_cfd_at(id, i as int);
        }
        let cfd = match db.load_open_cfd::<Cfd>(id, ()) {
            Ok(cfd) => cfd,
            Err(_) => {
                proof {
                    assert(false);
                }
                return r;
            },
        };
        match cfd.pending_open_lock_tx() {
            Some(tx) => {
                r.push(Command::TryBroadcastTransaction { tx, kind: TransactionKind::Lock });
            },
            None => {},
        }
        i = i + 1;
    }
    let mut j: usize = 0;
    while j < n
        invariant
            0 <= j <= n,
            n == db.cfds@.len(),
            db.wf(),
            r@ =~= spec_lock_rebroadcasts(*db, n as int) + spec_refund_rebroadcasts(*db, j as int),
        decreases n - j,
    {
        let id = db.cfds[j].id;
        proof {
            db.lemma_cfd_at(id, j as int);
        }
        let cfd = match db.load_open_cfd::<Cfd>(id, ()) {
            Ok(cfd) => cfd,
            Err(_) => {
                proof {
                    assert(false);
                }
                return r;
            },
        };
        match cfd.due_refund_tx() {
            Some(tx) => {
                r.push(Command::TryBroadcastTransaction { tx, kind: TransactionKind::Refund });
            },
            None => {},
        }
        j = j + 1;
    }
    let mut k: usize = 0;
    while k < n
        invariant
            0 <= k <= n,
            n == db.cfds@.len(),
            db.wf(),
            r@ =~= spec_lock_rebroadcasts(*db, n as int) + spec_refund_rebroadcasts(*db, n as int)
                + spec_commit_rebroadcasts(*db, k as int),
        decreases n - k,
    {
        let id = db.cfds[k].id;
        proof {
            db.lemma_cfd_at(id, k as int);
        }
        let cfd = match db.load_open_cfd::<Cfd>(id, ()) {
            Ok(cfd) => cfd,
            Err(_) => {
                proof {
                    assert(false);
                }
                return r;
            },
        };
        match cfd.due_commit_tx() {
            Some(tx) => {
                r.push(Command::TryBroadcastTransaction { tx, kind: TransactionKind::Commit });
            },
            None => {},
        }
        k = k + 1;
    }
    r
}

} // verus!
