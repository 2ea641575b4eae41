use vstd::prelude::*;

use crate::errors::PleaseError;
use crate::errors::PleaseResult;
use crate::errors::QueryError;
use crate::errors::funnel;
use crate::errors::funnels_to;
use crate::record::ExpiredId;
use crate::store::LeaseStore;
use crate::store::StoreModel;
use crate::store::expired_of;
use crate::store::insert_effect;
use crate::store::refresh_effect;
use crate::store::remove_effect;
use crate::store::sweep_effect;

verus! {

/// Sentinel id marking a handle that has already been closed: no row
/// ever carries it, so every store operation on a closed handle matches
/// zero rows.
pub const CLOSED_ID: i32 = -1;

/// The client-visible object representing one active lease: it holds
/// the id of the row it references. A handle is created together with
/// its row; absence of the row — however it disappeared — means the
/// lease is expired.
#[derive(Debug)]
pub struct PleaseHandle {
    id: i32,
}

impl View for PleaseHandle {
    type V = int;

    closed spec fn view(&self) -> int {
        self.id as int
    }
}

/// The handle id and store that a `close` of a handle whose id is `h`
/// leaves behind, and whether that close succeeds: a closed handle is
/// left alone; a live row is removed and the handle marked closed; a
/// handle whose row is already gone fails and stays unmarked.
pub open spec fn close_effect(h: int, s: StoreModel) -> (int, StoreModel, bool) {
    if h == CLOSED_ID as int {
        (h, s, true)
    } else if s.has_id(h) {
        (CLOSED_ID as int, remove_effect(s, h), true)
    } else {
        (h, s, false)
    }
}

impl PleaseHandle {
    /// Whether the handle has been marked closed, so that further
    /// operations — including the release on scope exit — are no-ops.
    pub open spec fn is_closed(self) -> bool {
        self@ == CLOSED_ID as int
    }

    /// Construct a new handle: one store transaction that inserts a new
    /// lease row titled `title`; the store assigns the id and both
    /// timestamps. Fails only when the store rejects the insert.
    pub fn new<P>(store: &mut LeaseStore, title: &str) -> (r: PleaseResult<PleaseHandle, P>)
        requires
            old(store)@.wf(),
        ensures
            final(store)@.wf(),
            old(store)@.next_id < i32::MAX ==> (r matches Ok(h) && h@ == old(store)@.next_id
                && !h.is_closed()) && final(store)@ == insert_effect(old(store)@, title@),
            old(store)@.next_id == i32::MAX ==> r == Err::<PleaseHandle, PleaseError<P>>(
                PleaseError::Query(QueryError::IdsExhausted),
            ) && final(store)@ == old(store)@,
    {
        match store.insert(title) {
            Ok(id) => Ok(PleaseHandle { id }),
            Err(q) => Err(PleaseError::Query(q)),
        }
    }

    /// Convenience constructor: a best-effort cleanup sweep first, so
    /// that stale rows do not accumulate, then the same insert as
    /// [`PleaseHandle::new`]. The sweep's outcome is discarded.
    pub fn new_with_cleanup<P>(store: &mut LeaseStore, title: &str) -> (r: PleaseResult<
        PleaseHandle,
        P,
    >)
        requires
            old(store)@.wf(),
        ensures
            final(store)@.wf(),
            old(store)@.next_id < i32::MAX ==> (r matches Ok(h) && h@ == old(store)@.next_id
                && !h.is_closed()) && final(store)@ == insert_effect(
                sweep_effect(old(store)@),
                title@,
            ),
            old(store)@.next_id == i32::MAX ==> r == Err::<PleaseHandle, PleaseError<P>>(
                PleaseError::Query(QueryError::IdsExhausted),
            ) && final(store)@ == sweep_effect(old(store)@),
    {
        let _ = Self::perform_cleanup::<P>(store);
        Self::new(store, title)
    }

    /// Constructor for use from within an already-open caller
    /// transaction: only the insert, without a transaction of its own,
    /// so the creation can be part of a larger atomic caller operation.
    /// Errors stay in the store's own channel.
    pub fn new_with_connection(store: &mut LeaseStore, title: &str) -> (r: Result<
        PleaseHandle,
        QueryError,
    >)
        requires
            old(store)@.wf(),
        ensures
            final(store)@.wf(),
            old(store)@.next_id < i32::MAX ==> (r matches Ok(h) && h@ == old(store)@.next_id
                && !h.is_closed()) && final(store)@ == insert_effect(old(store)@, title@),
            old(store)@.next_id == i32::MAX ==> r == Err::<PleaseHandle, QueryError>(
                QueryError::IdsExhausted,
            ) && final(store)@ == old(store)@,
    {
        match store.insert(title) {
            Ok(id) => Ok(PleaseHandle { id }),
            Err(q) => Err(q),
        }
    }

    /// Explicitly clean up timed-out leases: one transaction that
    /// deletes every row whose expiry lies strictly before the store's
    /// current time and returns the deleted rows as snapshots, in table
    /// order, so they can be logged. Stateless: it removes any
    /// process's timed-out rows.
    pub fn perform_cleanup<P>(store: &mut LeaseStore) -> (r: PleaseResult<Vec<ExpiredId>, P>)
        requires
            old(store)@.wf(),
        ensures
            final(store)@.wf(),
            final(store)@ == sweep_effect(old(store)@),
            r matches Ok(v) && v.deep_view() == expired_of(old(store)@.leases, old(store)@.now),
    {
        Ok(store.sweep())
    }

    /// Run one unit of caller work under this lease, inside one store
    /// transaction. The transaction first executes the combined
    /// validate-and-refresh step: a conditional update that bumps the
    /// row's refresh counter — moving its expiry one timeout ahead —
    /// filtered to this handle's id. Only if exactly one row was
    /// affected is `f` invoked, with the validated id; if `f` fails,
    /// the whole transaction — the refresh included — rolls back and
    /// `f`'s error is returned. If no row was affected the lease is
    /// gone: `f` is never invoked and an `Expired` error is injected
    /// into the caller's error channel.
    pub fn transaction<P, R, E, F>(&mut self, store: &mut LeaseStore, f: F) -> (r: Result<R, E>) where
        E: From<PleaseError<P>>,
        F: FnOnce(i32) -> Result<R, E>,

        requires
            old(store)@.wf(),
            call_requires(f, ((old(self)@) as i32,)),
        ensures
            *final(self) == *old(self),
            final(store)@.wf(),
            !old(store)@.has_id(old(self)@) ==> final(store)@ == old(store)@ && (r matches Err(e)
                && funnels_to::<P, E>(PleaseError::Expired, e)),
            old(store)@.has_id(old(self)@) && old(store)@.record_of(old(self)@).refresh_count
                == i32::MAX ==> final(store)@ == old(store)@ && (r matches Err(e)
                && funnels_to::<P, E>(
                PleaseError::Query(QueryError::CounterSaturated),
                e,
            )),
            old(store)@.has_id(old(self)@) && old(store)@.record_of(old(self)@).refresh_count
                < i32::MAX ==> call_ensures(f, ((old(self)@) as i32,), r) && (r matches Ok(_)
                ==> final(store)@ == refresh_effect(old(store)@, old(self)@)) && (r matches Err(_)
                ==> final(store)@ == old(store)@),
    {
        let idc = self.id;
        let saved = store.snapshot();
        let step = store.refresh_by_id(idc);
        match step {
            Ok(nrows) => {
                if nrows == 1 {
                    let res = f(idc);
                    if res.is_err() {
                        // The caller's work failed: the transaction
                        // rolls back, the refresh with it.
                        *store = saved;
                    }
                    res
                } else {
                    Err(funnel::<P, E>(PleaseError::Expired))
                }
            },
            Err(q) => Err(funnel::<P, E>(PleaseError::Query(q))),
        }
    }

    /// Refresh the handle: exactly an empty validated transaction. It
    /// extends the row's expiry and bumps its refresh counter as a
    /// liveness signal, with no caller payload, and fails fast with
    /// `Expired` when the row is gone.
    pub fn refresh<P>(&mut self, store: &mut LeaseStore) -> (r: PleaseResult<(), P>)
        requires
            old(store)@.wf(),
        ensures
            *final(self) == *old(self),
            final(store)@.wf(),
            !old(store)@.has_id(old(self)@) ==> r == Err::<(), PleaseError<P>>(PleaseError::Expired)
                && final(store)@ == old(store)@,
            old(store)@.has_id(old(self)@) && old(store)@.record_of(old(self)@).refresh_count
                == i32::MAX ==> r == Err::<(), PleaseError<P>>(PleaseError::Query(
                QueryError::CounterSaturated,
            )) && final(store)@ == old(store)@,
            old(store)@.has_id(old(self)@) && old(store)@.record_of(old(self)@).refresh_count
                < i32::MAX ==> r == Ok::<(), PleaseError<P>>(()) && final(store)@ == refresh_effect(
                old(store)@,
                old(self)@,
            ),
    {
        match store.refresh_by_id(self.id) {
            Ok(nrows) => {
                if nrows == 1 {
                    Ok(())
                } else {
                    Err(PleaseError::Expired)
                }
            },
            Err(q) => Err(PleaseError::Query(q)),
        }
    }

    /// Force-expire the handle: one transaction that deletes the row
    /// matching this handle's id unconditionally and returns the
    /// deleted row as a snapshot. When no row matched — the lease is
    /// already gone — it surfaces `Expired`. The raw, non-idempotent
    /// primitive: a second call fails, since the row no longer exists.
    pub fn expire<P>(&mut self, store: &mut LeaseStore) -> (r: PleaseResult<ExpiredId, P>)
        requires
            old(store)@.wf(),
        ensures
            *final(self) == *old(self),
            final(store)@.wf(),
            !old(store)@.has_id(old(self)@) ==> r == Err::<ExpiredId, PleaseError<P>>(
                PleaseError::Expired,
            ) && final(store)@ == old(store)@,
            old(store)@.has_id(old(self)@) ==> (r matches Ok(snap)
                && snap@ == old(store)@.record_of(old(self)@))
                && final(store)@ == remove_effect(old(store)@, old(self)@),
    {
        match store.delete_by_id(self.id) {
            Some(rec) => Ok(ExpiredId::from_record(rec)),
            None => Err(PleaseError::Expired),
        }
    }

    /// Close the handle: expire it, then mark it closed so that every
    /// further operation — including the release on scope exit — is a
    /// no-op. Closing an already-closed handle is a no-op, not an
    /// error; only a close that found the row already gone surfaces
    /// `Expired`, and then leaves the handle unmarked, as the raw
    /// expire it is built from would.
    pub fn close<P>(&mut self, store: &mut LeaseStore) -> (r: PleaseResult<(), P>)
        requires
            old(store)@.wf(),
        ensures
            final(store)@.wf(),
            old(self).is_closed() ==> r == Ok::<(), PleaseError<P>>(())
                && final(store)@ == old(store)@ && *final(self) == *old(self),
            !old(self).is_closed() && old(store)@.has_id(old(self)@) ==> r == Ok::<
                (),
                PleaseError<P>,
            >(()) && final(store)@ == remove_effect(old(store)@, old(self)@)
                && final(self).is_closed(),
            !old(self).is_closed() && !old(store)@.has_id(old(self)@) ==> r == Err::<
                (),
                PleaseError<P>,
            >(PleaseError::Expired) && final(store)@ == old(store)@ && *final(self) == *old(self),
            ({
                let (h2, s2, ok) = close_effect(old(self)@, old(store)@);
                final(self)@ == h2 && final(store)@ == s2 && (r is Ok) == ok
            }),
    {
        if self.id == CLOSED_ID {
            return Ok(());
        }
        match self.expire::<P>(store) {
            Ok(_) => {
                self.id = CLOSED_ID;
                Ok(())
            },
            Err(e) => Err(e),
        }
    }

    /// Best-effort release, as scope-exit cleanup performs it: if the
    /// handle is not yet closed, delete its row and discard any
    /// outcome; afterwards the handle is closed either way. Callers
    /// that need to observe release failures call
    /// [`PleaseHandle::close`] instead.
    pub fn release(&mut self, store: &mut LeaseStore)
        requires
            old(store)@.wf(),
        ensures
            final(store)@.wf(),
            final(self).is_closed(),
            old(self).is_closed() ==> final(store)@ == old(store)@,
            !old(self).is_closed() && old(store)@.has_id(old(self)@) ==> final(store)@
                == remove_effect(old(store)@, old(self)@),
            !old(self).is_closed() && !old(store)@.has_id(old(self)@) ==> final(store)@
                == old(store)@,
    {
        if self.id != CLOSED_ID {
            let _ = store.delete_by_id(self.id);
            self.id = CLOSED_ID;
        }
    }

    /// The id of this handle's row, or the sentinel once it is closed.
    pub fn id(&self) -> (r: i32)
        ensures
            r as int == self@,
    {
        self.id
    }
}

} // verus!
