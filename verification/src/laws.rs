use vstd::prelude::*;

use crate::handle::close_effect;
use crate::store::StoreModel;
use crate::store::expired_of;
use crate::store::insert_effect;
use crate::store::inserted_record;
use crate::store::lemma_index_of_at;
use crate::store::lemma_insert_wf;
use crate::store::lemma_refresh_wf;
use crate::store::lemma_remove_wf;
use crate::store::lemma_sweep_partition;
use crate::store::live_of;
use crate::store::refresh_effect;
use crate::store::remove_effect;
use crate::store::row_wf;
use crate::store::sweep_effect;

verus! {

/// Handles created in sequence carry distinct ids: the id the store
/// assigns to a second creation differs from the id it assigned to the
/// first, and from the id of every row already present.
pub proof fn lemma_sequential_creations_distinct(s: StoreModel, t1: Seq<char>, t2: Seq<char>)
    requires
        s.wf(),
    ensures
        inserted_record(s, t1).id != inserted_record(insert_effect(s, t1), t2).id,
        forall|i: int|
            0 <= i < s.leases.len() ==> (#[trigger] s.leases[i]).id != inserted_record(s, t1).id,
{
    assert forall|i: int|
        0 <= i < s.leases.len() implies (#[trigger] s.leases[i]).id != inserted_record(
        s,
        t1,
    ).id by {
        assert(row_wf(s.leases[i], s.next_id, s.now, s.timeout));
    }
}

/// A freshly created handle's first validated transaction succeeds —
/// its row is present and its counter has room — and the stored
/// refresh count becomes one.
pub proof fn lemma_fresh_handle_first_refresh(s: StoreModel, title: Seq<char>)
    requires
        s.wf(),
        s.next_id < i32::MAX,
    ensures
        ({
            let id = s.next_id;
            let s1 = insert_effect(s, title);
            &&& s1.has_id(id)
            &&& s1.record_of(id).refresh_count == 0
            &&& s1.record_of(id).refresh_count < i32::MAX
            &&& refresh_effect(s1, id).has_id(id)
            &&& refresh_effect(s1, id).record_of(id).refresh_count == 1
        }),
{
    let id = s.next_id;
    let s1 = insert_effect(s, title);
    let n = s.leases.len() as int;
    assert(s1.leases[n].id == id);
    lemma_insert_wf(s, title);
    lemma_index_of_at(s1, id, n);
    let s2 = refresh_effect(s1, id);
    lemma_refresh_wf(s1, id);
    assert(s2.leases[n].id == id);
    lemma_index_of_at(s2, id, n);
}

/// After a forced expire succeeds the row is gone: a subsequent
/// validate-and-refresh on the same handle matches zero rows — so a
/// validated transaction fails with `Expired` — and a second expire
/// matches none either.
pub proof fn lemma_expire_is_final(s: StoreModel, id: int)
    requires
        s.wf(),
        s.has_id(id),
    ensures
        !remove_effect(s, id).has_id(id),
{
    let s1 = remove_effect(s, id);
    let i = s.index_of(id);
    assert(0 <= i < s.leases.len() && s.leases[i].id == id);
    assert forall|k: int| 0 <= k < s1.leases.len() implies (#[trigger] s1.leases[k]).id != id by {
        let k0 = if k < i {
            k
        } else {
            k + 1
        };
        assert(s1.leases[k] == s.leases[k0]);
        assert(s.leases[k0].id != s.leases[i].id);
    }
}

/// A gone id stays gone: ids are never reused, so neither a later
/// creation nor a refresh, a removal or a sweep can bring back a row
/// carrying an id the store once assigned and no longer holds.
pub proof fn lemma_gone_stays_gone(s: StoreModel, id: int, title: Seq<char>, other: int)
    requires
        s.wf(),
        !s.has_id(id),
        id < s.next_id,
    ensures
        !insert_effect(s, title).has_id(id),
        s.has_id(other) ==> !refresh_effect(s, other).has_id(id),
        s.has_id(other) ==> !remove_effect(s, other).has_id(id),
        !sweep_effect(s).has_id(id),
{
    assert forall|k: int| 0 <= k < s.leases.len() implies (#[trigger] s.leases[k]).id != id by {
        if s.leases[k].id == id {
            assert(s.has_id(id));
        }
    }
    let si = insert_effect(s, title);
    assert forall|k: int| 0 <= k < si.leases.len() implies (#[trigger] si.leases[k]).id != id by {
        if k < s.leases.len() {
            assert(si.leases[k] == s.leases[k]);
        } else {
            assert(si.leases[k].id == s.next_id);
        }
    }
    if s.has_id(other) {
        let sr = refresh_effect(s, other);
        let i = s.index_of(other);
        assert(0 <= i < s.leases.len() && s.leases[i].id == other);
        assert forall|k: int| 0 <= k < sr.leases.len() implies (#[trigger] sr.leases[k]).id
            != id by {
            if k == i {
                assert(sr.leases[k].id == s.leases[i].id);
            } else {
                assert(sr.leases[k] == s.leases[k]);
            }
        }
        let sd = remove_effect(s, other);
        assert forall|k: int| 0 <= k < sd.leases.len() implies (#[trigger] sd.leases[k]).id
            != id by {
            let k0 = if k < i {
                k
            } else {
                k + 1
            };
            assert(sd.leases[k] == s.leases[k0]);
        }
    }
    let sw = sweep_effect(s);
    lemma_sweep_partition(s.leases, s.now);
    assert forall|k: int| 0 <= k < sw.leases.len() implies (#[trigger] sw.leases[k]).id != id by {
        assert(s.leases.contains(sw.leases[k]));
        let j = choose|j: int| 0 <= j < s.leases.len() && s.leases[j] == sw.leases[k];
        assert(s.leases[j].id != id);
    }
}

/// Expiring one handle leaves every other lease untouched: removing
/// a's row deletes only that row, so a later validate-and-refresh on
/// a matches zero rows — a validated transaction on a fails with
/// `Expired` — while b's record is exactly as before, and b's next
/// validated transaction still succeeds. The one input left out: a b
/// whose refresh counter has no room left in its column, whose next
/// refresh the store would reject whether or not a was expired.
pub proof fn lemma_expire_isolates_handles(s: StoreModel, a: int, b: int)
    requires
        s.wf(),
        s.has_id(a),
        s.has_id(b),
        a != b,
        s.record_of(b).refresh_count < i32::MAX,
    ensures
        ({
            let s1 = remove_effect(s, a);
            &&& !s1.has_id(a)
            &&& s1.has_id(b)
            &&& s1.record_of(b) == s.record_of(b)
            &&& s1.record_of(b).refresh_count < i32::MAX
        }),
{
    let s1 = remove_effect(s, a);
    lemma_expire_is_final(s, a);
    lemma_remove_wf(s, a);
    let i = s.index_of(a);
    let j = s.index_of(b);
    assert(0 <= i < s.leases.len() && s.leases[i].id == a);
    assert(0 <= j < s.leases.len() && s.leases[j].id == b);
    let j1 = if j < i {
        j
    } else {
        j - 1
    };
    assert(s1.leases[j1] == s.leases[j]);
    lemma_index_of_at(s1, b, j1);
    lemma_index_of_at(s, b, j);
}

/// A handle that is created and never refreshed times out: once the
/// store's clock has moved strictly past the configured timeout, a
/// cleanup sweep returns the handle's row among the removed snapshots
/// and leaves no row with its id — so a later validate-and-refresh on
/// that handle matches zero rows, and a validated transaction on it
/// fails with `Expired`.
pub proof fn lemma_unrefreshed_handle_times_out(s: StoreModel, title: Seq<char>, delay: int)
    requires
        s.wf(),
        s.next_id < i32::MAX,
        s.timeout < delay,
        s.now + delay + s.timeout <= i64::MAX,
    ensures
        ({
            let id = s.next_id;
            let created = insert_effect(s, title);
            let later = StoreModel { now: s.now + delay, ..created };
            &&& exists|j: int|
                0 <= j < expired_of(later.leases, later.now).len() && (#[trigger] expired_of(
                    later.leases,
                    later.now,
                )[j]).id == id
            &&& !sweep_effect(later).has_id(id)
        }),
{
    let id = s.next_id;
    let created = insert_effect(s, title);
    let later = StoreModel { now: s.now + delay, ..created };
    let n = s.leases.len() as int;
    lemma_insert_wf(s, title);
    assert(later.leases[n].id == id);
    assert(later.leases[n].expiry < later.now);
    lemma_sweep_partition(later.leases, later.now);
    assert(expired_of(later.leases, later.now).contains(later.leases[n]));
    let j = choose|j: int|
        0 <= j < expired_of(later.leases, later.now).len() && expired_of(later.leases, later.now)[j]
            == later.leases[n];
    assert(expired_of(later.leases, later.now)[j].id == id);
    let kept = sweep_effect(later).leases;
    assert forall|k: int| 0 <= k < kept.len() implies (#[trigger] kept[k]).id != id by {
        if kept[k].id == id {
            assert(later.leases.contains(kept[k]));
            let k0 = choose|k0: int| 0 <= k0 < later.leases.len() && later.leases[k0] == kept[k];
            if k0 != n {
                // two rows of the table would share the fresh id
                assert(created.leases[k0].id != created.leases[n].id);
            }
            // the fresh row is strictly expired, kept rows are not
            assert(kept[k].expiry >= later.now);
        }
    }
}

/// A transaction that successfully validates a lease cannot have that
/// lease swept out from under it: the validate-and-refresh step moved
/// the row's expiry one full timeout ahead of the clock, so a sweep
/// that observes the clock up to `delay` seconds later — any moment
/// within the timeout — still finds the row too young to remove.
pub proof fn lemma_validated_lease_survives_sweep(s: StoreModel, id: int, delay: int)
    requires
        s.wf(),
        s.has_id(id),
        s.record_of(id).refresh_count < i32::MAX,
        0 <= delay <= s.timeout,
    ensures
        ({
            let refreshed = refresh_effect(s, id);
            let later = StoreModel { now: s.now + delay, ..refreshed };
            sweep_effect(later).has_id(id)
        }),
{
    let refreshed = refresh_effect(s, id);
    let later = StoreModel { now: s.now + delay, ..refreshed };
    let i = s.index_of(id);
    assert(0 <= i < s.leases.len() && s.leases[i].id == id);
    assert(later.leases[i].id == id);
    assert(later.leases[i].expiry == s.now + s.timeout);
    lemma_sweep_partition(later.leases, later.now);
    assert(live_of(later.leases, later.now).contains(later.leases[i]));
    let j = choose|j: int|
        0 <= j < live_of(later.leases, later.now).len() && live_of(later.leases, later.now)[j]
            == later.leases[i];
    assert(sweep_effect(later).leases[j].id == id);
}

/// `close` is idempotent: once a close has succeeded, a second close of
/// the same handle succeeds too, touches no row in the store, and
/// leaves the handle as it is.
pub proof fn lemma_close_idempotent(h: int, s: StoreModel)
    requires
        s.wf(),
    ensures
        ({
            let (h1, s1, ok1) = close_effect(h, s);
            ok1 ==> close_effect(h1, s1) == (h1, s1, true)
        }),
{
}

/// `expiry` only moves forward: a successful validate-and-refresh never
/// sets it to a value preceding the previous one, and bumps the refresh
/// counter by exactly one.
pub proof fn lemma_expiry_moves_forward(s: StoreModel, id: int)
    requires
        s.wf(),
        s.has_id(id),
        s.record_of(id).refresh_count < i32::MAX,
    ensures
        refresh_effect(s, id).has_id(id),
        refresh_effect(s, id).record_of(id).expiry >= s.record_of(id).expiry,
        refresh_effect(s, id).record_of(id).refresh_count == s.record_of(id).refresh_count + 1,
{
    let i = s.index_of(id);
    assert(0 <= i < s.leases.len() && s.leases[i].id == id);
    lemma_index_of_at(s, id, i);
    let s1 = refresh_effect(s, id);
    lemma_refresh_wf(s, id);
    assert(s1.leases[i].id == id);
    lemma_index_of_at(s1, id, i);
    assert(row_wf(s.leases[i], s.next_id, s.now, s.timeout));
}

} // verus!
