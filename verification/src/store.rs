use vstd::prelude::*;

use crate::errors::QueryError;
use crate::record::ExpiredId;
use crate::record::LeaseRecord;
use crate::record::RecordModel;

verus! {

/// Mathematical image of the whole store: the lease table in insertion
/// order, the value the id sequence will assign next, the store's clock
/// and its configured timeout.
#[verifier::ext_equal]
pub struct StoreModel {
    pub leases: Seq<RecordModel>,
    pub next_id: int,
    pub now: int,
    pub timeout: int,
}

/// What the store guarantees of each row it holds: its id came from the
/// sequence, its timestamps fit the machine and never run ahead of the
/// clock, and its counter fits its column.
pub open spec fn row_wf(r: RecordModel, next_id: int, now: int, timeout: int) -> bool {
    &&& 1 <= r.id < next_id
    &&& 0 <= r.creation <= now
    &&& 0 <= r.expiry <= now + timeout
    &&& 0 <= r.refresh_count <= i32::MAX
}

/// No two rows carry the same id.
pub open spec fn distinct_ids(s: Seq<RecordModel>) -> bool {
    forall|i: int, j: int|
        #![trigger s[i], s[j]]
        0 <= i < j < s.len() ==> s[i].id != s[j].id
}

impl StoreModel {
    /// Whether some row carries `id`.
    pub open spec fn has_id(self, id: int) -> bool {
        exists|i: int| 0 <= i < self.leases.len() && (#[trigger] self.leases[i]).id == id
    }

    /// Index of the row carrying `id`; meaningful when `has_id(id)`
    /// holds, and then unique under `wf`.
    pub open spec fn index_of(self, id: int) -> int {
        choose|i: int| 0 <= i < self.leases.len() && (#[trigger] self.leases[i]).id == id
    }

    /// The row carrying `id`; meaningful when `has_id(id)` holds.
    pub open spec fn record_of(self, id: int) -> RecordModel {
        self.leases[self.index_of(id)]
    }

    /// Well-formedness: invariants the store maintains across every
    /// operation.
    pub open spec fn wf(self) -> bool {
        &&& 1 <= self.next_id <= i32::MAX
        &&& 0 <= self.now
        &&& 0 <= self.timeout
        &&& self.now + self.timeout <= i64::MAX
        &&& forall|i: int|
            0 <= i < self.leases.len() ==> row_wf(
                #[trigger] self.leases[i],
                self.next_id,
                self.now,
                self.timeout,
            )
        &&& distinct_ids(self.leases)
    }
}

/// The row that inserting `title` into store `s` creates: the store
/// assigns the next id from its sequence, stamps `creation` with its
/// clock, and sets the first expiry one timeout ahead.
pub open spec fn inserted_record(s: StoreModel, title: Seq<char>) -> RecordModel {
    RecordModel {
        id: s.next_id,
        creation: s.now,
        expiry: s.now + s.timeout,
        title: title,
        refresh_count: 0,
    }
}

/// The store after inserting a row titled `title`.
pub open spec fn insert_effect(s: StoreModel, title: Seq<char>) -> StoreModel {
    StoreModel {
        leases: s.leases.push(inserted_record(s, title)),
        next_id: s.next_id + 1,
        ..s
    }
}

/// The row `r` after one successful validate-and-refresh in store `s`:
/// the counter is bumped and the expiry moves one timeout ahead of the
/// store's clock.
pub open spec fn refreshed_record(r: RecordModel, s: StoreModel) -> RecordModel {
    RecordModel { expiry: s.now + s.timeout, refresh_count: r.refresh_count + 1, ..r }
}

/// The store after a successful validate-and-refresh of the row
/// carrying `id`; meaningful when `s.has_id(id)` holds.
pub open spec fn refresh_effect(s: StoreModel, id: int) -> StoreModel {
    StoreModel {
        leases: s.leases.update(s.index_of(id), refreshed_record(s.record_of(id), s)),
        ..s
    }
}

/// The store after deleting the row carrying `id`; meaningful when
/// `s.has_id(id)` holds.
pub open spec fn remove_effect(s: StoreModel, id: int) -> StoreModel {
    StoreModel { leases: s.leases.remove(s.index_of(id)), ..s }
}

/// The rows of `s` whose expiry lies strictly before `now`, in order:
/// exactly what a cleanup sweep at time `now` removes and returns.
pub open spec fn expired_of(s: Seq<RecordModel>, now: int) -> Seq<RecordModel>
    decreases s.len(),
{
    if s.len() == 0 {
        Seq::empty()
    } else if s.last().expiry < now {
        expired_of(s.drop_last(), now).push(s.last())
    } else {
        expired_of(s.drop_last(), now)
    }
}

/// The rows of `s` whose expiry is at or past `now`, in order: exactly
/// what a cleanup sweep at time `now` leaves untouched.
pub open spec fn live_of(s: Seq<RecordModel>, now: int) -> Seq<RecordModel>
    decreases s.len(),
{
    if s.len() == 0 {
        Seq::empty()
    } else if s.last().expiry < now {
        live_of(s.drop_last(), now)
    } else {
        live_of(s.drop_last(), now).push(s.last())
    }
}

/// The store after a cleanup sweep.
pub open spec fn sweep_effect(s: StoreModel) -> StoreModel {
    StoreModel { leases: live_of(s.leases, s.now), ..s }
}

/// An in-memory lease store: the persisted table of lease rows together
/// with the two store-side capabilities the protocol relies on — an
/// atomic id sequence and a clock from which the next expiry deadline
/// is computed. Every operation of the protocol is an atomic step on
/// this state, mirroring one store transaction.
pub struct LeaseStore {
    leases: Vec<LeaseRecord>,
    next_id: i32,
    now: i64,
    timeout: i64,
}

impl View for LeaseStore {
    type V = StoreModel;

    closed spec fn view(&self) -> StoreModel {
        StoreModel {
            leases: self.leases.deep_view(),
            next_id: self.next_id as int,
            now: self.now as int,
            timeout: self.timeout as int,
        }
    }
}

impl LeaseStore {
    /// A fresh store with no rows, its clock at zero, its id sequence
    /// at one, and the given timeout (in the clock's seconds).
    pub fn new(timeout: i64) -> (s: LeaseStore)
        requires
            0 <= timeout,
        ensures
            s@ == (StoreModel { leases: Seq::<RecordModel>::empty(), next_id: 1, now: 0, timeout: timeout as int }),
            s@.wf(),
    {
        let s = LeaseStore { leases: Vec::new(), next_id: 1, now: 0, timeout };
        proof {
            assert(s@.leases =~= Seq::<RecordModel>::empty());
            assert(s@ =~= StoreModel { leases: Seq::<RecordModel>::empty(), next_id: 1, now: 0, timeout: timeout as int });
        }
        s
    }

    /// A fresh store whose id sequence stands at `next_id` already, as
    /// when a store is reached whose sequence earlier generations have
    /// advanced. It holds no rows: their leases are assumed released.
    pub fn with_sequence(timeout: i64, next_id: i32) -> (s: LeaseStore)
        requires
            0 <= timeout,
            1 <= next_id,
        ensures
            s@ == (StoreModel {
                leases: Seq::<RecordModel>::empty(),
                next_id: next_id as int,
                now: 0,
                timeout: timeout as int,
            }),
            s@.wf(),
    {
        let s = LeaseStore { leases: Vec::new(), next_id, now: 0, timeout };
        proof {
            assert(s@.leases =~= Seq::<RecordModel>::empty());
            assert(s@ =~= StoreModel {
                leases: Seq::<RecordModel>::empty(),
                next_id: next_id as int,
                now: 0,
                timeout: timeout as int,
            });
        }
        s
    }

    /// Move the store's clock forward by `delta` seconds. Nothing else
    /// changes: rows time out only when a sweep observes the clock.
    pub fn advance_clock(&mut self, delta: i64)
        requires
            old(self)@.wf(),
            0 <= delta,
            old(self)@.now + delta + old(self)@.timeout <= i64::MAX,
        ensures
            final(self)@ == (StoreModel { now: old(self)@.now + delta, ..old(self)@ }),
            final(self)@.wf(),
    {
        self.now = self.now + delta;
    }

    /// The store's current clock reading.
    pub fn now(&self) -> (r: i64)
        ensures
            r as int == self@.now,
    {
        self.now
    }

    /// The configured timeout.
    pub fn timeout_secs(&self) -> (r: i64)
        ensures
            r as int == self@.timeout,
    {
        self.timeout
    }

    /// How many rows the table currently holds.
    pub fn lease_count(&self) -> (r: usize)
        ensures
            r as int == self@.leases.len(),
    {
        self.leases.len()
    }

    /// Whether some row carries `id`.
    pub fn contains_id(&self, id: i32) -> (r: bool)
        requires
            self@.wf(),
        ensures
            r == self@.has_id(id as int),
    {
        let n = self.leases.len();
        let mut i: usize = 0;
        while i < n
            invariant
                n == self@.leases.len(),
                0 <= i <= n,
                forall|j: int| 0 <= j < i ==> (#[trigger] self@.leases[j]).id != id as int,
            decreases n - i,
        {
            if self.leases[i].id == id {
                proof {
                    assert((self@.leases[i as int]).id == id as int);
                }
                return true;
            }
            i = i + 1;
        }
        false
    }

    /// The refresh counter of the row carrying `id`, or `None` when no
    /// row does.
    pub fn refresh_count_of(&self, id: i32) -> (r: Option<i32>)
        requires
            self@.wf(),
        ensures
            r is Some <==> self@.has_id(id as int),
            self@.has_id(id as int) ==> r == Some::<i32>(self@.record_of(id as int).refresh_count as i32),
    {
        let n = self.leases.len();
        let mut i: usize = 0;
        while i < n
            invariant
                self@.wf(),
                n == self@.leases.len(),
                0 <= i <= n,
                forall|j: int| 0 <= j < i ==> (#[trigger] self@.leases[j]).id != id as int,
            decreases n - i,
        {
            if self.leases[i].id == id {
                proof {
                    lemma_index_of_at(self@, id as int, i as int);
                }
                return Some(self.leases[i].refresh_count);
            }
            i = i + 1;
        }
        None
    }
}

impl LeaseStore {
    /// One `INSERT` of a row titled `title`, as the store executes it:
    /// the id comes from the sequence, the timestamps from the clock.
    /// Fails only when the id sequence is exhausted.
    pub(crate) fn insert(&mut self, title: &str) -> (r: Result<i32, QueryError>)
        requires
            old(self)@.wf(),
        ensures
            final(self)@.wf(),
            old(self)@.next_id == i32::MAX ==> r == Err::<i32, QueryError>(QueryError::IdsExhausted)
                && final(self)@ == old(self)@,
            old(self)@.next_id < i32::MAX ==> (r matches Ok(id) && id as int == old(self)@.next_id)
                && final(self)@ == insert_effect(old(self)@, title@),
    {
        if self.next_id == i32::MAX {
            return Err(QueryError::IdsExhausted);
        }
        let id = self.next_id;
        let rec = LeaseRecord {
            id,
            creation: self.now,
            expiry: self.now + self.timeout,
            title: title.to_owned(),
            refresh_count: 0,
        };
        self.leases.push(rec);
        self.next_id = id + 1;
        proof {
            let s0 = old(self)@;
            assert(self@.leases =~= s0.leases.push(inserted_record(s0, title@)));
            assert(self@ =~= insert_effect(s0, title@));
            lemma_insert_wf(s0, title@);
        }
        Ok(id)
    }

    /// One conditional `UPDATE`, as the combined validate-and-refresh
    /// step executes it: bump the refresh counter of the row carrying
    /// `id` — which moves its expiry one timeout ahead of the clock —
    /// and report how many rows matched. Touches nothing when no row
    /// matches; fails only when the matched row's counter cannot be
    /// incremented within its column.
    pub(crate) fn refresh_by_id(&mut self, id: i32) -> (r: Result<usize, QueryError>)
        requires
            old(self)@.wf(),
        ensures
            final(self)@.wf(),
            !old(self)@.has_id(id as int) ==> r == Ok::<usize, QueryError>(0) && final(self)@
                == old(self)@,
            old(self)@.has_id(id as int) && old(self)@.record_of(id as int).refresh_count
                == i32::MAX ==> r == Err::<usize, QueryError>(QueryError::CounterSaturated)
                && final(self)@ == old(self)@,
            old(self)@.has_id(id as int) && old(self)@.record_of(id as int).refresh_count
                < i32::MAX ==> r == Ok::<usize, QueryError>(1) && final(self)@ == refresh_effect(
                old(self)@,
                id as int,
            ),
    {
        let n = self.leases.len();
        let mut i: usize = 0;
        while i < n
            invariant
                old(self)@.wf(),
                *self == *old(self),
                n == self@.leases.len(),
                0 <= i <= n,
                forall|j: int| 0 <= j < i ==> (#[trigger] self@.leases[j]).id != id as int,
            decreases n - i,
        {
            if self.leases[i].id == id {
                proof {
                    lemma_index_of_at(self@, id as int, i as int);
                }
                if self.leases[i].refresh_count == i32::MAX {
                    return Err(QueryError::CounterSaturated);
                }
                let new_rec = LeaseRecord {
                    id,
                    creation: self.leases[i].creation,
                    expiry: self.now + self.timeout,
                    title: self.leases[i].title.clone(),
                    refresh_count: self.leases[i].refresh_count + 1,
                };
                self.leases[i] = new_rec;
                proof {
                    let s0 = old(self)@;
                    assert(self@.leases =~= s0.leases.update(
                        i as int,
                        refreshed_record(s0.record_of(id as int), s0),
                    ));
                    assert(self@ =~= refresh_effect(s0, id as int));
                    lemma_refresh_wf(s0, id as int);
                }
                return Ok(1);
            }
            i = i + 1;
        }
        Ok(0)
    }

    /// One unconditional `DELETE` of the row carrying `id`, as a forced
    /// expire executes it: the matched row — if any — is removed and
    /// handed back.
    pub(crate) fn delete_by_id(&mut self, id: i32) -> (r: Option<LeaseRecord>)
        requires
            old(self)@.wf(),
        ensures
            final(self)@.wf(),
            !old(self)@.has_id(id as int) ==> r is None && final(self)@ == old(self)@,
            old(self)@.has_id(id as int) ==> (r matches Some(rec) && rec@ == old(self)@.record_of(
                id as int,
            )) && final(self)@ == remove_effect(old(self)@, id as int),
    {
        let n = self.leases.len();
        let mut i: usize = 0;
        while i < n
            invariant
                old(self)@.wf(),
                *self == *old(self),
                n == self@.leases.len(),
                0 <= i <= n,
                forall|j: int| 0 <= j < i ==> (#[trigger] self@.leases[j]).id != id as int,
            decreases n - i,
        {
            if self.leases[i].id == id {
                proof {
                    lemma_index_of_at(self@, id as int, i as int);
                }
                let rec = self.leases.remove(i);
                proof {
                    let s0 = old(self)@;
                    assert(self@.leases =~= s0.leases.remove(i as int));
                    assert(self@ =~= remove_effect(s0, id as int));
                    lemma_remove_wf(s0, id as int);
                }
                return Some(rec);
            }
            i = i + 1;
        }
        None
    }
}

impl LeaseStore {
    /// One sweep `DELETE`, as the cleanup executes it: every row whose
    /// expiry lies strictly before the clock is removed; the removed
    /// rows come back as snapshots, in table order.
    pub(crate) fn sweep(&mut self) -> (swept: Vec<ExpiredId>)
        requires
            old(self)@.wf(),
        ensures
            final(self)@.wf(),
            final(self)@ == sweep_effect(old(self)@),
            swept.deep_view() == expired_of(old(self)@.leases, old(self)@.now),
    {
        let n = self.leases.len();
        let mut kept: Vec<LeaseRecord> = Vec::new();
        let mut swept: Vec<ExpiredId> = Vec::new();
        proof {
            assert(kept.deep_view() =~= live_of(self@.leases.take(0), self@.now));
            assert(swept.deep_view() =~= expired_of(self@.leases.take(0), self@.now));
        }
        let mut i: usize = 0;
        while i < n
            invariant
                old(self)@.wf(),
                *self == *old(self),
                n == self@.leases.len(),
                0 <= i <= n,
                kept.deep_view() == live_of(self@.leases.take(i as int), self@.now),
                swept.deep_view() == expired_of(self@.leases.take(i as int), self@.now),
            decreases n - i,
        {
            proof {
                assert(self@.leases.take(i as int + 1).drop_last() =~= self@.leases.take(i as int));
                assert(self@.leases.take(i as int + 1).last() == self@.leases[i as int]);
            }
            let rec = self.leases[i].duplicate();
            if rec.expiry < self.now {
                swept.push(ExpiredId::from_record(rec));
                proof {
                    assert(swept.deep_view() =~= expired_of(
                        self@.leases.take(i as int + 1),
                        self@.now,
                    ));
                }
            } else {
                kept.push(rec);
                proof {
                    assert(kept.deep_view() =~= live_of(self@.leases.take(i as int + 1), self@.now));
                }
            }
            i = i + 1;
        }
        proof {
            assert(self@.leases.take(n as int) =~= self@.leases);
        }
        self.leases = kept;
        proof {
            let s0 = old(self)@;
            assert(self@ =~= sweep_effect(s0));
            lemma_sweep_wf(s0);
        }
        swept
    }
}

impl LeaseStore {
    /// A deep copy of the store's state: what a rollback restores when
    /// a transaction fails after its validate-and-refresh step.
    pub(crate) fn snapshot(&self) -> (s: LeaseStore)
        ensures
            s@ == self@,
    {
        let n = self.leases.len();
        let mut rows: Vec<LeaseRecord> = Vec::new();
        proof {
            assert(rows.deep_view() =~= self@.leases.take(0));
        }
        let mut i: usize = 0;
        while i < n
            invariant
                n == self@.leases.len(),
                0 <= i <= n,
                rows.deep_view() == self@.leases.take(i as int),
            decreases n - i,
        {
            let rec = self.leases[i].duplicate();
            rows.push(rec);
            proof {
                assert(self@.leases.take(i as int + 1).drop_last() =~= self@.leases.take(i as int));
                assert(self@.leases.take(i as int + 1).last() == self@.leases[i as int]);
                assert(rows.deep_view() =~= self@.leases.take(i as int + 1));
            }
            i = i + 1;
        }
        let s = LeaseStore { leases: rows, next_id: self.next_id, now: self.now, timeout: self.timeout };
        proof {
            assert(s@.leases =~= self@.leases);
            assert(s@ =~= self@);
        }
        s
    }
}

/// Both halves of a sweep partition the table: the removed rows are
/// exactly those whose expiry lies strictly before `now`, the kept rows
/// exactly the others, each row of either half is a row of the table,
/// and together they account for every row.
pub proof fn lemma_sweep_partition(s: Seq<RecordModel>, now: int)
    ensures
        live_of(s, now).len() + expired_of(s, now).len() == s.len(),
        forall|i: int|
            0 <= i < live_of(s, now).len() ==> s.contains(#[trigger] live_of(s, now)[i])
                && live_of(s, now)[i].expiry >= now,
        forall|i: int|
            0 <= i < expired_of(s, now).len() ==> s.contains(#[trigger] expired_of(s, now)[i])
                && expired_of(s, now)[i].expiry < now,
        forall|i: int|
            0 <= i < s.len() && (#[trigger] s[i]).expiry < now ==> expired_of(s, now).contains(
                s[i],
            ),
        forall|i: int|
            0 <= i < s.len() && (#[trigger] s[i]).expiry >= now ==> live_of(s, now).contains(s[i]),
    decreases s.len(),
{
    if s.len() == 0 {
    } else {
        let t = s.drop_last();
        lemma_sweep_partition(t, now);
        assert(s.contains(s.last())) by {
            assert(s[s.len() - 1] == s.last());
        }
        assert forall|x: RecordModel| t.contains(x) implies s.contains(x) by {
            let j = choose|j: int| 0 <= j < t.len() && t[j] == x;
            assert(s[j] == x);
        }
        assert forall|i: int|
            0 <= i < s.len() && (#[trigger] s[i]).expiry < now implies expired_of(s, now).contains(
            s[i],
        ) by {
            if i < t.len() {
                assert(t[i] == s[i]);
                assert(expired_of(t, now).contains(s[i]));
                let j = choose|j: int|
                    0 <= j < expired_of(t, now).len() && expired_of(t, now)[j] == s[i];
                assert(expired_of(s, now)[j] == s[i]);
            } else {
                assert(s[i] == s.last());
                assert(expired_of(s, now).last() == s.last());
            }
        }
        assert forall|i: int|
            0 <= i < s.len() && (#[trigger] s[i]).expiry >= now implies live_of(s, now).contains(
            s[i],
        ) by {
            if i < t.len() {
                assert(t[i] == s[i]);
                assert(live_of(t, now).contains(s[i]));
                let j = choose|j: int| 0 <= j < live_of(t, now).len() && live_of(t, now)[j] == s[i];
                assert(live_of(s, now)[j] == s[i]);
            } else {
                assert(s[i] == s.last());
                assert(live_of(s, now).last() == s.last());
            }
        }
    }
}

/// A sweep never leaves two rows with one id: the kept rows inherit the
/// table's id distinctness.
pub proof fn lemma_live_distinct(s: Seq<RecordModel>, now: int)
    requires
        distinct_ids(s),
    ensures
        distinct_ids(live_of(s, now)),
    decreases s.len(),
{
    if s.len() == 0 {
    } else {
        let t = s.drop_last();
        assert(distinct_ids(t)) by {
            assert forall|i: int, j: int|
                #![trigger t[i], t[j]]
                0 <= i < j < t.len() implies t[i].id != t[j].id by {
                assert(s[i].id != s[j].id);
            }
        }
        lemma_live_distinct(t, now);
        lemma_sweep_partition(t, now);
        if s.last().expiry >= now {
            let lv = live_of(t, now).push(s.last());
            assert forall|i: int, j: int|
                #![trigger lv[i], lv[j]]
                0 <= i < j < lv.len() implies lv[i].id != lv[j].id by {
                if j < lv.len() - 1 {
                    assert(live_of(t, now)[i].id != live_of(t, now)[j].id);
                } else {
                    assert(t.contains(lv[i]));
                    let k = choose|k: int| 0 <= k < t.len() && t[k] == lv[i];
                    assert(s[k] == t[k]);
                    assert(s[k].id != s.last().id);
                }
            }
        }
    }
}

/// Inserting a row preserves the store's invariants: the assigned id
/// is fresh, so ids stay distinct.
pub proof fn lemma_insert_wf(s: StoreModel, title: Seq<char>)
    requires
        s.wf(),
        s.next_id < i32::MAX,
    ensures
        insert_effect(s, title).wf(),
{
    let s1 = insert_effect(s, title);
    assert forall|i: int| 0 <= i < s1.leases.len() implies row_wf(
        #[trigger] s1.leases[i],
        s1.next_id,
        s1.now,
        s1.timeout,
    ) by {
        if i < s.leases.len() {
            assert(row_wf(s.leases[i], s.next_id, s.now, s.timeout));
        }
    }
    assert forall|i: int, j: int|
        #![trigger s1.leases[i], s1.leases[j]]
        0 <= i < j < s1.leases.len() implies s1.leases[i].id != s1.leases[j].id by {
        if j < s.leases.len() {
            assert(s.leases[i].id != s.leases[j].id);
        } else {
            assert(row_wf(s.leases[i], s.next_id, s.now, s.timeout));
        }
    }
}

/// A successful validate-and-refresh preserves the store's invariants:
/// it touches one row, keeps its id, and moves its expiry to exactly
/// one timeout past the clock.
pub proof fn lemma_refresh_wf(s: StoreModel, id: int)
    requires
        s.wf(),
        s.has_id(id),
        s.record_of(id).refresh_count < i32::MAX,
    ensures
        refresh_effect(s, id).wf(),
{
    let s1 = refresh_effect(s, id);
    assert forall|k: int| 0 <= k < s1.leases.len() implies row_wf(
        #[trigger] s1.leases[k],
        s1.next_id,
        s1.now,
        s1.timeout,
    ) by {
        assert(row_wf(s.leases[k], s.next_id, s.now, s.timeout));
    }
    assert forall|k: int, l: int|
        #![trigger s1.leases[k], s1.leases[l]]
        0 <= k < l < s1.leases.len() implies s1.leases[k].id != s1.leases[l].id by {
        assert(s.leases[k].id != s.leases[l].id);
    }
}

/// Deleting a row preserves the store's invariants.
pub proof fn lemma_remove_wf(s: StoreModel, id: int)
    requires
        s.wf(),
        s.has_id(id),
    ensures
        remove_effect(s, id).wf(),
{
    let s1 = remove_effect(s, id);
    let i = s.index_of(id);
    assert forall|k: int| 0 <= k < s1.leases.len() implies row_wf(
        #[trigger] s1.leases[k],
        s1.next_id,
        s1.now,
        s1.timeout,
    ) by {
        if k < i {
            assert(row_wf(s.leases[k], s.next_id, s.now, s.timeout));
        } else {
            assert(row_wf(s.leases[k + 1], s.next_id, s.now, s.timeout));
        }
    }
    assert forall|k: int, l: int|
        #![trigger s1.leases[k], s1.leases[l]]
        0 <= k < l < s1.leases.len() implies s1.leases[k].id != s1.leases[l].id by {
        let k0 = if k < i {
            k
        } else {
            k + 1
        };
        let l0 = if l < i {
            l
        } else {
            l + 1
        };
        assert(s.leases[k0].id != s.leases[l0].id);
    }
}

/// A sweep preserves the store's invariants: it only removes rows.
pub proof fn lemma_sweep_wf(s: StoreModel)
    requires
        s.wf(),
    ensures
        sweep_effect(s).wf(),
{
    let s1 = sweep_effect(s);
    lemma_sweep_partition(s.leases, s.now);
    lemma_live_distinct(s.leases, s.now);
    assert forall|k: int| 0 <= k < s1.leases.len() implies row_wf(
        #[trigger] s1.leases[k],
        s1.next_id,
        s1.now,
        s1.timeout,
    ) by {
        assert(s.leases.contains(s1.leases[k]));
        let j = choose|j: int| 0 <= j < s.leases.len() && s.leases[j] == s1.leases[k];
        assert(row_wf(s.leases[j], s.next_id, s.now, s.timeout));
    }
}

/// Under distinct ids, the row found at index `i` is the row
/// `index_of` names.
pub proof fn lemma_index_of_at(s: StoreModel, id: int, i: int)
    requires
        distinct_ids(s.leases),
        0 <= i < s.leases.len(),
        s.leases[i].id == id,
    ensures
        s.has_id(id),
        s.index_of(id) == i,
        s.record_of(id) == s.leases[i],
{
    assert(s.has_id(id));
    let k = s.index_of(id);
    assert(0 <= k < s.leases.len() && s.leases[k].id == id);
    if k != i {
        assert(s.leases[k].id != s.leases[i].id);
    }
}

} // verus!
