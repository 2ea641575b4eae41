use vstd::prelude::*;

verus! {

/// One persisted lease row, as the store keeps it. The store assigns
/// `id`, `creation` and `expiry`; the client supplies only `title`.
/// Timestamps are counted in seconds by the store's own clock.
#[derive(Debug, Clone)]
pub struct LeaseRecord {
    /// Store-assigned identifier; unique, never reused.
    pub id: i32,
    /// Clock reading at the moment the row was inserted.
    pub creation: i64,
    /// Deadline after which the row may be swept; advanced on every
    /// successful refresh to "now + configured timeout".
    pub expiry: i64,
    /// Caller-supplied human-readable label; immutable after creation.
    pub title: String,
    /// Number of successful refreshes; diagnostic only.
    pub refresh_count: i32,
}

/// Mathematical image of one lease row.
pub struct RecordModel {
    pub id: int,
    pub creation: int,
    pub expiry: int,
    pub title: Seq<char>,
    pub refresh_count: int,
}

impl View for LeaseRecord {
    type V = RecordModel;

    open spec fn view(&self) -> RecordModel {
        RecordModel {
            id: self.id as int,
            creation: self.creation as int,
            expiry: self.expiry as int,
            title: self.title@,
            refresh_count: self.refresh_count as int,
        }
    }
}

impl DeepView for LeaseRecord {
    type V = RecordModel;

    open spec fn deep_view(&self) -> RecordModel {
        self.view()
    }
}

impl LeaseRecord {
    /// A field-for-field copy of the row.
    pub fn duplicate(&self) -> (r: LeaseRecord)
        ensures
            r@ == self@,
    {
        LeaseRecord {
            id: self.id,
            creation: self.creation,
            expiry: self.expiry,
            title: self.title.clone(),
            refresh_count: self.refresh_count,
        }
    }
}

/// Immutable snapshot of a lease row taken at the moment it was removed
/// (by a sweep or by a forced expire); used only for diagnostics.
#[derive(Debug, Clone)]
pub struct ExpiredId {
    record: LeaseRecord,
}

impl View for ExpiredId {
    type V = RecordModel;

    closed spec fn view(&self) -> RecordModel {
        self.record@
    }
}

impl DeepView for ExpiredId {
    type V = RecordModel;

    closed spec fn deep_view(&self) -> RecordModel {
        self.record@
    }
}

impl ExpiredId {
    /// Wrap a removed row as a snapshot.
    pub(crate) fn from_record(record: LeaseRecord) -> (r: ExpiredId)
        ensures
            r@ == record@,
            r.deep_view() == record@,
    {
        ExpiredId { record }
    }

    /// The identifier the removed row had.
    pub fn id(&self) -> (r: i32)
        ensures
            r as int == self@.id,
    {
        self.record.id
    }

    /// The refresh count the removed row had.
    pub fn refresh_count(&self) -> (r: i32)
        ensures
            r as int == self@.refresh_count,
    {
        self.record.refresh_count
    }

    /// The expiry deadline the removed row had.
    pub fn expiry(&self) -> (r: i64)
        ensures
            r as int == self@.expiry,
    {
        self.record.expiry
    }

    /// The label the removed row carried.
    pub fn title(&self) -> (r: &str)
        ensures
            r@ == self@.title,
    {
        self.record.title.as_str()
    }
}

} // verus!
