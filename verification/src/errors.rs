use vstd::prelude::*;

verus! {

/// A store-side failure: the store rejected or failed a statement for a
/// reason unrelated to lease validity. In the store model the only such
/// reasons are the machine limits of its integer columns; an adapter
/// over a real store maps its native errors onto this kind.
#[derive(Debug, Clone, Copy, PartialEq, Eq, Structural)]
pub enum QueryError {
    /// The id sequence has no identifier left to assign.
    IdsExhausted,
    /// The row's refresh counter cannot be incremented further.
    CounterSaturated,
}

/// Error taxonomy of the lease protocol. `P` is the error type of the
/// connection provider in use; operations that run against an in-memory
/// [`crate::store::LeaseStore`] never produce the `Provider` kind, but
/// the taxonomy carries it so that a caller's error channel covers every
/// failure an adapter over a real store can meet.
#[derive(Debug, PartialEq, Eq, Structural)]
pub enum PleaseError<P> {
    /// The connection provider could not supply a connection.
    Provider(P),
    /// The store rejected or failed a query; the lease may still be live.
    Query(QueryError),
    /// The lease referenced by this handle no longer has a row.
    Expired,
}

impl QueryError {
    /// What this failure means, as contracts state it.
    pub open spec fn message_spec(self) -> Seq<char> {
        match self {
            QueryError::IdsExhausted => "the store's id sequence is exhausted"@,
            QueryError::CounterSaturated => "the row's refresh counter is saturated"@,
        }
    }

    /// A short description of the failure, in place of a `Display`
    /// rendering.
    pub fn message(&self) -> (r: &'static str)
        ensures
            r@ == self.message_spec(),
    {
        match self {
            QueryError::IdsExhausted => "the store's id sequence is exhausted",
            QueryError::CounterSaturated => "the row's refresh counter is saturated",
        }
    }
}

impl<P> PleaseError<P> {
    /// What each kind of error means, as contracts state it.
    pub open spec fn message_spec(self) -> Seq<char> {
        match self {
            PleaseError::Provider(_) => "the connection provider could not supply a connection"@,
            PleaseError::Query(q) => q.message_spec(),
            PleaseError::Expired => "The `please` handle has expired and can no longer be used"@,
        }
    }

    /// A short description of the error, in place of a `Display`
    /// rendering; an adapter that carries a native payload renders
    /// that payload itself.
    pub fn message(&self) -> (r: &'static str)
        ensures
            r@ == self.message_spec(),
    {
        match self {
            PleaseError::Provider(_) => "the connection provider could not supply a connection",
            PleaseError::Query(q) => q.message(),
            PleaseError::Expired => "The `please` handle has expired and can no longer be used",
        }
    }
}

/// Convenient alias for `Result` types returned from this library.
pub type PleaseResult<T, P> = Result<T, PleaseError<P>>;

/// That `e` is a value the caller's own conversion from the lease error
/// taxonomy can produce for `src`: the one fact the transaction adapter
/// can promise of an error it injected into the caller's channel.
pub open spec fn funnels_to<P, E: From<PleaseError<P>>>(src: PleaseError<P>, e: E) -> bool {
    call_ensures(<E as From<PleaseError<P>>>::from, (src,), e)
}

/// Inject a lease error into the caller's error channel through the
/// conversion the caller's error type supplies.
pub(crate) fn funnel<P, E: From<PleaseError<P>>>(src: PleaseError<P>) -> (e: E)
    ensures
        funnels_to(src, e),
{
    let f = <E as From<PleaseError<P>>>::from;
    f(src)
}

} // verus!
