//! A lease primitive for coordinating long-running operations.
//!
//! A process registers, as a durable record in a shared store, that it
//! is performing a named long-running activity; other processes can
//! detect and reclaim abandoned activities once a timeout elapses.
//! The core protocol — atomic creation, combined validate-and-refresh,
//! expiry-driven cleanup, and explicit and implicit release — is
//! implemented and verified here against an explicit model of the
//! store ([`store::LeaseStore`]): a table of lease rows together with
//! the store's clock and its configured timeout. An application talks
//! to a real backing store through an adapter that replays the same
//! protocol over its connections.

pub mod errors;
pub mod handle;
pub mod laws;
pub mod record;
pub mod store;

pub use errors::PleaseError;
pub use errors::PleaseResult;
pub use errors::QueryError;
pub use handle::PleaseHandle;
pub use record::ExpiredId;
pub use record::LeaseRecord;
pub use record::RecordModel;
pub use store::LeaseStore;
