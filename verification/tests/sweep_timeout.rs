use please::PleaseError;
use please::PleaseHandle;
use please::QueryError;
use please::store::LeaseStore;

#[test]
fn sweep_removes_only_timed_out() {
    let mut store = LeaseStore::new(100);
    let old_job =
        PleaseHandle::new::<i32>(&mut store, "old-job").expect("Failed to create handle");
    store.advance_clock(150);
    let fresh_job =
        PleaseHandle::new::<i32>(&mut store, "fresh-job").expect("Failed to create handle");

    let swept = PleaseHandle::perform_cleanup::<i32>(&mut store).expect("Cleanup should succeed");

    assert_eq!(swept.len(), 1);
    assert_eq!(swept[0].id(), old_job.id());
    assert_eq!(store.lease_count(), 1);
    assert!(!store.contains_id(old_job.id()));
    assert!(store.contains_id(fresh_job.id()));
}

#[test]
fn sweep_keeps_row_expiring_exactly_now() {
    let mut store = LeaseStore::new(100);
    let handle = PleaseHandle::new::<i32>(&mut store, "on-the-dot").expect("Failed to create handle");
    // Removal requires expiry strictly before the clock; equal is kept.
    store.advance_clock(100);

    let swept = PleaseHandle::perform_cleanup::<i32>(&mut store).expect("Cleanup should succeed");
    assert_eq!(swept.len(), 0);
    assert!(store.contains_id(handle.id()));

    store.advance_clock(1);
    let swept = PleaseHandle::perform_cleanup::<i32>(&mut store).expect("Cleanup should succeed");
    assert_eq!(swept.len(), 1);
    assert_eq!(swept[0].id(), handle.id());
}

#[test]
fn timeout_then_sweep_expires_handle() {
    let mut store = LeaseStore::new(100);
    let mut handle =
        PleaseHandle::new::<i32>(&mut store, "abandoned").expect("Failed to create handle");

    store.advance_clock(101);
    let swept = PleaseHandle::perform_cleanup::<i32>(&mut store).expect("Cleanup should succeed");
    assert_eq!(swept.len(), 1);
    assert_eq!(swept[0].id(), handle.id());
    assert_eq!(swept[0].refresh_count(), 0);

    let err = handle
        .transaction::<i32, (), PleaseError<i32>, _>(&mut store, |_id| Ok(()))
        .expect_err("Transaction on swept handle should fail");
    assert_eq!(err, PleaseError::Expired);
}

#[test]
fn refresh_outruns_sweep() {
    let mut store = LeaseStore::new(100);
    let mut handle =
        PleaseHandle::new::<i32>(&mut store, "diligent").expect("Failed to create handle");

    store.advance_clock(90);
    handle.refresh::<i32>(&mut store).expect("Refresh should succeed");
    store.advance_clock(90);

    // The refresh at time 90 moved the expiry to 190, past the clock.
    let swept = PleaseHandle::perform_cleanup::<i32>(&mut store).expect("Cleanup should succeed");
    assert_eq!(swept.len(), 0);
    assert!(store.contains_id(handle.id()));
}

#[test]
fn cleanup_before_create() {
    let mut store = LeaseStore::new(100);
    let stale = PleaseHandle::new::<i32>(&mut store, "stale").expect("Failed to create handle");
    store.advance_clock(200);

    let fresh = PleaseHandle::new_with_cleanup::<i32>(&mut store, "fresh")
        .expect("Failed to create handle with cleanup");

    assert_eq!(store.lease_count(), 1);
    assert!(!store.contains_id(stale.id()));
    assert!(store.contains_id(fresh.id()));
}

#[test]
fn ids_exhausted_error() {
    let mut store = LeaseStore::with_sequence(60, i32::MAX);

    let err = PleaseHandle::new::<i32>(&mut store, "no-room").expect_err("Insert should fail");
    assert_eq!(err, PleaseError::Query(QueryError::IdsExhausted));

    let err = PleaseHandle::new_with_connection(&mut store, "no-room")
        .expect_err("Insert should fail");
    assert_eq!(err, QueryError::IdsExhausted);

    assert_eq!(store.lease_count(), 0);
}

#[test]
fn error_messages() {
    assert_eq!(
        PleaseError::<i32>::Expired.message(),
        "The `please` handle has expired and can no longer be used"
    );
    assert_eq!(
        PleaseError::<i32>::Provider(3).message(),
        "the connection provider could not supply a connection"
    );
    assert_eq!(QueryError::IdsExhausted.message(), "the store's id sequence is exhausted");
    assert_eq!(QueryError::CounterSaturated.message(), "the row's refresh counter is saturated");
    assert_eq!(
        PleaseError::<i32>::Query(QueryError::CounterSaturated).message(),
        "the row's refresh counter is saturated"
    );
}

#[test]
fn sweep_on_empty_store() {
    let mut store = LeaseStore::new(100);
    let swept = PleaseHandle::perform_cleanup::<i32>(&mut store).expect("Cleanup should succeed");
    assert_eq!(swept.len(), 0);
    assert_eq!(store.lease_count(), 0);
}
