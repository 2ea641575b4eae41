use please::PleaseError;
use please::PleaseHandle;
use please::store::LeaseStore;
use please::handle::CLOSED_ID;

#[test]
fn smoke() {
    let mut store = LeaseStore::new(120);
    let mut handle = PleaseHandle::new::<i32>(&mut store, "smoke").expect("Failed to create handle");

    handle
        .transaction::<i32, (), PleaseError<i32>, _>(&mut store, |_id| Ok(()))
        .expect("Failed to run no-op transaction");

    handle.close::<i32>(&mut store).expect("Failed to close handle");
}

#[test]
fn smoke_with_connection() {
    let mut store = LeaseStore::new(120);
    let mut handle =
        PleaseHandle::new_with_connection(&mut store, "smoke").expect("Failed to run transaction");

    handle
        .transaction::<i32, (), PleaseError<i32>, _>(&mut store, |_id| Ok(()))
        .expect("Failed to run no-op transaction");

    handle.close::<i32>(&mut store).expect("Failed to close handle");
}

#[test]
fn two_handles() {
    let mut store = LeaseStore::new(120);
    let mut handle1 =
        PleaseHandle::new::<i32>(&mut store, "two_handles::1").expect("Failed to create handle");
    let mut handle2 =
        PleaseHandle::new::<i32>(&mut store, "two_handles::2").expect("Failed to create handle");

    let id2 = handle2.id();
    handle1
        .transaction::<i32, (), PleaseError<i32>, _>(&mut store, |id1| {
            assert_ne!(id1, id2);
            Ok(())
        })
        .expect("Failed to run transactions");
    let id1 = handle1.id();
    handle2
        .transaction::<i32, (), PleaseError<i32>, _>(&mut store, |id| {
            assert_ne!(id1, id);
            Ok(())
        })
        .expect("Failed to run transactions");

    handle1.close::<i32>(&mut store).expect("Failed to close handle 1");
    handle2.close::<i32>(&mut store).expect("Failed to close handle 2");
}

#[test]
fn expiry() {
    let mut store = LeaseStore::new(120);
    let mut handle = PleaseHandle::new::<i32>(&mut store, "smoke").expect("Failed to create handle");

    handle.expire::<i32>(&mut store).expect("Failed to expire handle");

    let err = handle
        .transaction::<i32, (), PleaseError<i32>, _>(&mut store, |_id| Ok(()))
        .expect_err("Transaction should fail on expired handle");

    assert_eq!(err, PleaseError::Expired);
}

#[test]
fn first_transaction_bumps_count() {
    let mut store = LeaseStore::new(120);
    let mut handle =
        PleaseHandle::new::<i32>(&mut store, "counted").expect("Failed to create handle");
    assert_eq!(store.refresh_count_of(handle.id()), Some(0));

    handle
        .transaction::<i32, (), PleaseError<i32>, _>(&mut store, |_id| Ok(()))
        .expect("Failed to run first transaction");

    assert_eq!(store.refresh_count_of(handle.id()), Some(1));
}

#[test]
fn expire_twice_fails() {
    let mut store = LeaseStore::new(120);
    let mut handle =
        PleaseHandle::new::<i32>(&mut store, "fleeting").expect("Failed to create handle");

    handle.expire::<i32>(&mut store).expect("First expire should succeed");

    let again = handle
        .expire::<i32>(&mut store)
        .expect_err("Second expire should fail");
    assert_eq!(again, PleaseError::Expired);

    let refreshed = handle
        .refresh::<i32>(&mut store)
        .expect_err("Refresh should fail after expire");
    assert_eq!(refreshed, PleaseError::Expired);
}

#[test]
fn close_is_idempotent() {
    let mut store = LeaseStore::new(120);
    let mut handle =
        PleaseHandle::new::<i32>(&mut store, "closing").expect("Failed to create handle");

    handle.close::<i32>(&mut store).expect("First close should succeed");
    assert_eq!(handle.id(), CLOSED_ID);
    assert_eq!(store.lease_count(), 0);

    handle.close::<i32>(&mut store).expect("Second close should be a no-op");
    assert_eq!(store.lease_count(), 0);
}

#[test]
fn release_after_close_touches_nothing() {
    let mut store = LeaseStore::new(120);
    let mut closed =
        PleaseHandle::new::<i32>(&mut store, "released").expect("Failed to create handle");
    let bystander =
        PleaseHandle::new::<i32>(&mut store, "bystander").expect("Failed to create handle");

    closed.close::<i32>(&mut store).expect("Close should succeed");
    closed.release(&mut store);

    assert_eq!(store.lease_count(), 1);
    assert!(store.contains_id(bystander.id()));
}

#[test]
fn release_deletes_open_handle_row() {
    let mut store = LeaseStore::new(120);
    let mut handle =
        PleaseHandle::new::<i32>(&mut store, "dropped").expect("Failed to create handle");

    handle.release(&mut store);
    assert_eq!(handle.id(), CLOSED_ID);
    assert_eq!(store.lease_count(), 0);

    // A second release is a no-op, never a second delete.
    handle.release(&mut store);
    assert_eq!(store.lease_count(), 0);
}

#[test]
fn rollback_on_closure_error() {
    let mut store = LeaseStore::new(120);
    let mut handle =
        PleaseHandle::new::<i32>(&mut store, "rolled-back").expect("Failed to create handle");

    let err = handle
        .transaction::<i32, (), PleaseError<i32>, _>(&mut store, |_id| {
            Err(PleaseError::Provider(7))
        })
        .expect_err("Closure error should surface");
    assert_eq!(err, PleaseError::Provider(7));

    // The failed transaction rolled back, the refresh with it.
    assert_eq!(store.refresh_count_of(handle.id()), Some(0));

    handle
        .transaction::<i32, (), PleaseError<i32>, _>(&mut store, |_id| Ok(()))
        .expect("Lease should still be valid after a rollback");
    assert_eq!(store.refresh_count_of(handle.id()), Some(1));
}

#[test]
fn refresh_extends_expiry() {
    let mut store = LeaseStore::new(120);
    let mut handle =
        PleaseHandle::new::<i32>(&mut store, "refreshed").expect("Failed to create handle");

    store.advance_clock(50);
    handle.refresh::<i32>(&mut store).expect("Refresh should succeed");

    let snap = handle.expire::<i32>(&mut store).expect("Expire should succeed");
    assert_eq!(snap.id(), handle.id());
    assert_eq!(snap.title(), "refreshed");
    assert_eq!(snap.refresh_count(), 1);
    // The refresh at time 50 moved the expiry to 50 + 120.
    assert_eq!(snap.expiry(), 170);
}

#[test]
fn two_jobs_lifecycle() {
    let mut store = LeaseStore::new(120);
    let mut a = PleaseHandle::new::<i32>(&mut store, "job-1").expect("Failed to create handle A");
    let mut b = PleaseHandle::new::<i32>(&mut store, "job-2").expect("Failed to create handle B");
    assert_ne!(a.id(), b.id());

    let ida = a.id();
    let idb = b.id();
    a.transaction::<i32, (), PleaseError<i32>, _>(&mut store, |id| {
        assert_eq!(id, ida);
        Ok(())
    })
    .expect("Transaction on A should succeed");
    b.transaction::<i32, (), PleaseError<i32>, _>(&mut store, |id| {
        assert_eq!(id, idb);
        Ok(())
    })
    .expect("Transaction on B should succeed");

    a.expire::<i32>(&mut store).expect("Expire on A should succeed");
    let err = a
        .transaction::<i32, (), PleaseError<i32>, _>(&mut store, |_id| Ok(()))
        .expect_err("Transaction on expired A should fail");
    assert_eq!(err, PleaseError::Expired);

    b.refresh::<i32>(&mut store).expect("B should be unaffected");
    b.close::<i32>(&mut store).expect("Close on B should succeed");

    let swept = PleaseHandle::perform_cleanup::<i32>(&mut store).expect("Cleanup should succeed");
    assert_eq!(swept.len(), 0);
    assert_eq!(store.lease_count(), 0);
}
