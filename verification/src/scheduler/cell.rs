//! Trusted boundary to `std::sync::Mutex`, used as a shared cell.
//!
//! A worker publishes its kind and state through such a cell and the pool
//! reads them from another thread. What a read returns therefore depends on
//! the other thread, and no item here promises anything about it.

use std::sync::Arc;
use std::sync::Mutex;
use vstd::prelude::*;

verus! {

/// `std::sync::Mutex`, carried as an opaque value.
#[verifier::external_type_specification]
#[verifier::external_body]
#[verifier::reject_recursive_types(T)]
pub struct ExMutex<T: ?Sized>(Mutex<T>);

/// `Mutex::new`: a mutex that holds `value`. Nothing is claimed of it.
pub assume_specification<T>[ Mutex::<T>::new ](value: T) -> (mutex: Mutex<T>);

/// `Arc::clone`: another handle to the same cell. Nothing is claimed.
#[verifier::external_body]
pub(crate) fn share<T>(cell: &Arc<Mutex<T>>) -> (handle: Arc<Mutex<T>>) {
    Arc::clone(cell)
}

/// `Mutex::lock`, then a copy of the value it guards. A poisoned lock still
/// yields its value. Nothing is claimed of the value: another thread may have
/// stored it.
#[verifier::external_body]
pub(crate) fn load<T: Copy>(cell: &Arc<Mutex<T>>) -> (value: T) {
    match cell.lock() {
        Ok(guard) => *guard,
        Err(poisoned) => *poisoned.into_inner(),
    }
}

/// `Mutex::lock`, then stores `value` in place of the guarded one. A poisoned
/// lock is written all the same.
#[verifier::external_body]
pub(crate) fn store<T>(cell: &Arc<Mutex<T>>, value: T) {
    match cell.lock() {
        Ok(mut guard) => *guard = value,
        Err(poisoned) => *poisoned.into_inner() = value,
    }
}

} // verus!
