//! Shared-state plumbing for the callers that run the services across
//! threads.

use vstd::prelude::*;

verus! {

/// `std::sync::Mutex`, declared so that it can appear in signatures; its
/// contents stay opaque here.
#[verifier::external_type_specification]
#[verifier::external_body]
#[verifier::reject_recursive_types(T)]
pub struct ExMutex<T: ?Sized>(std::sync::Mutex<T>);

/// Relies on `Arc::new` and `Mutex::new`: wraps a value for shared
/// mutation across threads.
#[verifier::external_body]
pub fn sync<T>(obj: T) -> std::sync::Arc<std::sync::Mutex<T>> {
    std::sync::Arc::new(std::sync::Mutex::new(obj))
}

} // verus!
