//! Type-erased storage for constructed instances.
//!
//! A store holds instances of many different types behind one value type,
//! [`ErasedArc`]. The holder is opaque: which concrete type sits inside is
//! tracked by the context's own bookkeeping, and retrieval re-checks it
//! dynamically, failing loudly on a mismatch rather than ever coercing.

use vstd::prelude::*;

use std::any::Any;
use std::sync::Arc;

verus! {

/// An opaque, reference-counted holder for one constructed instance of an
/// arbitrary `'static` type.
#[verifier::external_body]
pub struct ErasedArc {
    handle: Arc<dyn Any + Send + Sync>,
}

/// Relies on `Arc::clone` and the unsized coercion to `dyn Any`: wraps a new
/// shared reference to the given instance and has no other effect.
///
/// Nothing is stated of the result: which instance a holder contains is not
/// visible to the verifier. The context records, next to each holder, a
/// construction stamp that identifies the instance it was erased from.
#[verifier::external_body]
pub(crate) fn erase<T: Send + Sync + 'static>(value: &Arc<T>) -> ErasedArc {
    ErasedArc { handle: value.clone() }
}

/// Relies on `Arc::downcast` (and `Arc::clone`): returns a shared reference
/// to the held instance exactly when its dynamic type is `T`, and `None`
/// otherwise. Never panics.
///
/// Nothing is stated of the result: whether the dynamic type matches is not
/// visible to the verifier, so every caller must handle both outcomes.
#[verifier::external_body]
pub(crate) fn unerase<T: Send + Sync + 'static>(holder: &ErasedArc) -> Option<Arc<T>> {
    holder.handle.clone().downcast::<T>().ok()
}

} // verus!
