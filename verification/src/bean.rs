//! The four constructor traits that participating types implement.
//!
//! Each trait names the type's identifying key and supplies one constructor.
//! A constructor receives the context itself, so it may resolve further
//! dependencies through the same lazy algorithm. The contracts bound what a
//! constructor may do to the context: it may only extend the stores (it never
//! removes or replaces an instance), it stays out of the store of the other
//! construction family, and every binding it adds is the key of one of its
//! declared dependencies. The declared dependency keys must not include the
//! type's own key — constructing a type in terms of itself is a dependency
//! cycle, which is unsupported.

use vstd::prelude::*;

use crate::context::{context_extends, BeansContext};

verus! {

/// A type the context constructs synchronously and infallibly.
pub trait Bean: Sized {
    /// The identifying key under which instances of this type are cached in
    /// the synchronous store. No two participating types should share a key;
    /// a collision is detected at resolution time and reported as a
    /// mismatch, never silently coerced.
    ///
    /// An implementation states its key by overriding this; the default
    /// stands only so that implementations outside verified code need not
    /// name it.
    open spec fn spec_key() -> u64 {
        0
    }

    /// The keys of every type this constructor may resolve, directly or
    /// through a dependency's own constructor: an upper bound on the
    /// bindings a construction may add to the synchronous store. The
    /// type's own key must not appear here — a type constructed in terms
    /// of itself is a dependency cycle, which is unsupported.
    ///
    /// An implementation states its dependency keys by overriding this.
    open spec fn spec_deps() -> Set<u64> {
        Set::empty()
    }

    /// Returns the identifying key; every call returns the same value.
    fn key() -> (k: u64)
        ensures
            k == Self::spec_key(),
    ;

    /// Constructs one instance, resolving dependencies through `ctx`.
    fn create(ctx: &mut BeansContext) -> (instance: Self)
        requires
            old(ctx).wf(),
        ensures
            final(ctx).wf(),
            context_extends(*old(ctx), *final(ctx)),
            final(ctx).async_map() == old(ctx).async_map(),
            forall|k: u64|
                (#[trigger] final(ctx).sync_map().contains_key(k)) && !old(
                    ctx,
                ).sync_map().contains_key(k) ==> Self::spec_deps().contains(k),
    ;
}

/// A type the context constructs asynchronously and infallibly. Its
/// instances live in the asynchronous store, so a pending asynchronous
/// construction never interferes with synchronous resolutions.
pub trait AsyncBean: Sized {
    /// The identifying key under which instances of this type are cached in
    /// the asynchronous store.
    ///
    /// An implementation states its key by overriding this; the default
    /// stands only so that implementations outside verified code need not
    /// name it.
    open spec fn spec_key() -> u64 {
        0
    }

    /// The keys of every type this constructor may resolve, directly or
    /// through a dependency's own constructor: an upper bound on the
    /// bindings a construction may add to the asynchronous store. The
    /// type's own key must not appear here.
    ///
    /// An implementation states its dependency keys by overriding this.
    open spec fn spec_deps() -> Set<u64> {
        Set::empty()
    }

    /// Returns the identifying key; every call returns the same value.
    fn key() -> (k: u64)
        ensures
            k == Self::spec_key(),
    ;

    /// Constructs one instance, resolving dependencies through `ctx`.
    fn create(ctx: &mut BeansContext) -> (instance: Self)
        requires
            old(ctx).wf(),
        ensures
            final(ctx).wf(),
            context_extends(*old(ctx), *final(ctx)),
            final(ctx).sync_map() == old(ctx).sync_map(),
            forall|k: u64|
                (#[trigger] final(ctx).async_map().contains_key(k)) && !old(
                    ctx,
                ).async_map().contains_key(k) ==> Self::spec_deps().contains(k),
    ;
}

/// A type the context constructs synchronously and fallibly. A failed
/// construction is surfaced to the caller untouched and caches nothing.
pub trait TryBean: Sized {
    /// The error a failed construction reports.
    type Error;

    /// The identifying key under which instances of this type are cached in
    /// the synchronous store.
    ///
    /// An implementation states its key by overriding this; the default
    /// stands only so that implementations outside verified code need not
    /// name it.
    open spec fn spec_key() -> u64 {
        0
    }

    /// The keys of every type this constructor may resolve, directly or
    /// through a dependency's own constructor. The type's own key must not
    /// appear here.
    ///
    /// An implementation states its dependency keys by overriding this.
    open spec fn spec_deps() -> Set<u64> {
        Set::empty()
    }

    /// Returns the identifying key; every call returns the same value.
    fn key() -> (k: u64)
        ensures
            k == Self::spec_key(),
    ;

    /// Constructs one instance or reports a domain error, resolving
    /// dependencies through `ctx`. Dependencies resolved before a failure
    /// legitimately stay cached; the contract bounds the context's evolution
    /// the same way for both outcomes.
    fn create(ctx: &mut BeansContext) -> (outcome: Result<Self, Self::Error>)
        requires
            old(ctx).wf(),
        ensures
            final(ctx).wf(),
            context_extends(*old(ctx), *final(ctx)),
            final(ctx).async_map() == old(ctx).async_map(),
            forall|k: u64|
                (#[trigger] final(ctx).sync_map().contains_key(k)) && !old(
                    ctx,
                ).sync_map().contains_key(k) ==> Self::spec_deps().contains(k),
    ;
}

/// A type the context constructs asynchronously and fallibly.
pub trait AsyncTryBean: Sized {
    /// The error a failed construction reports.
    type Error;

    /// The identifying key under which instances of this type are cached in
    /// the asynchronous store.
    ///
    /// An implementation states its key by overriding this; the default
    /// stands only so that implementations outside verified code need not
    /// name it.
    open spec fn spec_key() -> u64 {
        0
    }

    /// The keys of every type this constructor may resolve, directly or
    /// through a dependency's own constructor. The type's own key must not
    /// appear here.
    ///
    /// An implementation states its dependency keys by overriding this.
    open spec fn spec_deps() -> Set<u64> {
        Set::empty()
    }

    /// Returns the identifying key; every call returns the same value.
    fn key() -> (k: u64)
        ensures
            k == Self::spec_key(),
    ;

    /// Constructs one instance or reports a domain error, resolving
    /// dependencies through `ctx`.
    fn create(ctx: &mut BeansContext) -> (outcome: Result<Self, Self::Error>)
        requires
            old(ctx).wf(),
        ensures
            final(ctx).wf(),
            context_extends(*old(ctx), *final(ctx)),
            final(ctx).sync_map() == old(ctx).sync_map(),
            forall|k: u64|
                (#[trigger] final(ctx).async_map().contains_key(k)) && !old(
                    ctx,
                ).async_map().contains_key(k) ==> Self::spec_deps().contains(k),
    ;
}

} // verus!
