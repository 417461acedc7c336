//! The context: a keyed, lazily filled cache of shared instances.
//!
//! The context owns two independent stores, one per construction family.
//! Each store maps a type's identifying key to a type-erased, reference-
//! counted instance together with a construction stamp. The stamp is the
//! context's abstract notion of instance identity: each construction event
//! receives the next stamp, and a store binding `key -> stamp`, once made,
//! is never removed or replaced. Two resolutions that return the same stamp
//! for the same key therefore hand out the same underlying instance.
//!
//! Every resolution follows one algorithm: look the key up; on a hit,
//! return the cached instance (constructing nothing); on a miss, run the
//! type's constructor — which may recursively resolve its dependencies
//! through the same context — then publish the instance under a fresh
//! stamp. A fallible construction that fails publishes nothing, so a later
//! resolution retries from scratch.

use vstd::prelude::*;

use std::collections::HashMap;
use std::sync::Arc;

use crate::bean::{AsyncBean, AsyncTryBean, Bean, TryBean};
use crate::erased::{erase, unerase, ErasedArc};

verus! {

broadcast use vstd::std_specs::hash::group_hash_axioms;

/// One cached instance: the stamp of the construction event that produced
/// it, next to the erased instance that event published.
pub(crate) struct Entry {
    pub(crate) stamp: Ghost<int>,
    pub(crate) payload: ErasedArc,
}

/// A resolved instance: a shared reference to it, and the stamp of the
/// construction event it came from. Handles with equal stamps obtained for
/// the same key refer to the identical underlying instance.
#[derive(Clone)]
pub struct Shared<T> {
    /// The shared, reference-counted instance.
    pub value: Arc<T>,
    /// The stamp of the construction event that produced the instance.
    pub stamp: Ghost<int>,
}

/// The failure an infallible resolution can still report: the entry cached
/// under the requested key holds an instance of a different type. This
/// means two distinct types share one identifying key — an internal
/// invariant violation, reported loudly rather than silently coerced.
#[derive(Clone, Copy, Debug, PartialEq, Eq)]
pub enum ResolveError {
    /// The cached entry for this key is of a different type.
    TypeMismatch,
}

/// The failures a fallible resolution can report.
#[derive(Debug)]
pub enum TryError<E> {
    /// The cached entry for this key is of a different type.
    TypeMismatch,
    /// The type's constructor reported this domain error. Nothing was
    /// cached; a later resolution retries construction.
    Construction(E),
}

/// Holds when `post` binds every key `pre` binds, to the same stamp: the
/// store has only been extended, never shrunk or rewritten.
pub open spec fn map_extends(pre: Map<u64, int>, post: Map<u64, int>) -> bool {
    forall|k: u64|
        #[trigger] pre.contains_key(k) ==> post.contains_key(k) && post[k] == pre[k]
}

/// Holds when `post` is a legitimate evolution of `pre`: both stores only
/// grew, and the stamp watermark never moved backwards.
pub open spec fn context_extends(pre: BeansContext, post: BeansContext) -> bool {
    &&& map_extends(pre.sync_map(), post.sync_map())
    &&& map_extends(pre.async_map(), post.async_map())
    &&& pre.next_stamp() <= post.next_stamp()
}

/// Holds when `post` shows the very same observable state as `pre`.
pub open spec fn context_unchanged(pre: BeansContext, post: BeansContext) -> bool {
    &&& post.sync_map() == pre.sync_map()
    &&& post.async_map() == pre.async_map()
    &&& post.next_stamp() == pre.next_stamp()
}

/// The context. It owns every cached instance; dropping the context
/// releases each instance's reference count.
pub struct BeansContext {
    sync_entries: HashMap<u64, Entry>,
    async_entries: HashMap<u64, Entry>,
    next_stamp: Ghost<int>,
}

impl BeansContext {
    /// The synchronous store, abstractly: which key is bound to the stamp
    /// of which construction event.
    pub closed spec fn sync_map(self) -> Map<u64, int> {
        self.sync_entries@.map_values(|e: Entry| e.stamp@)
    }

    /// The asynchronous store, abstractly.
    pub closed spec fn async_map(self) -> Map<u64, int> {
        self.async_entries@.map_values(|e: Entry| e.stamp@)
    }

    /// The stamp the next construction event will receive.
    pub closed spec fn next_stamp(self) -> int {
        self.next_stamp@
    }

    /// Well-formedness: every cached stamp lies below the watermark, so a
    /// stamp at or beyond it is fresh — it belongs to no cached instance.
    pub open spec fn wf(self) -> bool {
        &&& forall|k: u64|
            #[trigger] self.sync_map().contains_key(k) ==> self.sync_map()[k] < self.next_stamp()
        &&& forall|k: u64|
            #[trigger] self.async_map().contains_key(k) ==> self.async_map()[k]
                < self.next_stamp()
    }

    /// Creates an empty context: nothing is constructed until first asked
    /// for.
    pub fn new() -> (ctx: BeansContext)
        ensures
            ctx.wf(),
            ctx.sync_map() == Map::<u64, int>::empty(),
            ctx.async_map() == Map::<u64, int>::empty(),
    {
        let ctx = BeansContext {
            sync_entries: HashMap::new(),
            async_entries: HashMap::new(),
            next_stamp: Ghost(0),
        };
        proof {
            assert(ctx.sync_map() =~= Map::<u64, int>::empty());
            assert(ctx.async_map() =~= Map::<u64, int>::empty());
        }
        ctx
    }

    /// Resolves the shared instance of `T`, constructing and caching it on
    /// first request.
    ///
    /// On a hit the context is untouched and the returned stamp is the
    /// cached binding's: repeated resolutions hand out the identical
    /// instance. On a miss the constructor runs and the instance is
    /// published under a fresh stamp; the asynchronous store is never
    /// touched. A mismatch is reported only when the key was already bound
    /// (necessarily by a distinct type sharing the key).
    pub fn get<T: Bean + Send + Sync + 'static>(&mut self) -> (resolved: Result<
        Shared<T>,
        ResolveError,
    >)
        requires
            old(self).wf(),
            !T::spec_deps().contains(T::spec_key()),
        ensures
            final(self).wf(),
            context_extends(*old(self), *final(self)),
            final(self).async_map() == old(self).async_map(),
            forall|k: u64|
                (#[trigger] final(self).sync_map().contains_key(k)) && !old(
                    self,
                ).sync_map().contains_key(k) ==> k == T::spec_key() || T::spec_deps().contains(k),
            !old(self).sync_map().contains_key(T::spec_key()) ==> resolved is Ok,
            match resolved {
                Ok(shared) => {
                    &&& final(self).sync_map().contains_key(T::spec_key())
                    &&& shared.stamp@ == final(self).sync_map()[T::spec_key()]
                    &&& old(self).sync_map().contains_key(T::spec_key()) ==> context_unchanged(
                        *old(self),
                        *final(self),
                    )
                    &&& !old(self).sync_map().contains_key(T::spec_key()) ==> old(
                        self,
                    ).next_stamp() <= shared.stamp@
                },
                Err(_) => {
                    &&& old(self).sync_map().contains_key(T::spec_key())
                    &&& context_unchanged(*old(self), *final(self))
                },
            },
    {
        let k = T::key();
        match self.sync_entries.get(&k) {
            Some(entry) => match unerase::<T>(&entry.payload) {
                Some(value) => Ok(Shared { value, stamp: entry.stamp }),
                None => Err(ResolveError::TypeMismatch),
            },
            None => {
                let instance = T::create(self);
                let ghost mid = *self;
                proof {
                    assert(!mid.sync_map().contains_key(k));
                }
                let value = Arc::new(instance);
                let payload = erase::<T>(&value);
                let stamp: Ghost<int> = Ghost(self.next_stamp@);
                let entry = Entry { stamp, payload };
                let ghost e = entry;
                self.sync_entries.insert(k, entry);
                self.next_stamp = Ghost(self.next_stamp@ + 1);
                proof {
                    lemma_publish_sync(mid, *self, k, e);
                }
                Ok(Shared { value, stamp })
            },
        }
    }

    /// Resolves the shared instance of `T`, constructing and caching it on
    /// first request, and propagating a construction failure untouched.
    ///
    /// A failed construction caches nothing under `T`'s key: a later
    /// resolution invokes the constructor again rather than returning a
    /// cached error. Dependencies the constructor resolved before failing
    /// legitimately stay cached.
    pub fn try_get<T: TryBean + Send + Sync + 'static>(&mut self) -> (resolved: Result<
        Shared<T>,
        TryError<T::Error>,
    >)
        requires
            old(self).wf(),
            !T::spec_deps().contains(T::spec_key()),
        ensures
            final(self).wf(),
            context_extends(*old(self), *final(self)),
            final(self).async_map() == old(self).async_map(),
            forall|k: u64|
                (#[trigger] final(self).sync_map().contains_key(k)) && !old(
                    self,
                ).sync_map().contains_key(k) ==> k == T::spec_key() || T::spec_deps().contains(k),
            match resolved {
                Ok(shared) => {
                    &&& final(self).sync_map().contains_key(T::spec_key())
                    &&& shared.stamp@ == final(self).sync_map()[T::spec_key()]
                    &&& old(self).sync_map().contains_key(T::spec_key()) ==> context_unchanged(
                        *old(self),
                        *final(self),
                    )
                    &&& !old(self).sync_map().contains_key(T::spec_key()) ==> old(
                        self,
                    ).next_stamp() <= shared.stamp@
                },
                Err(TryError::TypeMismatch) => {
                    &&& old(self).sync_map().contains_key(T::spec_key())
                    &&& context_unchanged(*old(self), *final(self))
                },
                Err(TryError::Construction(_)) => {
                    &&& !old(self).sync_map().contains_key(T::spec_key())
                    &&& !final(self).sync_map().contains_key(T::spec_key())
                },
            },
    {
        let k = T::key();
        match self.sync_entries.get(&k) {
            Some(entry) => match unerase::<T>(&entry.payload) {
                Some(value) => Ok(Shared { value, stamp: entry.stamp }),
                None => Err(TryError::TypeMismatch),
            },
            None => {
                match T::create(self) {
                    Ok(instance) => {
                        let ghost mid = *self;
                        proof {
                            assert(!mid.sync_map().contains_key(k));
                        }
                        let value = Arc::new(instance);
                        let payload = erase::<T>(&value);
                        let stamp: Ghost<int> = Ghost(self.next_stamp@);
                        let entry = Entry { stamp, payload };
                        let ghost e = entry;
                        self.sync_entries.insert(k, entry);
                        self.next_stamp = Ghost(self.next_stamp@ + 1);
                        proof {
                            lemma_publish_sync(mid, *self, k, e);
                        }
                        Ok(Shared { value, stamp })
                    },
                    Err(failure) => Err(TryError::Construction(failure)),
                }
            },
        }
    }

    /// Resolves the shared instance of the asynchronously constructed `T`,
    /// constructing and caching it on first request.
    ///
    /// The instance lives in the asynchronous store; the synchronous store
    /// is never touched, so a pending asynchronous construction and a
    /// synchronous resolution cannot interfere.
    pub fn get_async<T: AsyncBean + Send + Sync + 'static>(&mut self) -> (resolved: Result<
        Shared<T>,
        ResolveError,
    >)
        requires
            old(self).wf(),
            !T::spec_deps().contains(T::spec_key()),
        ensures
            final(self).wf(),
            context_extends(*old(self), *final(self)),
            final(self).sync_map() == old(self).sync_map(),
            forall|k: u64|
                (#[trigger] final(self).async_map().contains_key(k)) && !old(
                    self,
                ).async_map().contains_key(k) ==> k == T::spec_key() || T::spec_deps().contains(k),
            !old(self).async_map().contains_key(T::spec_key()) ==> resolved is Ok,
            match resolved {
                Ok(shared) => {
                    &&& final(self).async_map().contains_key(T::spec_key())
                    &&& shared.stamp@ == final(self).async_map()[T::spec_key()]
                    &&& old(self).async_map().contains_key(T::spec_key()) ==> context_unchanged(
                        *old(self),
                        *final(self),
                    )
                    &&& !old(self).async_map().contains_key(T::spec_key()) ==> old(
                        self,
                    ).next_stamp() <= shared.stamp@
                },
                Err(_) => {
                    &&& old(self).async_map().contains_key(T::spec_key())
                    &&& context_unchanged(*old(self), *final(self))
                },
            },
    {
        let k = T::key();
        match self.async_entries.get(&k) {
            Some(entry) => match unerase::<T>(&entry.payload) {
                Some(value) => Ok(Shared { value, stamp: entry.stamp }),
                None => Err(ResolveError::TypeMismatch),
            },
            None => {
                let instance = T::create(self);
                let ghost mid = *self;
                proof {
                    assert(!mid.async_map().contains_key(k));
                }
                let value = Arc::new(instance);
                let payload = erase::<T>(&value);
                let stamp: Ghost<int> = Ghost(self.next_stamp@);
                let entry = Entry { stamp, payload };
                let ghost e = entry;
                self.async_entries.insert(k, entry);
                self.next_stamp = Ghost(self.next_stamp@ + 1);
                proof {
                    lemma_publish_async(mid, *self, k, e);
                }
                Ok(Shared { value, stamp })
            },
        }
    }

    /// Resolves the shared instance of the asynchronously constructed `T`,
    /// constructing and caching it on first request, and propagating a
    /// construction failure untouched.
    ///
    /// A failed construction caches nothing under `T`'s key: a later
    /// resolution invokes the constructor again rather than returning a
    /// cached error.
    pub fn try_get_async<T: AsyncTryBean + Send + Sync + 'static>(&mut self) -> (resolved: Result<
        Shared<T>,
        TryError<T::Error>,
    >)
        requires
            old(self).wf(),
            !T::spec_deps().contains(T::spec_key()),
        ensures
            final(self).wf(),
            context_extends(*old(self), *final(self)),
            final(self).sync_map() == old(self).sync_map(),
            forall|k: u64|
                (#[trigger] final(self).async_map().contains_key(k)) && !old(
                    self,
                ).async_map().contains_key(k) ==> k == T::spec_key() || T::spec_deps().contains(k),
            match resolved {
                Ok(shared) => {
                    &&& final(self).async_map().contains_key(T::spec_key())
                    &&& shared.stamp@ == final(self).async_map()[T::spec_key()]
                    &&& old(self).async_map().contains_key(T::spec_key()) ==> context_unchanged(
                        *old(self),
                        *final(self),
                    )
                    &&& !old(self).async_map().contains_key(T::spec_key()) ==> old(
                        self,
                    ).next_stamp() <= shared.stamp@
                },
                Err(TryError::TypeMismatch) => {
                    &&& old(self).async_map().contains_key(T::spec_key())
                    &&& context_unchanged(*old(self), *final(self))
                },
                Err(TryError::Construction(_)) => {
                    &&& !old(self).async_map().contains_key(T::spec_key())
                    &&& !final(self).async_map().contains_key(T::spec_key())
                },
            },
    {
        let k = T::key();
        match self.async_entries.get(&k) {
            Some(entry) => match unerase::<T>(&entry.payload) {
                Some(value) => Ok(Shared { value, stamp: entry.stamp }),
                None => Err(TryError::TypeMismatch),
            },
            None => {
                match T::create(self) {
                    Ok(instance) => {
                        let ghost mid = *self;
                        proof {
                            assert(!mid.async_map().contains_key(k));
                        }
                        let value = Arc::new(instance);
                        let payload = erase::<T>(&value);
                        let stamp: Ghost<int> = Ghost(self.next_stamp@);
                        let entry = Entry { stamp, payload };
                        let ghost e = entry;
                        self.async_entries.insert(k, entry);
                        self.next_stamp = Ghost(self.next_stamp@ + 1);
                        proof {
                            lemma_publish_async(mid, *self, k, e);
                        }
                        Ok(Shared { value, stamp })
                    },
                    Err(failure) => Err(TryError::Construction(failure)),
                }
            },
        }
    }
}

impl Default for BeansContext {
    /// An empty context, exactly as [`BeansContext::new`] creates it.
    fn default() -> (ctx: Self)
        ensures
            ctx.wf(),
            ctx.sync_map() == Map::<u64, int>::empty(),
            ctx.async_map() == Map::<u64, int>::empty(),
    {
        BeansContext::new()
    }
}

/// Publishing one entry in the synchronous store: the store gains exactly
/// the new binding, everything else — the rest of the store, the whole
/// asynchronous store — is as it was, and well-formedness is preserved
/// because the published stamp was the watermark.
proof fn lemma_publish_sync(mid: BeansContext, post: BeansContext, k: u64, e: Entry)
    requires
        mid.wf(),
        !mid.sync_map().contains_key(k),
        e.stamp@ == mid.next_stamp@,
        post.next_stamp@ == mid.next_stamp@ + 1,
        post.async_entries@ == mid.async_entries@,
        post.sync_entries@ == mid.sync_entries@.insert(k, e),
    ensures
        post.wf(),
        map_extends(mid.sync_map(), post.sync_map()),
        post.async_map() == mid.async_map(),
        post.sync_map().contains_key(k),
        post.sync_map()[k] == e.stamp@,
        post.sync_map() == mid.sync_map().insert(k, e.stamp@),
{
    assert(post.sync_map() =~= mid.sync_map().insert(k, e.stamp@));
    assert(post.async_map() =~= mid.async_map());
    assert forall|k2: u64| #[trigger] post.sync_map().contains_key(k2) implies post.sync_map()[k2]
        < post.next_stamp() by {
        if k2 != k {
            assert(mid.sync_map().contains_key(k2));
        }
    }
    assert forall|k2: u64| #[trigger] post.async_map().contains_key(k2) implies post.async_map()[k2]
        < post.next_stamp() by {
        assert(mid.async_map().contains_key(k2));
    }
}

/// Publishing one entry in the asynchronous store, the mirror image of
/// [`lemma_publish_sync`].
proof fn lemma_publish_async(mid: BeansContext, post: BeansContext, k: u64, e: Entry)
    requires
        mid.wf(),
        !mid.async_map().contains_key(k),
        e.stamp@ == mid.next_stamp@,
        post.next_stamp@ == mid.next_stamp@ + 1,
        post.sync_entries@ == mid.sync_entries@,
        post.async_entries@ == mid.async_entries@.insert(k, e),
    ensures
        post.wf(),
        map_extends(mid.async_map(), post.async_map()),
        post.sync_map() == mid.sync_map(),
        post.async_map().contains_key(k),
        post.async_map()[k] == e.stamp@,
        post.async_map() == mid.async_map().insert(k, e.stamp@),
{
    assert(post.async_map() =~= mid.async_map().insert(k, e.stamp@));
    assert(post.sync_map() =~= mid.sync_map());
    assert forall|k2: u64| #[trigger] post.async_map().contains_key(k2) implies post.async_map()[k2]
        < post.next_stamp() by {
        if k2 != k {
            assert(mid.async_map().contains_key(k2));
        }
    }
    assert forall|k2: u64| #[trigger] post.sync_map().contains_key(k2) implies post.sync_map()[k2]
        < post.next_stamp() by {
        assert(mid.sync_map().contains_key(k2));
    }
}

} // verus!
