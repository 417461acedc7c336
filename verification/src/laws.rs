//! The guarantees the context gives across whole resolution histories,
//! stated over the abstract stores that the resolution contracts speak of.

use vstd::prelude::*;

use crate::context::{map_extends, BeansContext};

verus! {

/// Idempotent reference identity: a binding, once made, survives any
/// further evolution of a store unchanged. A resolution that finds its key
/// bound — in particular, a repeated resolution of the same type, with or
/// without other resolutions in between — is therefore a hit on the very
/// stamp the first resolution returned: both handles come from the same
/// construction event and share the identical underlying instance. The
/// same stability is what lets a dependency embedded during an earlier
/// construction coincide with any later independent resolution of it.
pub proof fn lemma_binding_stable(pre: Map<u64, int>, post: Map<u64, int>, k: u64)
    requires
        map_extends(pre, post),
        pre.contains_key(k),
    ensures
        post.contains_key(k),
        post[k] == pre[k],
{
}

/// Store evolution composes: a chain of resolutions, each of which only
/// extends a store, only extends the store.
pub proof fn lemma_extends_transitive(first: Map<u64, int>, second: Map<u64, int>, third: Map<
    u64,
    int,
>)
    requires
        map_extends(first, second),
        map_extends(second, third),
    ensures
        map_extends(first, third),
{
}

/// Freshness: a stamp at or beyond a well-formed context's watermark — as
/// handed out by a resolution that constructed — belongs to no instance
/// already cached in either store. A fresh construction is never mistaken
/// for, and never aliases, a cached instance.
pub proof fn lemma_fresh_stamp_distinct(ctx: BeansContext, stamp: int, k: u64)
    requires
        ctx.wf(),
        ctx.next_stamp() <= stamp,
    ensures
        ctx.sync_map().contains_key(k) ==> ctx.sync_map()[k] != stamp,
        ctx.async_map().contains_key(k) ==> ctx.async_map()[k] != stamp,
{
}

} // verus!
