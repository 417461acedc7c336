//! A minimal dependency-injection runtime: a keyed context that lazily
//! constructs and memoizes one shared instance per participating type.
//!
//! The context keeps two independent stores, one for synchronously
//! constructed instances and one for asynchronously constructed ones, so
//! that the two families of constructors never interfere. Every resolution
//! follows the same lazy algorithm: look the key up, and only on a miss run
//! the type's constructor and publish the result.
//!
//! A context is borrowed exclusively for the whole of a resolution, so a
//! first-time construction runs exactly once per context: there is no
//! check-then-act window in which two first accesses could both construct.
//! Sharing one context across threads or tasks is the owner's concern — a
//! shell that serializes each family behind a lock keeps that guarantee.

pub mod bean;
pub mod context;
pub mod erased;
pub mod laws;

pub use bean::{AsyncBean, AsyncTryBean, Bean, TryBean};
pub use context::{BeansContext, ResolveError, Shared, TryError};
