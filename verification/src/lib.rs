//! A verified model of the reactive rendering core behind a server-rendered,
//! selectively hydrated news-listing UI: a dependency-tracked cell store,
//! an async resource manager with last-key-wins caching, suspense boundaries,
//! a nested router with a permission-gated guard, and an island hydration
//! partitioner with a round-tripping payload codec.

pub mod demo;
pub mod hydrate;
pub mod island;
pub mod reactive;
pub mod resource;
pub mod router;
pub mod suspense;
