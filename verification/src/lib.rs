//! Cross-boundary asynchronous correlation engine.
//!
//! A native caller issues a logical "send request, await response" operation
//! against a platform, while the only primitive available across the foreign
//! boundary is "invoke a method that later triggers an unrelated inbound
//! completion callback, correlated only by opaque integer handles". This crate
//! holds the verified core of that bridge: handle allocation, the per-platform
//! pending-request table, the platform registry, and the decisions that turn an
//! inbound completion into the resolution of exactly one outstanding call.
//!
//! The asynchronous plumbing itself (channels, locks, the foreign invocation)
//! lives outside this crate; the functions here are the state transitions that
//! plumbing drives, each with a contract that pins down its effect.

pub mod diagnostics;
pub mod handle_map;
pub mod handles;
pub mod platform;
pub mod registry;
