//! An in-process publish/subscribe event bus core.
//!
//! Producers emit named events with structured payloads; registered callbacks
//! are invoked asynchronously, in order, decoupled from the producing thread.
//! This crate holds the dispatch engine itself: the subscription registry, the
//! bounded delivery queue with its drop-on-full backpressure policy, and the
//! single-consumer dispatcher state machine that ties them together.
//!
//! The embedding around the core (a host-language binding, an async runtime,
//! the locks that share the registry and the channel between threads) lives
//! outside this crate; callbacks are represented here by opaque numeric
//! handles owned by that embedding. Delivery is fire-and-forget: a publisher
//! can never tell "delivered", "dropped on a full queue" and "callback failed"
//! apart, and teardown gives no drain guarantee — envelopes still queued when
//! the dispatcher stops are lost.

pub mod bus;
pub mod channel;
pub mod dispatcher;
pub mod payload;
pub mod registry;
