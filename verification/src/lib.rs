//! A deal-notification pipeline: an external feed is polled for new items,
//! each distinct item becomes an event on a durable queue, and a dispatcher
//! fans events out to registered recipients filtered by interest category,
//! delivering each distinct event at most once within a two-day retention
//! window.
//!
//! The store the pipeline coordinates through is modelled by
//! [`store::Connection`]: namespaces for subscribers, idempotency markers
//! and configuration, the queue lists, and the namespace-stateful selection
//! cursor. The poller and dispatcher steps in [`pipeline`] are specified
//! against transition functions over [`store::StoreView`], and the
//! guarantees that make the pipeline trustworthy — idempotency, queue
//! order, the category filter, the operational kill-switch and counter
//! monotonicity — are proved in [`laws`].
pub mod category;
pub mod codec;
pub mod commands;
pub mod dec;
pub mod laws;
pub mod message;
pub mod pepper_request;
pub mod pipeline;
pub mod queue;
pub mod sanitize;
pub mod store;
pub mod template;
pub mod text;
pub mod version;
