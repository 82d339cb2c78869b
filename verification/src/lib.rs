//! A structured-event correlation and export pipeline.
//!
//! Nested units of work are recorded as spans that carry a propagated trace
//! context; structured events attach to whichever span is active on the
//! calling execution context; completed spans and metric points are batched
//! and handed to a transport without blocking the producers.

pub mod batcher;
pub mod codec;
pub mod context;
pub mod event;
pub mod pipeline;
pub mod propagate;
pub mod span;
