//! Structured events and metric points.
//!
//! An event is immutable once created and carries the identifier of the
//! span that was active when it was emitted, or none when no span was
//! active. A metric point has a lifecycle of its own, independent of spans.

use vstd::prelude::*;
use crate::span::AttrValue;

verus! {

/// A structured log event, attached at creation time to the span that was
/// active on the emitting execution context.
#[derive(Debug)]
pub struct Event {
    pub name: String,
    pub timestamp: u64,
    pub attributes: Vec<(String, AttrValue)>,
    pub attached_span_id: Option<u64>,
}

/// The kind of instrument a metric point contributes to.
#[derive(Clone, Copy, Debug, PartialEq, Eq, Structural)]
pub enum MetricKind {
    Counter,
    Histogram,
}

/// One measurement contributed to a named instrument.
#[derive(Debug)]
pub struct MetricPoint {
    pub instrument_name: String,
    pub kind: MetricKind,
    pub value: i64,
    pub timestamp: u64,
    pub attributes: Vec<(String, AttrValue)>,
}

} // verus!
