//! The active-context stack: which span is active on one execution context.
//!
//! Each concurrent unit of work owns one `ActiveContext`; it is never shared,
//! so unrelated traces cannot cross-talk. Entering a unit of work pushes a
//! child of the currently active span (or a root), exiting pops and completes
//! it, and events attach to whatever is on top at emission time.

use vstd::prelude::*;
use crate::event::Event;
use crate::propagate::{spec_extract, extract, Carrier};
use crate::span::{spec_complete, AttrValue, Span, Status};

verus! {

/// Per-execution-context state: the trace being recorded, the parent that a
/// root span should link to (when the trace was joined from a remote
/// carrier), the stack of open spans, and the next fresh span identifier.
#[derive(Debug)]
pub struct ActiveContext {
    pub trace_id: u64,
    pub remote_parent: Option<u64>,
    pub stack: Vec<Span>,
    pub next_span_id: u64,
}

impl ActiveContext {
    /// Stack discipline: open well-formed spans of this trace, each the
    /// child of the one beneath it, with fresh, strictly increasing
    /// identifiers; the bottom span links to the remote parent, if any.
    pub open spec fn wf(self) -> bool {
        &&& forall|i: int|
            0 <= i < self.stack@.len() ==> (#[trigger] self.stack@[i]).trace_id == self.trace_id
        &&& forall|i: int| 0 <= i < self.stack@.len() ==> !(#[trigger] self.stack@[i]).completed()
        &&& forall|i: int| 0 <= i < self.stack@.len() ==> (#[trigger] self.stack@[i]).wf()
        &&& forall|i: int|
            0 <= i < self.stack@.len() ==> (#[trigger] self.stack@[i]).span_id < self.next_span_id
        &&& forall|i: int, j: int|
            0 <= i < j < self.stack@.len() ==> (#[trigger] self.stack@[i]).span_id < (
            #[trigger] self.stack@[j]).span_id
        &&& forall|i: int|
            #![trigger self.stack@[i].parent_span_id]
            0 < i < self.stack@.len() ==> self.stack@[i].parent_span_id == Some(
                self.stack@[i - 1].span_id,
            )
        &&& self.stack@.len() > 0 ==> self.stack@[0].parent_span_id == self.remote_parent
    }

    /// The identifier of the currently active span, if any.
    pub open spec fn active_span_id(self) -> Option<u64> {
        if self.stack@.len() == 0 {
            None
        } else {
            Some(self.stack@.last().span_id)
        }
    }

    /// What a span entered now would link to: the active span, or the
    /// remote parent when no span is open.
    pub open spec fn current_parent(self) -> Option<u64> {
        if self.stack@.len() > 0 {
            Some(self.stack@.last().span_id)
        } else {
            self.remote_parent
        }
    }

    /// A fresh context recording a new trace.
    pub fn new(trace_id: u64) -> (c: ActiveContext)
        ensures
            c.wf(),
            c.trace_id == trace_id,
            c.remote_parent is None,
            c.stack@.len() == 0,
            c.active_span_id() is None,
            c.next_span_id == 1,
    {
        ActiveContext { trace_id, remote_parent: None, stack: Vec::new(), next_span_id: 1 }
    }

    /// A context joined from an inbound carrier: the propagated trace is
    /// continued under its remote span; absent or malformed input degrades
    /// to a fresh trace under `fallback_trace_id`, never failing the caller.
    pub fn from_carrier(carrier: &Carrier, fallback_trace_id: u64) -> (c: ActiveContext)
        ensures
            c.wf(),
            c.stack@.len() == 0,
            c.next_span_id == 1,
            match spec_extract(carrier.model()) {
                Some((t, s)) => c.trace_id == t && c.remote_parent == Some(s),
                None => c.trace_id == fallback_trace_id && c.remote_parent is None,
            },
    {
        match extract(carrier) {
            Some((t, s)) => ActiveContext {
                trace_id: t,
                remote_parent: Some(s),
                stack: Vec::new(),
                next_span_id: 1,
            },
            None => ActiveContext {
                trace_id: fallback_trace_id,
                remote_parent: None,
                stack: Vec::new(),
                next_span_id: 1,
            },
        }
    }

    /// Begin a unit of work: push a new open span, the child of whatever
    /// was active (a root when nothing was).
    pub fn enter(&mut self, name: String, now: u64, attributes: Vec<(String, AttrValue)>)
        requires
            old(self).wf(),
            old(self).next_span_id < u64::MAX,
        ensures
            final(self).wf(),
            final(self).trace_id == old(self).trace_id,
            final(self).remote_parent == old(self).remote_parent,
            final(self).next_span_id == old(self).next_span_id + 1,
            final(self).stack@.len() == old(self).stack@.len() + 1,
            final(self).stack@ == old(self).stack@.push(final(self).stack@.last()),
            final(self).stack@.last().span_id == old(self).next_span_id,
            final(self).stack@.last().trace_id == old(self).trace_id,
            final(self).stack@.last().parent_span_id == old(self).current_parent(),
            final(self).stack@.last().name == name,
            final(self).stack@.last().start_time == now,
            final(self).stack@.last().attributes == attributes,
            final(self).stack@.last().status == Status::Unset,
            !final(self).stack@.last().completed(),
            final(self).active_span_id() == Some(old(self).next_span_id),
    {
        let parent = if self.stack.len() > 0 {
            Some(self.stack[self.stack.len() - 1].span_id)
        } else {
            self.remote_parent
        };
        let span = Span::new(self.next_span_id, self.trace_id, parent, name, now, attributes);
        self.stack.push(span);
        self.next_span_id = self.next_span_id + 1;
    }

    /// End the active unit of work: pop the active span and complete it at
    /// `now`, with `Error` status when the work reported failure. Yields
    /// the completed span, ready to be handed to the batcher; yields
    /// nothing when no span is open.
    pub fn exit(&mut self, now: u64, failed: bool) -> (r: Option<Span>)
        requires
            old(self).wf(),
        ensures
            final(self).wf(),
            final(self).trace_id == old(self).trace_id,
            final(self).remote_parent == old(self).remote_parent,
            final(self).next_span_id == old(self).next_span_id,
            old(self).stack@.len() == 0 ==> r is None && final(self).stack@ == old(self).stack@,
            old(self).stack@.len() > 0 ==> {
                &&& final(self).stack@ == old(self).stack@.drop_last()
                &&& r == Some(
                    spec_complete(
                        old(self).stack@.last(),
                        now,
                        if failed {
                            Status::Error
                        } else {
                            Status::Okay
                        },
                    ),
                )
            },
            r matches Some(s) ==> s.completed() && s.wf(),
    {
        match self.stack.pop() {
            Some(mut span) => {
                let status = if failed {
                    Status::Error
                } else {
                    Status::Okay
                };
                span.complete(now, status);
                Some(span)
            },
            None => None,
        }
    }

    /// Cancellation: force-complete every open span at `now` with `Error`
    /// status, deepest first, so that no span outlives its unit of work and
    /// children reach the batcher before their parents. Yields the
    /// completed spans in that order.
    pub fn cancel_all(&mut self, now: u64) -> (r: Vec<Span>)
        requires
            old(self).wf(),
        ensures
            final(self).wf(),
            final(self).trace_id == old(self).trace_id,
            final(self).remote_parent == old(self).remote_parent,
            final(self).next_span_id == old(self).next_span_id,
            final(self).stack@.len() == 0,
            r@.len() == old(self).stack@.len(),
            forall|i: int|
                0 <= i < r@.len() ==> #[trigger] r@[i] == spec_complete(
                    old(self).stack@[old(self).stack@.len() - 1 - i],
                    now,
                    Status::Error,
                ),
    {
        let ghost orig = *old(self);
        let mut out: Vec<Span> = Vec::new();
        while self.stack.len() > 0
            invariant
                self.wf(),
                self.trace_id == orig.trace_id,
                self.remote_parent == orig.remote_parent,
                self.next_span_id == orig.next_span_id,
                self.stack@ == orig.stack@.take(self.stack@.len() as int),
                out@.len() + self.stack@.len() == orig.stack@.len(),
                forall|i: int|
                    0 <= i < out@.len() ==> #[trigger] out@[i] == spec_complete(
                        orig.stack@[orig.stack@.len() - 1 - i],
                        now,
                        Status::Error,
                    ),
            decreases self.stack@.len(),
        {
            let mut span = self.stack.pop().unwrap();
            span.complete(now, Status::Error);
            out.push(span);
            proof {
                assert(self.stack@ =~= orig.stack@.take(self.stack@.len() as int));
            }
        }
        proof {
            assert(self.stack@ =~= orig.stack@.take(0));
        }
        out
    }

    /// Emit a structured event. It attaches to the active span: events
    /// emitted while a span is active carry that span's identifier, events
    /// emitted with no active span carry none.
    pub fn emit(&self, name: String, now: u64, attributes: Vec<(String, AttrValue)>) -> (e: Event)
        ensures
            e.name == name,
            e.timestamp == now,
            e.attributes == attributes,
            e.attached_span_id == self.active_span_id(),
    {
        let attached_span_id = if self.stack.len() > 0 {
            Some(self.stack[self.stack.len() - 1].span_id)
        } else {
            None
        };
        Event { name, timestamp: now, attributes, attached_span_id }
    }
}

/// Nesting: under the stack discipline, every open span except the bottom
/// one is the direct child of the span entered just before it, so nested
/// units of work form a tree matching call nesting exactly.
pub proof fn lemma_stack_nesting(c: ActiveContext, i: int)
    requires
        c.wf(),
        0 < i < c.stack@.len(),
    ensures
        c.stack@[i].parent_span_id == Some(c.stack@[i - 1].span_id),
        c.stack@[i].span_id != c.stack@[i - 1].span_id,
{
}

} // verus!
