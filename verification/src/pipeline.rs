//! The assembled pipeline: one execution context's active-span stack wired
//! to an exporter batcher.
//!
//! Exiting a unit of work completes its span and hands it to the batcher in
//! the same step, so within one trace a child span always reaches the
//! batcher before its parent (exits pop the deepest span first). Emitting an
//! event attaches it to the active span and, when its attributes mark a
//! counter or histogram instrument, forwards a metric point to the batcher.

use vstd::prelude::*;
use vstd::string::StringExecFns;
use crate::batcher::{submit_post, Batcher, Item};
use crate::context::ActiveContext;
use crate::event::{Event, MetricKind, MetricPoint};
use crate::span::{attr_lookup, spec_complete, AttrValue, Span, Status};

verus! {

/// The key that marks an event as contributing its integer value to a
/// counter instrument named after the event.
pub open spec fn counter_key() -> Seq<char> {
    "counter"@
}

/// The key that marks an event as contributing its integer value to a
/// histogram instrument named after the event.
pub open spec fn histogram_key() -> Seq<char> {
    "histogram"@
}

/// The instrument contribution that a set of event attributes asks for,
/// if any: a counter marking takes precedence over a histogram marking.
pub open spec fn metric_request(attrs: Seq<(String, AttrValue)>) -> Option<(MetricKind, i64)> {
    match attr_lookup(attrs, counter_key()) {
        Some(AttrValue::Int(v)) => Some((MetricKind::Counter, v)),
        _ => match attr_lookup(attrs, histogram_key()) {
            Some(AttrValue::Int(v)) => Some((MetricKind::Histogram, v)),
            _ => None,
        },
    }
}

/// How a sequence of submissions, in order, relates the batcher state after
/// to the one before.
pub open spec fn chain_submit(pre: Batcher, post: Batcher, items: Seq<Item>) -> bool
    decreases items.len(),
{
    if items.len() == 0 {
        post == pre
    } else {
        exists|mid: Batcher, acc: bool|
            #![trigger submit_post(mid, post, items.last(), acc)]
            chain_submit(pre, mid, items.drop_last()) && acc == !mid.draining && submit_post(
                mid,
                post,
                items.last(),
                acc,
            )
    }
}

/// Extending a submission chain by one more submission at its end.
proof fn lemma_chain_submit_step(
    pre: Batcher,
    mid: Batcher,
    post: Batcher,
    items: Seq<Item>,
    x: Item,
    acc: bool,
)
    requires
        chain_submit(pre, mid, items),
        acc == !mid.draining,
        submit_post(mid, post, x, acc),
    ensures
        chain_submit(pre, post, items.push(x)),
{
    assert(items.push(x).drop_last() =~= items);
    assert(items.push(x).last() == x);
    assert(submit_post(mid, post, items.push(x).last(), acc));
}

/// The items that cancelling a stack of open spans at `now` submits:
/// each span force-completed with `Error` status, deepest first.
pub open spec fn cancelled_items(stack: Seq<Span>, now: u64) -> Seq<Item> {
    Seq::new(
        stack.len(),
        |i: int| Item::Finished(spec_complete(stack[stack.len() - 1 - i], now, Status::Error)),
    )
}

/// One execution context's span stack wired to an exporter batcher.
#[derive(Debug)]
pub struct Pipeline {
    pub ctx: ActiveContext,
    pub batcher: Batcher,
}

impl Pipeline {
    pub open spec fn wf(self) -> bool {
        &&& self.ctx.wf()
        &&& self.batcher.wf()
    }

    /// A fresh pipeline recording a new trace.
    pub fn new(trace_id: u64, threshold: usize, capacity: usize, retry_limit: u32) -> (p:
        Pipeline)
        requires
            threshold >= 1,
            capacity >= 1,
            retry_limit >= 1,
        ensures
            p.wf(),
            p.ctx.trace_id == trace_id,
            p.ctx.stack@.len() == 0,
            p.ctx.remote_parent is None,
            p.batcher.threshold == threshold,
            p.batcher.capacity == capacity,
            p.batcher.retry_limit == retry_limit,
            p.batcher.submitted == 0,
            !p.batcher.draining,
            p.batcher.ready@.len() == 0,
            p.batcher.in_flight is None,
    {
        Pipeline {
            ctx: ActiveContext::new(trace_id),
            batcher: Batcher::new(threshold, capacity, retry_limit),
        }
    }

    /// Begin a unit of work: push a new span, the child of whatever is
    /// active. The batcher is untouched.
    pub fn enter(&mut self, name: String, now: u64, attributes: Vec<(String, AttrValue)>)
        requires
            old(self).wf(),
            old(self).ctx.next_span_id < u64::MAX,
        ensures
            final(self).wf(),
            final(self).batcher == old(self).batcher,
            final(self).ctx.trace_id == old(self).ctx.trace_id,
            final(self).ctx.remote_parent == old(self).ctx.remote_parent,
            final(self).ctx.next_span_id == old(self).ctx.next_span_id + 1,
            final(self).ctx.stack@ == old(self).ctx.stack@.push(final(self).ctx.stack@.last()),
            final(self).ctx.stack@.last().span_id == old(self).ctx.next_span_id,
            final(self).ctx.stack@.last().parent_span_id == old(self).ctx.current_parent(),
            final(self).ctx.stack@.last().name == name,
            final(self).ctx.stack@.last().start_time == now,
            final(self).ctx.stack@.last().attributes == attributes,
            !final(self).ctx.stack@.last().completed(),
            final(self).ctx.active_span_id() == Some(old(self).ctx.next_span_id),
    {
        self.ctx.enter(name, now, attributes);
    }

    /// End the active unit of work: pop its span, complete it at `now` (with
    /// `Error` status when the work failed), and hand it to the batcher.
    /// Yields whether a span was open. Because exits pop the deepest span
    /// first, a child span is always submitted before its parent.
    pub fn exit(&mut self, now: u64, failed: bool) -> (had: bool)
        requires
            old(self).wf(),
            old(self).batcher.submitted < u64::MAX,
        ensures
            final(self).wf(),
            had == (old(self).ctx.stack@.len() > 0),
            final(self).ctx.trace_id == old(self).ctx.trace_id,
            final(self).ctx.remote_parent == old(self).ctx.remote_parent,
            final(self).ctx.next_span_id == old(self).ctx.next_span_id,
            !had ==> final(self).ctx.stack@ == old(self).ctx.stack@ && final(self).batcher == old(
                self).batcher,
            had ==> final(self).ctx.stack@ == old(self).ctx.stack@.drop_last() && submit_post(
                old(self).batcher,
                final(self).batcher,
                Item::Finished(
                    spec_complete(
                        old(self).ctx.stack@.last(),
                        now,
                        if failed {
                            Status::Error
                        } else {
                            Status::Okay
                        },
                    ),
                ),
                !old(self).batcher.draining,
            ),
    {
        match self.ctx.exit(now, failed) {
            Some(span) => {
                self.batcher.submit(Item::Finished(span));
                true
            },
            None => false,
        }
    }

    /// Emit a structured event: it attaches to the active span (or to none
    /// when no span is open) and is returned for the local sink. When the
    /// attributes mark a counter or histogram instrument, a metric point
    /// named after the event is also forwarded to the batcher.
    pub fn emit(&mut self, name: String, now: u64, attributes: Vec<(String, AttrValue)>) -> (e:
        Event)
        requires
            old(self).wf(),
            old(self).batcher.submitted < u64::MAX,
        ensures
            final(self).wf(),
            final(self).ctx == old(self).ctx,
            e.name == name,
            e.timestamp == now,
            e.attributes == attributes,
            e.attached_span_id == old(self).ctx.active_span_id(),
            metric_request(attributes@) is None ==> final(self).batcher == old(self).batcher,
            metric_request(attributes@) matches Some((kind, v)) ==> exists|p: MetricPoint|
                #![trigger submit_post(old(self).batcher, final(self).batcher, Item::Metric(p), true)]
                #![trigger submit_post(old(self).batcher, final(self).batcher, Item::Metric(p), false)]
                {
                    &&& p.instrument_name == name
                    &&& p.kind == kind
                    &&& p.value == v
                    &&& p.timestamp == now
                    &&& p.attributes@.len() == 0
                    &&& submit_post(
                        old(self).batcher,
                        final(self).batcher,
                        Item::Metric(p),
                        !old(self).batcher.draining,
                    )
                },
    {
        let ckey = String::from_str("counter");
        let hkey = String::from_str("histogram");
        let request: Option<(MetricKind, i64)> = match crate::span::find_attr(&attributes, &ckey) {
            Some(AttrValue::Int(v)) => Some((MetricKind::Counter, *v)),
            _ => match crate::span::find_attr(&attributes, &hkey) {
                Some(AttrValue::Int(v)) => Some((MetricKind::Histogram, *v)),
                _ => None,
            },
        };
        match request {
            Some((kind, value)) => {
                let point = MetricPoint {
                    instrument_name: name.clone(),
                    kind,
                    value,
                    timestamp: now,
                    attributes: Vec::new(),
                };
                self.batcher.submit(Item::Metric(point));
            },
            None => {},
        }
        self.ctx.emit(name, now, attributes)
    }

    /// Cancellation of the whole unit-of-work stack: every open span is
    /// force-completed at `now` with `Error` status and handed to the
    /// batcher, deepest first, so no span outlives its unit of work.
    pub fn cancel(&mut self, now: u64)
        requires
            old(self).wf(),
            old(self).batcher.submitted + old(self).ctx.stack@.len() <= u64::MAX,
        ensures
            final(self).wf(),
            final(self).ctx.stack@.len() == 0,
            final(self).ctx.trace_id == old(self).ctx.trace_id,
            final(self).ctx.remote_parent == old(self).ctx.remote_parent,
            final(self).ctx.next_span_id == old(self).ctx.next_span_id,
            chain_submit(
                old(self).batcher,
                final(self).batcher,
                cancelled_items(old(self).ctx.stack@, now),
            ),
    {
        let ghost orig = *old(self);
        let ghost all = cancelled_items(orig.ctx.stack@, now);
        let ghost n: int = orig.ctx.stack@.len() as int;
        let ghost mut done: int = 0;
        proof {
            assert(self.ctx.stack@ =~= orig.ctx.stack@.take(n - done));
            assert(all.take(0) =~= Seq::<Item>::empty());
        }
        while self.ctx.stack.len() > 0
            invariant
                self.wf(),
                0 <= done <= n,
                self.ctx.stack@ == orig.ctx.stack@.take(n - done),
                self.ctx.trace_id == orig.ctx.trace_id,
                self.ctx.remote_parent == orig.ctx.remote_parent,
                self.ctx.next_span_id == orig.ctx.next_span_id,
                self.batcher.submitted == orig.batcher.submitted + done,
                self.batcher.draining == orig.batcher.draining,
                orig.batcher.submitted + n <= u64::MAX,
                n == orig.ctx.stack@.len(),
                all == cancelled_items(orig.ctx.stack@, now),
                chain_submit(orig.batcher, self.batcher, all.take(done)),
            decreases self.ctx.stack@.len(),
        {
            let ghost pre_batcher = self.batcher;
            let ghost pre_stack = self.ctx.stack@;
            let span = self.ctx.exit(now, true).unwrap();
            proof {
                assert(pre_stack.last() == orig.ctx.stack@[n - done - 1]);
            }
            let accepted = self.batcher.submit(Item::Finished(span));
            proof {
                assert(all[done] == Item::Finished(
                    spec_complete(orig.ctx.stack@[n - done - 1], now, Status::Error),
                ));
                lemma_chain_submit_step(
                    orig.batcher,
                    pre_batcher,
                    self.batcher,
                    all.take(done),
                    all[done],
                    accepted,
                );
                assert(all.take(done).push(all[done]) =~= all.take(done + 1));
                assert(pre_stack.drop_last() =~= orig.ctx.stack@.take(n - done - 1));
                done = done + 1;
            }
        }
        proof {
            assert(all.take(done) =~= all);
        }
    }

    /// Begin shutdown: the batcher enters its terminal draining mode and
    /// seals whatever is accumulating, ready for the final flush loop.
    pub fn begin_shutdown(&mut self)
        requires
            old(self).wf(),
        ensures
            final(self).wf(),
            final(self).ctx == old(self).ctx,
            final(self).batcher.draining,
            crate::batcher::seal_post(
                (Batcher { draining: true, ..old(self).batcher }),
                final(self).batcher,
            ),
    {
        self.batcher.begin_shutdown();
    }
}

} // verus!
