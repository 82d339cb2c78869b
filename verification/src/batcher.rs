//! The exporter batcher: accumulate completed telemetry, batch it, and hand
//! batches to a transport without ever blocking or failing the producers.
//!
//! `submit` appends to the current batch, which is sealed when it reaches the
//! size threshold (or on demand) and queued for the transport; the queue is
//! bounded, dropping the oldest sealed batch with accounting when full. A
//! failing transport is retried with bounded exponential backoff up to a
//! retry limit, after which the batch is dropped with accounting. Once
//! draining (shutdown) begins, new submissions are dropped with accounting.
//! No item is ever lost or duplicated silently: every submitted item is at
//! all times exactly one of buffered, delivered, dropped, or lost.

use vstd::prelude::*;
use vstd::arithmetic::power2::pow2;
use crate::event::{MetricKind, MetricPoint};
use crate::span::Span;

verus! {

/// One telemetry item awaiting export.
#[derive(Debug)]
pub enum Item {
    Finished(Span),
    Metric(MetricPoint),
}

/// Only completed, well-formed spans may be exported.
pub open spec fn item_wf(item: Item) -> bool {
    match item {
        Item::Finished(s) => s.completed() && s.wf(),
        Item::Metric(_) => true,
    }
}

/// An ordered group of items sealed for export.
#[derive(Debug)]
pub struct Batch {
    pub items: Vec<Item>,
}

/// The sum of the values that the counter instrument `name` received across
/// `items` (other items contribute nothing).
pub open spec fn spec_counter_total(items: Seq<Item>, name: Seq<char>) -> int
    decreases items.len(),
{
    if items.len() == 0 {
        0
    } else {
        spec_counter_total(items.drop_last(), name) + (match items.last() {
            Item::Metric(p) => if p.kind == MetricKind::Counter && p.instrument_name@ == name {
                p.value as int
            } else {
                0
            },
            Item::Finished(_) => 0,
        })
    }
}

/// Sealed batches are never empty and hold only exportable items.
pub open spec fn batch_wf(b: Batch) -> bool {
    &&& b.items@.len() >= 1
    &&& forall|j: int| 0 <= j < b.items@.len() ==> item_wf(#[trigger] b.items@[j])
}

/// Total number of items across a queue of batches.
pub open spec fn items_in(bs: Seq<Batch>) -> nat
    decreases bs.len(),
{
    if bs.len() == 0 {
        0
    } else {
        items_in(bs.drop_last()) + bs.last().items@.len()
    }
}

proof fn lemma_items_in_push(bs: Seq<Batch>, b: Batch)
    ensures
        items_in(bs.push(b)) == items_in(bs) + b.items@.len(),
{
    assert(bs.push(b).drop_last() =~= bs);
    assert(bs.push(b).last() == b);
}

proof fn lemma_items_in_drop_first(bs: Seq<Batch>)
    requires
        bs.len() > 0,
    ensures
        items_in(bs) == bs[0].items@.len() + items_in(bs.drop_first()),
    decreases bs.len(),
{
    if bs.len() == 1 {
        assert(bs.drop_first() =~= Seq::<Batch>::empty());
        assert(bs.drop_last() =~= Seq::<Batch>::empty());
    } else {
        lemma_items_in_drop_first(bs.drop_last());
        assert(bs.drop_last().drop_first() =~= bs.drop_first().drop_last());
        assert(bs.drop_last()[0] == bs[0]);
        assert(bs.drop_first().last() == bs.last());
    }
}

impl Batch {
    /// Aggregate, over this batch, the total that the counter instrument
    /// `instrument` received: the reporting-interval sum ready for export.
    pub fn counter_total(&self, instrument: &String) -> (t: i128)
        ensures
            t == spec_counter_total(self.items@, instrument@),
    {
        let n = self.items.len();
        let mut acc: i128 = 0;
        let mut i: usize = 0;
        while i < n
            invariant
                n == self.items@.len(),
                0 <= i <= n,
                acc == spec_counter_total(self.items@.take(i as int), instrument@),
                -(i as int) * 0x8000_0000_0000_0000 <= acc <= (i as int) * 0x8000_0000_0000_0000,
            decreases n - i,
        {
            let ghost prefix = self.items@.take(i as int);
            let step: i64 = match &self.items[i] {
                Item::Metric(p) => {
                    if p.kind == MetricKind::Counter && p.instrument_name == *instrument {
                        p.value
                    } else {
                        0
                    }
                },
                Item::Finished(_) => 0,
            };
            proof {
                assert(self.items@.take(i as int + 1).drop_last() =~= prefix);
                assert(self.items@.take(i as int + 1).last() == self.items@[i as int]);
            }
            acc = acc + step as i128;
            i += 1;
        }
        proof {
            assert(self.items@.take(n as int) =~= self.items@);
        }
        acc
    }
}

/// The batcher's mode, derived from its state.
#[derive(Clone, Copy, Debug, PartialEq, Eq, Structural)]
pub enum Phase {
    Idle,
    Accumulating,
    Flushing,
    Draining,
}

/// What became of the batch handed to the transport.
#[derive(Clone, Copy, Debug, PartialEq, Eq, Structural)]
pub enum FlushOutcome {
    Delivered,
    Retry,
    Abandoned,
}

/// Accumulates completed telemetry into bounded batches for export.
#[derive(Debug)]
pub struct Batcher {
    /// A batch is sealed when it reaches this many items.
    pub threshold: usize,
    /// Most sealed batches queued for the transport at once.
    pub capacity: usize,
    /// Transport attempts allowed per batch before it is abandoned.
    pub retry_limit: u32,
    /// Whether shutdown has begun; a terminal mode.
    pub draining: bool,
    /// Items accumulating toward the next sealed batch.
    pub current: Vec<Item>,
    /// Sealed batches awaiting the transport, oldest first.
    pub ready: Vec<Batch>,
    /// The batch currently with the transport, if any.
    pub in_flight: Option<Batch>,
    /// Failed transport attempts for the in-flight batch.
    pub attempts: u32,
    /// Items ever submitted.
    pub submitted: u64,
    /// Items confirmed delivered by the transport.
    pub delivered_items: u64,
    /// Batches confirmed delivered by the transport.
    pub delivered_batches: u64,
    /// Items dropped because a queue was full or the batcher was draining.
    pub dropped_items: u64,
    /// Items lost to a transport whose retries were exhausted.
    pub lost_items: u64,
    /// Batches lost to a transport whose retries were exhausted.
    pub lost_batches: u64,
}

impl Batcher {
    /// Items in the batch currently with the transport.
    pub open spec fn flight_len(self) -> nat {
        match self.in_flight {
            Some(b) => b.items@.len(),
            None => 0,
        }
    }

    /// Items submitted but not yet delivered, dropped, or lost.
    pub open spec fn buffered(self) -> nat {
        self.current@.len() + items_in(self.ready@) + self.flight_len()
    }

    /// The state-machine mode this state is in.
    pub open spec fn phase(self) -> Phase {
        if self.draining {
            Phase::Draining
        } else if self.in_flight is Some {
            Phase::Flushing
        } else if self.buffered() > 0 {
            Phase::Accumulating
        } else {
            Phase::Idle
        }
    }

    /// Configuration is sane, buffers respect their bounds, every buffered
    /// item is exportable, and the accounting balances: every submitted item
    /// is exactly one of buffered, delivered, dropped, or lost. (Everything
    /// of `wf` except the bound on the accumulating batch, which `submit`
    /// exceeds for the moment between appending and sealing.)
    pub open spec fn wf_core(self) -> bool {
        &&& self.threshold >= 1
        &&& self.capacity >= 1
        &&& self.retry_limit >= 1
        &&& self.ready@.len() <= self.capacity
        &&& forall|i: int| 0 <= i < self.current@.len() ==> item_wf(#[trigger] self.current@[i])
        &&& forall|i: int| 0 <= i < self.ready@.len() ==> batch_wf(#[trigger] self.ready@[i])
        &&& match self.in_flight {
            Some(b) => batch_wf(b),
            None => true,
        }
        &&& self.in_flight is None ==> self.attempts == 0
        &&& self.attempts < self.retry_limit
        &&& self.delivered_batches <= self.delivered_items
        &&& self.lost_batches <= self.lost_items
        &&& self.submitted as nat == self.buffered() + self.delivered_items + self.dropped_items
            + self.lost_items
    }

    /// The batcher's invariant: `wf_core` and the accumulating batch held
    /// strictly under the sealing threshold.
    pub open spec fn wf(self) -> bool {
        &&& self.wf_core()
        &&& self.current@.len() < self.threshold
    }

    /// A fresh, idle batcher.
    pub fn new(threshold: usize, capacity: usize, retry_limit: u32) -> (b: Batcher)
        requires
            threshold >= 1,
            capacity >= 1,
            retry_limit >= 1,
        ensures
            b.wf(),
            b.threshold == threshold,
            b.capacity == capacity,
            b.retry_limit == retry_limit,
            !b.draining,
            b.current@.len() == 0,
            b.ready@.len() == 0,
            b.in_flight is None,
            b.submitted == 0,
            b.delivered_items == 0,
            b.delivered_batches == 0,
            b.dropped_items == 0,
            b.lost_items == 0,
            b.lost_batches == 0,
            b.phase() == Phase::Idle,
    {
        Batcher {
            threshold,
            capacity,
            retry_limit,
            draining: false,
            current: Vec::new(),
            ready: Vec::new(),
            in_flight: None,
            attempts: 0,
            submitted: 0,
            delivered_items: 0,
            delivered_batches: 0,
            dropped_items: 0,
            lost_items: 0,
            lost_batches: 0,
        }
    }

    /// Seal whatever is accumulating into a batch on the ready queue. When
    /// the queue is full, the oldest sealed batch is dropped, with its items
    /// counted as dropped. Nothing happens when nothing is accumulating.
    pub fn flush_now(&mut self)
        requires
            old(self).wf_core(),
        ensures
            final(self).wf(),
            seal_post(*old(self), *final(self)),
    {
        if self.current.len() == 0 {
            return;
        }
        let ghost pre = *self;
        let items = self.current.split_off(0);
        let batch = Batch { items };
        proof {
            assert(batch.items@ =~= pre.current@);
            assert(self.current@ =~= Seq::<Item>::empty());
        }
        if self.ready.len() == self.capacity {
            proof {
                lemma_items_in_drop_first(self.ready@);
            }
            let oldest = self.ready.remove(0);
            self.dropped_items = self.dropped_items + oldest.items.len() as u64;
            proof {
                assert(self.ready@ =~= pre.ready@.drop_first());
            }
        }
        let ghost mid_ready = self.ready@;
        self.ready.push(batch);
        proof {
            lemma_items_in_push(mid_ready, batch);
        }
    }

    /// Submit one item for export. During draining the item is dropped, with
    /// accounting, and the submission rejected; otherwise it joins the
    /// accumulating batch, sealing it when the threshold is reached. The
    /// call never blocks on the transport and never fails the producer.
    pub fn submit(&mut self, item: Item) -> (accepted: bool)
        requires
            old(self).wf(),
            item_wf(item),
            old(self).submitted < u64::MAX,
        ensures
            final(self).wf(),
            submit_post(*old(self), *final(self), item, accepted),
    {
        self.submitted = self.submitted + 1;
        if self.draining {
            self.dropped_items = self.dropped_items + 1;
            return false;
        }
        self.current.push(item);
        if self.current.len() >= self.threshold {
            let ghost mid = *self;
            self.flush_now();
            proof {
                assert(mid.current@ == old(self).current@.push(item));
            }
        }
        true
    }

    /// Move the oldest sealed batch to the transport slot. Yields whether a
    /// flush began; nothing happens when a batch is already with the
    /// transport or nothing is sealed.
    pub fn begin_flush(&mut self) -> (started: bool)
        requires
            old(self).wf(),
        ensures
            final(self).wf(),
            started == (old(self).in_flight is None && old(self).ready@.len() > 0),
            started ==> final(self).in_flight == Some(old(self).ready@[0]) && final(self).ready@
                == old(self).ready@.drop_first() && final(self).attempts == 0,
            !started ==> final(self).in_flight == old(self).in_flight && final(self).ready@
                == old(self).ready@ && final(self).attempts == old(self).attempts,
            final(self).threshold == old(self).threshold,
            final(self).capacity == old(self).capacity,
            final(self).retry_limit == old(self).retry_limit,
            final(self).draining == old(self).draining,
            final(self).current@ == old(self).current@,
            final(self).submitted == old(self).submitted,
            final(self).delivered_items == old(self).delivered_items,
            final(self).delivered_batches == old(self).delivered_batches,
            final(self).dropped_items == old(self).dropped_items,
            final(self).lost_items == old(self).lost_items,
            final(self).lost_batches == old(self).lost_batches,
            final(self).buffered() == old(self).buffered(),
    {
        if self.in_flight.is_none() && self.ready.len() > 0 {
            proof {
                lemma_items_in_drop_first(self.ready@);
            }
            let ghost pre_ready = self.ready@;
            let batch = self.ready.remove(0);
            self.in_flight = Some(batch);
            self.attempts = 0;
            proof {
                assert(self.ready@ =~= pre_ready.drop_first());
            }
            true
        } else {
            false
        }
    }

    /// Record the transport's verdict on the in-flight batch. Success
    /// delivers it exactly once; failure retries until the retry limit is
    /// exhausted, after which the batch is abandoned and its items counted
    /// as lost. Failures never propagate to producers.
    pub fn on_transport_result(&mut self, ok: bool) -> (outcome: FlushOutcome)
        requires
            old(self).wf(),
            old(self).in_flight is Some,
        ensures
            final(self).wf(),
            final(self).threshold == old(self).threshold,
            final(self).capacity == old(self).capacity,
            final(self).retry_limit == old(self).retry_limit,
            final(self).draining == old(self).draining,
            final(self).current@ == old(self).current@,
            final(self).ready@ == old(self).ready@,
            final(self).submitted == old(self).submitted,
            final(self).dropped_items == old(self).dropped_items,
            ok ==> {
                &&& outcome == FlushOutcome::Delivered
                &&& final(self).in_flight is None
                &&& final(self).attempts == 0
                &&& final(self).delivered_batches == old(self).delivered_batches + 1
                &&& final(self).delivered_items as nat == old(self).delivered_items + old(
                    self).flight_len()
                &&& final(self).lost_items == old(self).lost_items
                &&& final(self).lost_batches == old(self).lost_batches
            },
            !ok && old(self).attempts + 1 < old(self).retry_limit ==> {
                &&& outcome == FlushOutcome::Retry
                &&& final(self).in_flight == old(self).in_flight
                &&& final(self).attempts == old(self).attempts + 1
                &&& final(self).delivered_items == old(self).delivered_items
                &&& final(self).delivered_batches == old(self).delivered_batches
                &&& final(self).lost_items == old(self).lost_items
                &&& final(self).lost_batches == old(self).lost_batches
            },
            !ok && old(self).attempts + 1 >= old(self).retry_limit ==> {
                &&& outcome == FlushOutcome::Abandoned
                &&& final(self).in_flight is None
                &&& final(self).attempts == 0
                &&& final(self).lost_batches == old(self).lost_batches + 1
                &&& final(self).lost_items as nat == old(self).lost_items + old(self).flight_len()
                &&& final(self).delivered_items == old(self).delivered_items
                &&& final(self).delivered_batches == old(self).delivered_batches
            },
    {
        let len = match &self.in_flight {
            Some(b) => b.items.len(),
            None => 0,
        };
        if ok {
            self.in_flight = None;
            self.attempts = 0;
            self.delivered_batches = self.delivered_batches + 1;
            self.delivered_items = self.delivered_items + len as u64;
            FlushOutcome::Delivered
        } else if self.attempts + 1 < self.retry_limit {
            self.attempts = self.attempts + 1;
            FlushOutcome::Retry
        } else {
            self.in_flight = None;
            self.attempts = 0;
            self.lost_batches = self.lost_batches + 1;
            self.lost_items = self.lost_items + len as u64;
            FlushOutcome::Abandoned
        }
    }

    /// Enter the terminal draining mode and seal whatever is accumulating,
    /// so that everything buffered can be flushed before shutdown.
    pub fn begin_shutdown(&mut self)
        requires
            old(self).wf(),
        ensures
            final(self).wf(),
            final(self).draining,
            final(self).phase() == Phase::Draining,
            seal_post((Batcher { draining: true, ..*old(self) }), *final(self)),
    {
        self.draining = true;
        self.flush_now();
    }

    /// Whether nothing submitted remains buffered.
    pub fn is_drained(&self) -> (r: bool)
        requires
            self.wf(),
        ensures
            r == (self.buffered() == 0),
    {
        proof {
            if self.ready@.len() > 0 {
                assert(items_in(self.ready@) >= self.ready@.last().items@.len());
                assert(batch_wf(self.ready@[self.ready@.len() - 1]));
            }
            if self.ready@.len() == 0 {
                assert(items_in(self.ready@) == 0);
            }
        }
        self.current.len() == 0 && self.ready.len() == 0 && self.in_flight.is_none()
    }

    /// The shutdown drain loop's decision: keep flushing while the deadline
    /// has not elapsed and something is still buffered; stop regardless of
    /// outstanding work once the deadline is reached.
    pub fn should_keep_flushing(&self, now: u64, deadline: u64) -> (r: bool)
        requires
            self.wf(),
        ensures
            r == (now < deadline && self.buffered() > 0),
    {
        now < deadline && !self.is_drained()
    }
}

/// Conservation: in every reachable batcher state, each submitted item is
/// exactly one of buffered (accumulating, sealed, or with the transport),
/// delivered, dropped, or lost — no item is ever lost or duplicated across
/// a seal, a flush, or a retry.
pub proof fn lemma_item_conservation(b: Batcher)
    requires
        b.wf(),
    ensures
        b.submitted as nat == b.buffered() + b.delivered_items + b.dropped_items + b.lost_items,
        b.buffered() == b.current@.len() + items_in(b.ready@) + b.flight_len(),
{
}

/// How sealing relates the batcher state after to the one before: the
/// accumulating items (if any) become the youngest ready batch, the oldest
/// ready batch making room (counted dropped) when the queue was full; all
/// else is unchanged.
pub open spec fn seal_post(pre: Batcher, post: Batcher) -> bool {
    &&& post.threshold == pre.threshold
    &&& post.capacity == pre.capacity
    &&& post.retry_limit == pre.retry_limit
    &&& post.draining == pre.draining
    &&& post.in_flight == pre.in_flight
    &&& post.attempts == pre.attempts
    &&& post.submitted == pre.submitted
    &&& post.delivered_items == pre.delivered_items
    &&& post.delivered_batches == pre.delivered_batches
    &&& post.lost_items == pre.lost_items
    &&& post.lost_batches == pre.lost_batches
    &&& if pre.current@.len() == 0 {
        &&& post.current@ == pre.current@
        &&& post.ready@ == pre.ready@
        &&& post.dropped_items == pre.dropped_items
    } else {
        &&& post.current@.len() == 0
        &&& post.ready@.len() > 0
        &&& post.ready@.last().items@ == pre.current@
        &&& if pre.ready@.len() < pre.capacity {
            &&& post.ready@ == pre.ready@.push(post.ready@.last())
            &&& post.dropped_items == pre.dropped_items
        } else {
            &&& post.ready@ == pre.ready@.drop_first().push(post.ready@.last())
            &&& post.dropped_items as nat == pre.dropped_items + pre.ready@[0].items@.len()
        }
    }
}

/// How one submission relates the batcher state after to the one before.
pub open spec fn submit_post(pre: Batcher, post: Batcher, item: Item, accepted: bool) -> bool {
    &&& post.threshold == pre.threshold
    &&& post.capacity == pre.capacity
    &&& post.retry_limit == pre.retry_limit
    &&& post.draining == pre.draining
    &&& post.in_flight == pre.in_flight
    &&& post.attempts == pre.attempts
    &&& post.submitted == pre.submitted + 1
    &&& post.delivered_items == pre.delivered_items
    &&& post.delivered_batches == pre.delivered_batches
    &&& post.lost_items == pre.lost_items
    &&& post.lost_batches == pre.lost_batches
    &&& accepted == !pre.draining
    &&& if pre.draining {
        &&& post.current@ == pre.current@
        &&& post.ready@ == pre.ready@
        &&& post.dropped_items == pre.dropped_items + 1
    } else if pre.current@.len() + 1 < pre.threshold {
        &&& post.current@ == pre.current@.push(item)
        &&& post.ready@ == pre.ready@
        &&& post.dropped_items == pre.dropped_items
    } else {
        &&& post.current@.len() == 0
        &&& post.ready@.len() > 0
        &&& post.ready@.last().items@ == pre.current@.push(item)
        &&& if pre.ready@.len() < pre.capacity {
            &&& post.ready@ == pre.ready@.push(post.ready@.last())
            &&& post.dropped_items == pre.dropped_items
        } else {
            &&& post.ready@ == pre.ready@.drop_first().push(post.ready@.last())
            &&& post.dropped_items as nat == pre.dropped_items + pre.ready@[0].items@.len()
        }
    }
}

/// Exponential backoff: the delay before transport attempt `attempt`, namely
/// `base` doubled `attempt` times, capped at `cap`.
pub open spec fn spec_backoff(base: u64, attempt: nat, cap: u64) -> u64 {
    if base * pow2(attempt) > cap {
        cap
    } else {
        (base * pow2(attempt)) as u64
    }
}

/// Compute the bounded exponential backoff delay before retry `attempt`.
pub fn backoff_delay(base: u64, attempt: u32, cap: u64) -> (d: u64)
    ensures
        d == spec_backoff(base, attempt as nat, cap),
        d <= cap,
{
    let mut d: u64 = if base > cap {
        cap
    } else {
        base
    };
    let mut k: u32 = 0;
    proof {
        assert(pow2(0) == 1) by {
            vstd::arithmetic::power2::lemma2_to64();
        }
    }
    while k < attempt
        invariant
            0 <= k <= attempt,
            (base * pow2(k as nat) > cap ==> d == cap),
            (base * pow2(k as nat) <= cap ==> d as nat == base * pow2(k as nat)),
            d <= cap,
        decreases attempt - k,
    {
        proof {
            assert(pow2((k + 1) as nat) == 2 * pow2(k as nat)) by {
                vstd::arithmetic::power2::lemma_pow2_unfold((k + 1) as nat);
            }
            assert(base * (2 * pow2(k as nat)) == 2 * (base * pow2(k as nat)))
                by (nonlinear_arith);
        }
        if d > cap / 2 {
            proof {
                if base * pow2(k as nat) <= cap {
                    assert(2 * (d as nat) > cap);
                }
            }
            d = cap;
        } else {
            d = d * 2;
        }
        k = k + 1;
    }
    d
}

} // verus!
