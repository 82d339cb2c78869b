use tracecore::batcher::{backoff_delay, Batcher, FlushOutcome, Item};
use tracecore::event::{MetricKind, MetricPoint};
use tracecore::span::{Span, Status};

fn finished_span(id: u64, name: &str) -> Item {
    let mut span = Span::new(id, 1, None, name.to_string(), 0, Vec::new());
    span.complete(10, Status::Okay);
    Item::Finished(span)
}

fn counter_point(name: &str, value: i64) -> Item {
    Item::Metric(MetricPoint {
        instrument_name: name.to_string(),
        kind: MetricKind::Counter,
        value,
        timestamp: 0,
        attributes: Vec::new(),
    })
}

#[test]
fn threshold_dispatches_two_batches() {
    // Three items under a batch-size threshold of two: batches of 2 and 1.
    let mut b = Batcher::new(2, 8, 3);
    assert!(b.submit(finished_span(1, "a")));
    assert!(b.submit(finished_span(2, "b")));
    assert_eq!(b.ready.len(), 1);
    assert!(b.submit(finished_span(3, "c")));
    b.flush_now();
    assert_eq!(b.ready.len(), 2);

    assert!(b.begin_flush());
    let first_size = b.in_flight.as_ref().unwrap().items.len();
    assert_eq!(b.on_transport_result(true), FlushOutcome::Delivered);

    assert!(b.begin_flush());
    let second_size = b.in_flight.as_ref().unwrap().items.len();
    assert_eq!(b.on_transport_result(true), FlushOutcome::Delivered);

    assert_eq!((first_size, second_size), (2, 1));
    assert_eq!(b.delivered_batches, 2);
    assert_eq!(b.delivered_items, 3);
    assert!(!b.begin_flush());
}

#[test]
fn transport_failures_within_retry_limit_still_deliver_once() {
    let mut b = Batcher::new(2, 8, 3);
    b.submit(finished_span(1, "a"));
    b.submit(finished_span(2, "b"));
    assert!(b.begin_flush());

    // The transport fails twice, then succeeds, within a retry limit of 3.
    assert_eq!(b.on_transport_result(false), FlushOutcome::Retry);
    assert_eq!(b.on_transport_result(false), FlushOutcome::Retry);
    assert_eq!(b.on_transport_result(true), FlushOutcome::Delivered);

    assert_eq!(b.delivered_batches, 1);
    assert_eq!(b.delivered_items, 2);
    assert_eq!(b.lost_batches, 0);
    // Delivered exactly once: nothing is left to flush again.
    assert!(b.in_flight.is_none());
    assert!(!b.begin_flush());
    assert!(b.is_drained());
}

#[test]
fn exhausted_retries_abandon_the_batch_with_accounting() {
    let mut b = Batcher::new(1, 8, 3);
    b.submit(finished_span(1, "a"));
    assert!(b.begin_flush());
    assert_eq!(b.on_transport_result(false), FlushOutcome::Retry);
    assert_eq!(b.on_transport_result(false), FlushOutcome::Retry);
    assert_eq!(b.on_transport_result(false), FlushOutcome::Abandoned);
    assert!(b.in_flight.is_none());
    assert_eq!(b.lost_batches, 1);
    assert_eq!(b.lost_items, 1);
    assert_eq!(b.delivered_items, 0);
}

#[test]
fn full_queue_drops_oldest_batch_with_accounting() {
    let mut b = Batcher::new(1, 1, 3);
    b.submit(finished_span(1, "old"));
    b.submit(finished_span(2, "new"));
    assert_eq!(b.ready.len(), 1);
    assert_eq!(b.dropped_items, 1);
    match &b.ready[0].items[0] {
        Item::Finished(s) => assert_eq!(s.name, "new"),
        other => panic!("unexpected item: {other:?}"),
    }
    // Conservation: submitted == buffered + delivered + dropped + lost.
    assert_eq!(b.submitted, 2);
    assert_eq!(b.dropped_items + b.ready[0].items.len() as u64, 2);
}

#[test]
fn draining_rejects_submissions_with_accounting() {
    let mut b = Batcher::new(4, 8, 3);
    b.submit(finished_span(1, "a"));
    b.begin_shutdown();
    assert_eq!(b.ready.len(), 1); // the pending item was sealed
    assert!(!b.submit(finished_span(2, "late")));
    assert_eq!(b.dropped_items, 1);
    assert_eq!(b.submitted, 2);
}

#[test]
fn shutdown_with_sufficient_deadline_flushes_pending_work() {
    let mut b = Batcher::new(16, 8, 3);
    b.submit(finished_span(1, "a"));
    b.submit(finished_span(2, "b"));
    assert!(!b.is_drained());

    b.begin_shutdown();
    let deadline: u64 = 1_000;
    let mut now: u64 = 0;
    while b.should_keep_flushing(now, deadline) {
        if b.begin_flush() {
            b.on_transport_result(true);
        }
        now += 1;
    }
    // The pending batch went out before shutdown returned.
    assert!(b.is_drained());
    assert!(now < deadline);
    assert_eq!(b.delivered_items, 2);
    assert_eq!(b.delivered_batches, 1);
}

#[test]
fn deadline_bounds_the_drain_loop() {
    let mut b = Batcher::new(16, 8, 3);
    b.submit(finished_span(1, "a"));
    b.begin_shutdown();
    // A deadline already reached: stop regardless of outstanding work.
    assert!(!b.should_keep_flushing(5, 5));
    assert!(!b.is_drained());
}

#[test]
fn accounting_balances_through_mixed_outcomes() {
    let mut b = Batcher::new(2, 1, 2);
    // Two items seal a batch; two more seal another, evicting the first.
    for id in 0..4 {
        b.submit(finished_span(id, "s"));
    }
    assert_eq!(b.dropped_items, 2);
    // The surviving batch is abandoned after exhausted retries.
    assert!(b.begin_flush());
    assert_eq!(b.on_transport_result(false), FlushOutcome::Retry);
    assert_eq!(b.on_transport_result(false), FlushOutcome::Abandoned);
    assert_eq!(b.lost_items, 2);
    // One more item is delivered after a forced seal.
    b.submit(finished_span(9, "late"));
    b.flush_now();
    assert!(b.begin_flush());
    assert_eq!(b.on_transport_result(true), FlushOutcome::Delivered);
    // Every submitted item is accounted for exactly once.
    assert_eq!(b.submitted, 5);
    assert_eq!(
        b.submitted,
        b.current.len() as u64
            + b.ready.iter().map(|batch| batch.items.len() as u64).sum::<u64>()
            + b.in_flight.as_ref().map(|batch| batch.items.len() as u64).unwrap_or(0)
            + b.delivered_items
            + b.dropped_items
            + b.lost_items,
    );
}

#[test]
fn backoff_doubles_until_the_cap() {
    assert_eq!(backoff_delay(100, 0, 10_000), 100);
    assert_eq!(backoff_delay(100, 1, 10_000), 200);
    assert_eq!(backoff_delay(100, 3, 10_000), 800);
    assert_eq!(backoff_delay(100, 7, 10_000), 10_000);
    assert_eq!(backoff_delay(100, 60, 10_000), 10_000);
    assert_eq!(backoff_delay(0, 9, 10_000), 0);
    assert_eq!(backoff_delay(7, 2, 3), 3);
}

#[test]
fn counter_totals_aggregate_per_instrument() {
    let mut b = Batcher::new(8, 8, 3);
    b.submit(counter_point("requests", 2));
    b.submit(counter_point("requests", 3));
    b.submit(counter_point("failures", 1));
    b.submit(finished_span(1, "a"));
    b.flush_now();
    let batch = &b.ready[0];
    assert_eq!(batch.counter_total(&"requests".to_string()), 5);
    assert_eq!(batch.counter_total(&"failures".to_string()), 1);
    assert_eq!(batch.counter_total(&"absent".to_string()), 0);
}
