use tracecore::batcher::Item;
use tracecore::event::MetricKind;
use tracecore::pipeline::Pipeline;
use tracecore::span::{AttrValue, Status};

#[test]
fn request_db_scenario_lands_in_one_batch() {
    let mut p = Pipeline::new(77, 16, 8, 3);

    p.enter("request".to_string(), 1, Vec::new());
    let request_id = p.ctx.stack[0].span_id;
    p.enter("db".to_string(), 2, Vec::new());
    let db_id = p.ctx.stack[1].span_id;

    let event = p.emit("query ok".to_string(), 3, Vec::new());
    assert_eq!(event.attached_span_id, Some(db_id));

    assert!(p.exit(4, false)); // completes "db"
    assert!(p.exit(5, false)); // completes "request"

    p.begin_shutdown();
    assert!(p.batcher.begin_flush());
    {
        let batch = p.batcher.in_flight.as_ref().unwrap();
        assert_eq!(batch.items.len(), 2);
        match (&batch.items[0], &batch.items[1]) {
            (Item::Finished(db), Item::Finished(request)) => {
                assert_eq!(db.name, "db");
                assert_eq!(request.name, "request");
                assert_eq!(db.parent_span_id, Some(request.span_id));
                assert_eq!(request.span_id, request_id);
                assert_eq!(db.trace_id, request.trace_id);
                assert_eq!(db.status, Status::Okay);
                assert!(db.end_time.is_some());
            },
            other => panic!("unexpected batch contents: {other:?}"),
        }
    }
    p.batcher.on_transport_result(true);

    // Both spans were exported in exactly one batch.
    assert_eq!(p.batcher.delivered_batches, 1);
    assert_eq!(p.batcher.delivered_items, 2);
    assert!(p.batcher.is_drained());
    assert!(!p.batcher.begin_flush());
}

#[test]
fn child_spans_reach_the_batcher_before_parents() {
    let mut p = Pipeline::new(1, 1, 8, 3);
    p.enter("parent".to_string(), 1, Vec::new());
    p.enter("child".to_string(), 2, Vec::new());
    p.exit(3, false);
    p.exit(4, false);
    let names: Vec<&str> = p
        .batcher
        .ready
        .iter()
        .map(|b| match &b.items[0] {
            Item::Finished(s) => s.name.as_str(),
            Item::Metric(m) => m.instrument_name.as_str(),
        })
        .collect();
    assert_eq!(names, ["child", "parent"]);
}

#[test]
fn marked_events_forward_metric_points() {
    let mut p = Pipeline::new(5, 16, 8, 3);
    let attrs = vec![("counter".to_string(), AttrValue::Int(4))];
    let event = p.emit("cache.hits".to_string(), 9, attrs);
    assert_eq!(event.name, "cache.hits");
    assert_eq!(p.batcher.submitted, 1);
    match &p.batcher.current[0] {
        Item::Metric(point) => {
            assert_eq!(point.instrument_name, "cache.hits");
            assert_eq!(point.kind, MetricKind::Counter);
            assert_eq!(point.value, 4);
            assert_eq!(point.timestamp, 9);
        },
        other => panic!("unexpected item: {other:?}"),
    }
}

#[test]
fn histogram_marking_and_unmarked_events() {
    let mut p = Pipeline::new(5, 16, 8, 3);

    let plain = p.emit("just a log line".to_string(), 1, Vec::new());
    assert_eq!(plain.attached_span_id, None);
    assert_eq!(p.batcher.submitted, 0);

    let attrs = vec![("histogram".to_string(), AttrValue::Int(125))];
    p.emit("latency.ms".to_string(), 2, attrs);
    assert_eq!(p.batcher.submitted, 1);
    match &p.batcher.current[0] {
        Item::Metric(point) => {
            assert_eq!(point.kind, MetricKind::Histogram);
            assert_eq!(point.value, 125);
        },
        other => panic!("unexpected item: {other:?}"),
    }
}

#[test]
fn cancellation_submits_open_spans_deepest_first() {
    let mut p = Pipeline::new(5, 16, 8, 3);
    p.enter("outer".to_string(), 1, Vec::new());
    p.enter("inner".to_string(), 2, Vec::new());
    p.cancel(30);
    assert_eq!(p.ctx.stack.len(), 0);
    assert_eq!(p.batcher.submitted, 2);
    match (&p.batcher.current[0], &p.batcher.current[1]) {
        (Item::Finished(first), Item::Finished(second)) => {
            assert_eq!(first.name, "inner");
            assert_eq!(second.name, "outer");
            assert_eq!(first.status, Status::Error);
            assert_eq!(second.status, Status::Error);
            assert_eq!(first.end_time, Some(30));
            assert_eq!(second.end_time, Some(30));
        },
        other => panic!("unexpected items: {other:?}"),
    }
}

#[test]
fn pipeline_shutdown_flushes_before_returning() {
    let mut p = Pipeline::new(16, 8, 3, 3);
    p.enter("request".to_string(), 1, Vec::new());
    p.emit("step".to_string(), 2, vec![("counter".to_string(), AttrValue::Int(1))]);
    p.exit(3, false);

    p.begin_shutdown();
    let deadline: u64 = 100;
    let mut now: u64 = 10;
    while p.batcher.should_keep_flushing(now, deadline) {
        if p.batcher.begin_flush() {
            p.batcher.on_transport_result(true);
        }
        now += 1;
    }
    assert!(p.batcher.is_drained());
    assert_eq!(p.batcher.delivered_items, 2);
}
