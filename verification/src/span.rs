//! Spans: timed records of one unit of work.
//!
//! A span is created open, may collect attributes while open, and is
//! completed exactly once: a second completion changes nothing, and after
//! completion the record is immutable.

use vstd::prelude::*;

verus! {

/// Outcome reported for a completed unit of work.
#[derive(Clone, Copy, Debug, PartialEq, Eq, Structural)]
pub enum Status {
    Unset,
    Okay,
    Error,
}

/// A scalar attribute value.
#[derive(Debug)]
pub enum AttrValue {
    Text(String),
    Int(i64),
    Flag(bool),
}

/// The value of the first attribute named `key`, if any.
pub open spec fn attr_lookup(attrs: Seq<(String, AttrValue)>, key: Seq<char>) -> Option<AttrValue>
    decreases attrs.len(),
{
    if attrs.len() == 0 {
        None
    } else if attrs[0].0@ == key {
        Some(attrs[0].1)
    } else {
        attr_lookup(attrs.drop_first(), key)
    }
}

pub proof fn lemma_attr_lookup_at(attrs: Seq<(String, AttrValue)>, key: Seq<char>, i: int)
    requires
        0 <= i < attrs.len(),
        attrs[i].0@ == key,
        forall|j: int| 0 <= j < i ==> (#[trigger] attrs[j]).0@ != key,
    ensures
        attr_lookup(attrs, key) == Some(attrs[i].1),
    decreases i,
{
    if i > 0 {
        lemma_attr_lookup_at(attrs.drop_first(), key, i - 1);
    }
}

pub proof fn lemma_attr_lookup_absent(attrs: Seq<(String, AttrValue)>, key: Seq<char>)
    requires
        forall|j: int| 0 <= j < attrs.len() ==> (#[trigger] attrs[j]).0@ != key,
    ensures
        attr_lookup(attrs, key) is None,
    decreases attrs.len(),
{
    if attrs.len() > 0 {
        lemma_attr_lookup_absent(attrs.drop_first(), key);
    }
}

/// Find the first attribute named `key`.
pub fn find_attr<'a>(attrs: &'a Vec<(String, AttrValue)>, key: &String) -> (r: Option<&'a AttrValue>)
    ensures
        match r {
            Some(v) => attr_lookup(attrs@, key@) == Some(*v),
            None => attr_lookup(attrs@, key@) is None,
        },
{
    let n = attrs.len();
    let mut i: usize = 0;
    while i < n
        invariant
            n == attrs@.len(),
            0 <= i <= n,
            forall|j: int| 0 <= j < i ==> (#[trigger] attrs@[j]).0@ != key@,
        decreases n - i,
    {
        if attrs[i].0 == *key {
            proof {
                lemma_attr_lookup_at(attrs@, key@, i as int);
            }
            return Some(&attrs[i].1);
        }
        i += 1;
    }
    proof {
        lemma_attr_lookup_absent(attrs@, key@);
    }
    None
}

/// One unit of work: identity, linkage into the trace tree, timing,
/// attributes, and an outcome.
#[derive(Debug)]
pub struct Span {
    pub span_id: u64,
    pub trace_id: u64,
    pub parent_span_id: Option<u64>,
    pub name: String,
    pub start_time: u64,
    pub end_time: Option<u64>,
    pub attributes: Vec<(String, AttrValue)>,
    pub status: Status,
}

/// The span `s` after a request to complete it at `now` with `status`:
/// a no-op when `s` is already completed, otherwise the end time is set
/// (never earlier than the start time) and the status recorded.
pub open spec fn spec_complete(s: Span, now: u64, status: Status) -> Span {
    if s.end_time is Some {
        s
    } else {
        Span {
            end_time: if now >= s.start_time {
                Some(now)
            } else {
                Some(s.start_time)
            },
            status,
            ..s
        }
    }
}

impl Span {
    /// Whether the span has been completed.
    pub open spec fn completed(self) -> bool {
        self.end_time is Some
    }

    /// Once the end time is set it never precedes the start time.
    pub open spec fn wf(self) -> bool {
        match self.end_time {
            Some(e) => e >= self.start_time,
            None => true,
        }
    }

    /// Open a new span.
    pub fn new(
        span_id: u64,
        trace_id: u64,
        parent_span_id: Option<u64>,
        name: String,
        start_time: u64,
        attributes: Vec<(String, AttrValue)>,
    ) -> (s: Span)
        ensures
            s.span_id == span_id,
            s.trace_id == trace_id,
            s.parent_span_id == parent_span_id,
            s.name == name,
            s.start_time == start_time,
            s.end_time is None,
            s.attributes == attributes,
            s.status == Status::Unset,
            !s.completed(),
            s.wf(),
    {
        Span {
            span_id,
            trace_id,
            parent_span_id,
            name,
            start_time,
            end_time: None,
            attributes,
            status: Status::Unset,
        }
    }

    /// Complete the span. Completing an already completed span is a no-op.
    pub fn complete(&mut self, now: u64, status: Status)
        ensures
            *final(self) == spec_complete(*old(self), now, status),
            final(self).completed(),
            old(self).wf() ==> final(self).wf(),
    {
        if self.end_time.is_none() {
            let end = if now >= self.start_time {
                now
            } else {
                self.start_time
            };
            self.end_time = Some(end);
            self.status = status;
        }
    }

    /// Add an attribute. Attributes may only change while the span is open;
    /// on a completed span this is a no-op.
    pub fn set_attribute(&mut self, key: String, value: AttrValue)
        ensures
            old(self).completed() ==> *final(self) == *old(self),
            !old(self).completed() ==> final(self).attributes@ == old(self).attributes@.push(
                (key, value),
            ),
            final(self).span_id == old(self).span_id,
            final(self).trace_id == old(self).trace_id,
            final(self).parent_span_id == old(self).parent_span_id,
            final(self).name == old(self).name,
            final(self).start_time == old(self).start_time,
            final(self).end_time == old(self).end_time,
            final(self).status == old(self).status,
            final(self).completed() == old(self).completed(),
            final(self).wf() == old(self).wf(),
    {
        if self.end_time.is_none() {
            self.attributes.push((key, value));
        }
    }
}

/// Completion is idempotent: once a span is completed, a later completion
/// request leaves it exactly as it was.
pub proof fn lemma_complete_idempotent(s: Span, t1: u64, st1: Status, t2: u64, st2: Status)
    ensures
        spec_complete(spec_complete(s, t1, st1), t2, st2) == spec_complete(s, t1, st1),
{
}

/// A completion request never breaks well-formedness, and always leaves the
/// span completed.
pub proof fn lemma_complete_wf(s: Span, now: u64, status: Status)
    requires
        s.wf(),
    ensures
        spec_complete(s, now, status).wf(),
        spec_complete(s, now, status).completed(),
{
}

} // verus!
