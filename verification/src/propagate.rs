//! Cross-process context propagation.
//!
//! A carrier is a flat list of string keys and string values, fit for
//! request metadata. `inject` writes the current trace context into a
//! carrier; `extract` reads one back, yielding nothing on absent or
//! malformed input so that the receiver degrades to starting a new trace.

use vstd::prelude::*;
use vstd::string::StringExecFns;
use crate::codec::{digits, encode_id, parse_id, parse_id_str, lemma_parse_id_of_digits,
    ID_DIGITS};

verus! {

/// A transport-agnostic key/value carrier for trace context.
#[derive(Debug)]
pub struct Carrier {
    pub entries: Vec<(String, String)>,
}

/// Carrier key under which the trace identifier travels.
pub open spec fn trace_key() -> Seq<char> {
    "trace-id"@
}

/// Carrier key under which the span identifier travels.
pub open spec fn span_key() -> Seq<char> {
    "span-id"@
}

/// The carrier that `inject` produces for a given context.
pub open spec fn spec_inject(trace_id: u64, span_id: u64) -> Seq<(Seq<char>, Seq<char>)> {
    seq![
        (trace_key(), digits(trace_id as nat, ID_DIGITS as nat)),
        (span_key(), digits(span_id as nat, ID_DIGITS as nat)),
    ]
}

/// The value under the first entry whose key is `key`, if any.
pub open spec fn lookup(m: Seq<(Seq<char>, Seq<char>)>, key: Seq<char>) -> Option<Seq<char>>
    decreases m.len(),
{
    if m.len() == 0 {
        None
    } else if m[0].0 == key {
        Some(m[0].1)
    } else {
        lookup(m.drop_first(), key)
    }
}

/// What `extract` yields from a carrier: both identifiers, provided both
/// entries are present and well formed; nothing otherwise.
pub open spec fn spec_extract(m: Seq<(Seq<char>, Seq<char>)>) -> Option<(u64, u64)> {
    match (lookup(m, trace_key()), lookup(m, span_key())) {
        (Some(tv), Some(sv)) => match (parse_id(tv), parse_id(sv)) {
            (Some(t), Some(s)) => Some((t, s)),
            _ => None,
        },
        _ => None,
    }
}

impl Carrier {
    /// The carrier as a sequence of key/value character strings.
    pub open spec fn model(&self) -> Seq<(Seq<char>, Seq<char>)> {
        self.entries@.map_values(|p: (String, String)| (p.0@, p.1@))
    }

    /// An empty carrier.
    pub fn new() -> (c: Carrier)
        ensures
            c.model() == Seq::<(Seq<char>, Seq<char>)>::empty(),
    {
        let c = Carrier { entries: Vec::new() };
        proof {
            assert(c.model() =~= Seq::<(Seq<char>, Seq<char>)>::empty());
        }
        c
    }

    /// Append one entry.
    pub fn push_entry(&mut self, key: String, value: String)
        ensures
            final(self).model() == old(self).model().push((key@, value@)),
    {
        let ghost prior = self.model();
        self.entries.push((key, value));
        proof {
            assert(self.model() =~= prior.push((key@, value@)));
        }
    }

    /// The value under the first entry whose key is `key`, if any.
    pub fn find<'a>(&'a self, key: &String) -> (r: Option<&'a String>)
        ensures
            match r {
                Some(v) => lookup(self.model(), key@) == Some(v@),
                None => lookup(self.model(), key@) is None,
            },
    {
        let n = self.entries.len();
        let mut i: usize = 0;
        while i < n
            invariant
                n == self.entries@.len(),
                0 <= i <= n,
                forall|j: int| 0 <= j < i ==> (#[trigger] self.entries@[j]).0@ != key@,
            decreases n - i,
        {
            if self.entries[i].0 == *key {
                proof {
                    lemma_lookup_at(self.model(), key@, i as int);
                }
                return Some(&self.entries[i].1);
            }
            i += 1;
        }
        proof {
            lemma_lookup_absent(self.model(), key@);
        }
        None
    }
}

proof fn lemma_lookup_at(m: Seq<(Seq<char>, Seq<char>)>, key: Seq<char>, i: int)
    requires
        0 <= i < m.len(),
        m[i].0 == key,
        forall|j: int| 0 <= j < i ==> (#[trigger] m[j]).0 != key,
    ensures
        lookup(m, key) == Some(m[i].1),
    decreases i,
{
    if i > 0 {
        lemma_lookup_at(m.drop_first(), key, i - 1);
    }
}

proof fn lemma_lookup_absent(m: Seq<(Seq<char>, Seq<char>)>, key: Seq<char>)
    requires
        forall|j: int| 0 <= j < m.len() ==> (#[trigger] m[j]).0 != key,
    ensures
        lookup(m, key) is None,
    decreases m.len(),
{
    if m.len() > 0 {
        lemma_lookup_absent(m.drop_first(), key);
    }
}

/// Serialize a trace context into a fresh carrier.
pub fn inject(trace_id: u64, span_id: u64) -> (c: Carrier)
    ensures
        c.model() == spec_inject(trace_id, span_id),
{
    let mut c = Carrier::new();
    c.push_entry(String::from_str("trace-id"), encode_id(trace_id));
    c.push_entry(String::from_str("span-id"), encode_id(span_id));
    proof {
        assert(c.model() =~= spec_inject(trace_id, span_id));
    }
    c
}

/// Read a trace context back out of a carrier. Absent or malformed input
/// yields nothing; it never fails the caller.
pub fn extract(c: &Carrier) -> (r: Option<(u64, u64)>)
    ensures
        r == spec_extract(c.model()),
{
    let tkey = String::from_str("trace-id");
    let skey = String::from_str("span-id");
    let tv = match c.find(&tkey) {
        Some(v) => v,
        None => {
            return None;
        },
    };
    let sv = match c.find(&skey) {
        Some(v) => v,
        None => {
            return None;
        },
    };
    let t = match parse_id_str(tv.as_str()) {
        Some(t) => t,
        None => {
            return None;
        },
    };
    let s = match parse_id_str(sv.as_str()) {
        Some(s) => s,
        None => {
            return None;
        },
    };
    Some((t, s))
}

/// Round trip: extracting an injected context yields it unchanged.
pub proof fn lemma_extract_inject(trace_id: u64, span_id: u64)
    ensures
        spec_extract(spec_inject(trace_id, span_id)) == Some((trace_id, span_id)),
{
    reveal_strlit("trace-id");
    reveal_strlit("span-id");
    let m = spec_inject(trace_id, span_id);
    let tail = m.drop_first();
    assert(trace_key().len() == 8);
    assert(span_key().len() == 7);
    assert(m[0].0 == trace_key());
    assert(lookup(m, trace_key()) == Some(digits(trace_id as nat, ID_DIGITS as nat)));
    assert(tail =~= seq![(span_key(), digits(span_id as nat, ID_DIGITS as nat))]);
    assert(m[0].0 != span_key());
    assert(lookup(m, span_key()) == lookup(tail, span_key()));
    assert(tail[0].0 == span_key());
    assert(lookup(tail, span_key()) == Some(digits(span_id as nat, ID_DIGITS as nat)));
    lemma_parse_id_of_digits(trace_id);
    lemma_parse_id_of_digits(span_id);
}

} // verus!
