//! The data carried through the bus: values, payloads and envelopes.

use vstd::prelude::*;

verus! {

/// A primitive or structured value inside a payload.
#[derive(Debug, PartialEq)]
pub enum Value {
    Null,
    Bool(bool),
    Int(i64),
    Text(String),
    List(Vec<Value>),
}

/// The structured payload a publisher supplies: an ordered, keyed map of
/// values, passed unmodified to every callback of the event. Entries keep
/// insertion order; `push_field` keeps keys unique.
#[derive(Debug, PartialEq)]
pub struct Payload {
    pub entries: Vec<(String, Value)>,
}

impl Payload {
    /// No two entries share a key.
    pub open spec fn keys_unique(self) -> bool {
        forall|i: int, j: int|
            0 <= i < j < self.entries@.len() ==> self.entries@[i].0@ != self.entries@[j].0@
    }

    /// Some entry has the key `k`.
    pub open spec fn contains_key(self, k: Seq<char>) -> bool {
        exists|i: int| 0 <= i < self.entries@.len() && self.entries@[i].0@ == k
    }

    /// An empty payload.
    pub fn new() -> (r: Payload)
        ensures
            r.entries@ == Seq::<(String, Value)>::empty(),
            r.keys_unique(),
    {
        Payload { entries: Vec::new() }
    }

    /// Append `(key, value)` at the end, unless an entry with that key is
    /// already present; reports whether the entry was added.
    pub fn push_field(&mut self, key: String, value: Value) -> (added: bool)
        ensures
            added == !old(self).contains_key(key@),
            added ==> final(self).entries@ == old(self).entries@.push((key, value)),
            !added ==> final(self).entries@ == old(self).entries@,
            old(self).keys_unique() ==> final(self).keys_unique(),
    {
        let mut i: usize = 0;
        while i < self.entries.len()
            invariant
                0 <= i <= self.entries@.len(),
                self.entries@ == old(self).entries@,
                forall|j: int| 0 <= j < i ==> self.entries@[j].0@ != key@,
            decreases self.entries@.len() - i,
        {
            if self.entries[i].0 == key {
                return false;
            }
            i += 1;
        }
        self.entries.push((key, value));
        true
    }

    /// Number of entries.
    pub fn len(&self) -> (n: usize)
        ensures
            n == self.entries@.len(),
    {
        self.entries.len()
    }
}

/// One (event name, payload) unit moving through the delivery channel,
/// immutable once enqueued.
#[derive(Debug, PartialEq)]
pub struct Envelope {
    pub event: String,
    pub payload: Payload,
}

} // verus!
