//! The subscription registry: a mapping from event name to the callbacks
//! subscribed to it, in subscription order.
//!
//! Callbacks are opaque numeric handles to externally owned invocables; the
//! registry never owns the underlying resource. The concurrent embedding
//! guards one table with a single reader/writer lock: `subscribe` under the
//! exclusive side, the dispatcher's `lookup` under the shared side. There is
//! no removal operation; that gap is deliberate and inherited from the bus's
//! observable behavior.

use vstd::prelude::*;

verus! {

/// The mathematical content of a table: event name, as a character sequence,
/// to the subscribed handles in subscription order.
pub open spec fn entries_map(s: Seq<(String, Vec<u64>)>) -> Map<Seq<char>, Seq<u64>>
    decreases s.len(),
{
    if s.len() == 0 {
        Map::empty()
    } else {
        entries_map(s.drop_last()).insert(s.last().0@, s.last().1@)
    }
}

/// The callbacks subscribed to `event`, in subscription order; empty when the
/// event has no entry (which is not an error).
pub open spec fn lookup_spec(m: Map<Seq<char>, Seq<u64>>, event: Seq<char>) -> Seq<u64> {
    if m.dom().contains(event) {
        m[event]
    } else {
        Seq::empty()
    }
}

/// The table after one subscription: the handle is appended at the end of the
/// event's list, which is created if absent.
pub open spec fn subscribe_spec(m: Map<Seq<char>, Seq<u64>>, event: Seq<char>, handle: u64) -> Map<
    Seq<char>,
    Seq<u64>,
> {
    m.insert(event, lookup_spec(m, event).push(handle))
}

/// Subscribing `a` and `b` to the same event, in that order, appends them in
/// that order: whatever was subscribed before, `a` ends up strictly before
/// `b` in the event's callback list, and the list of every other event is
/// untouched.
pub proof fn lemma_subscription_order(
    m: Map<Seq<char>, Seq<u64>>,
    event: Seq<char>,
    a: u64,
    b: u64,
)
    ensures
        ({
            let s = lookup_spec(subscribe_spec(subscribe_spec(m, event, a), event, b), event);
            &&& s == lookup_spec(m, event).push(a).push(b)
            &&& s.len() >= 2
            &&& s[s.len() - 2] == a
            &&& s[s.len() - 1] == b
        }),
        forall|other: Seq<char>|
            other != event ==> lookup_spec(
                subscribe_spec(subscribe_spec(m, event, a), event, b),
                other,
            ) == lookup_spec(m, other),
{
}

/// No two entries share a key.
pub open spec fn keys_unique(s: Seq<(String, Vec<u64>)>) -> bool {
    forall|i: int, j: int| 0 <= i < j < s.len() ==> s[i].0@ != s[j].0@
}

proof fn lemma_entries_map_domain(s: Seq<(String, Vec<u64>)>, k: Seq<char>)
    ensures
        entries_map(s).dom().contains(k) <==> exists|i: int| 0 <= i < s.len() && s[i].0@ == k,
    decreases s.len(),
{
    if s.len() > 0 {
        lemma_entries_map_domain(s.drop_last(), k);
        if s.last().0@ == k {
            assert(s[s.len() - 1].0@ == k);
        } else if entries_map(s).dom().contains(k) {
            let i = choose|i: int| 0 <= i < s.drop_last().len() && s.drop_last()[i].0@ == k;
            assert(s[i].0@ == k);
        } else if exists|i: int| 0 <= i < s.len() && s[i].0@ == k {
            let i = choose|i: int| 0 <= i < s.len() && s[i].0@ == k;
            assert(s.drop_last()[i].0@ == k);
        }
    }
}

proof fn lemma_entries_map_at(s: Seq<(String, Vec<u64>)>, k: Seq<char>, i: int)
    requires
        keys_unique(s),
        0 <= i < s.len(),
        s[i].0@ == k,
    ensures
        entries_map(s).dom().contains(k),
        entries_map(s)[k] == s[i].1@,
    decreases s.len(),
{
    if i < s.len() - 1 {
        assert(keys_unique(s.drop_last()));
        assert(s.drop_last()[i].0@ == k);
        lemma_entries_map_at(s.drop_last(), k, i);
        assert(s.last().0@ != k);
    }
}

proof fn lemma_entries_map_update(s: Seq<(String, Vec<u64>)>, i: int, e: (String, Vec<u64>))
    requires
        keys_unique(s),
        0 <= i < s.len(),
        e.0@ == s[i].0@,
    ensures
        entries_map(s.update(i, e)) == entries_map(s).insert(e.0@, e.1@),
    decreases s.len(),
{
    let t = s.update(i, e);
    let k = e.0@;
    if i == s.len() - 1 {
        assert(t.drop_last() =~= s.drop_last());
        assert(t.last() == e);
        assert(entries_map(s).insert(k, e.1@) =~= entries_map(s.drop_last()).insert(k, e.1@));
    } else {
        assert(t.drop_last() =~= s.drop_last().update(i, e));
        assert(t.last() == s.last());
        assert(keys_unique(s.drop_last()));
        assert(s.drop_last()[i] == s[i]);
        lemma_entries_map_update(s.drop_last(), i, e);
        assert(s.last().0@ != k);
        assert(entries_map(s.drop_last()).insert(k, e.1@).insert(s.last().0@, s.last().1@)
            =~= entries_map(s.drop_last()).insert(s.last().0@, s.last().1@).insert(k, e.1@));
    }
}

proof fn lemma_entries_map_push(s: Seq<(String, Vec<u64>)>, e: (String, Vec<u64>))
    ensures
        entries_map(s.push(e)) == entries_map(s).insert(e.0@, e.1@),
{
    assert(s.push(e).drop_last() =~= s);
    assert(s.push(e).last() == e);
}

/// Mapping from event name to the ordered list of callback handles
/// subscribed to it; insertion order of the callbacks is preserved.
pub struct SubscriptionTable {
    entries: Vec<(String, Vec<u64>)>,
}

impl View for SubscriptionTable {
    type V = Map<Seq<char>, Seq<u64>>;

    /// The table as a mathematical map.
    closed spec fn view(&self) -> Map<Seq<char>, Seq<u64>> {
        entries_map(self.entries@)
    }
}

impl SubscriptionTable {
    /// Internal shape of the table: one entry per event name.
    pub closed spec fn wf(&self) -> bool {
        keys_unique(self.entries@)
    }

    /// An empty table.
    pub fn new() -> (r: SubscriptionTable)
        ensures
            r.wf(),
            r@ == Map::<Seq<char>, Seq<u64>>::empty(),
    {
        SubscriptionTable { entries: Vec::new() }
    }

    /// Append `handle` at the end of the list for `event`, creating the list
    /// if absent. Always succeeds; every earlier subscription of the event,
    /// and every other event, is left as it was.
    pub fn subscribe(&mut self, event: String, handle: u64)
        requires
            old(self).wf(),
        ensures
            final(self).wf(),
            final(self)@ == subscribe_spec(old(self)@, event@, handle),
    {
        let ghost s0 = self.entries@;
        let mut i: usize = 0;
        while i < self.entries.len()
            invariant
                0 <= i <= self.entries@.len(),
                self.entries@ == s0,
                s0 == old(self).entries@,
                keys_unique(s0),
                forall|j: int| 0 <= j < i ==> s0[j].0@ != event@,
            decreases self.entries@.len() - i,
        {
            if self.entries[i].0 == event {
                let mut entry = self.entries.remove(i);
                entry.1.push(handle);
                proof {
                    lemma_entries_map_at(s0, event@, i as int);
                }
                let ghost e = entry;
                self.entries.insert(i, entry);
                proof {
                    assert(self.entries@ =~= s0.update(i as int, e));
                    lemma_entries_map_update(s0, i as int, e);
                    assert(e.1@ == lookup_spec(entries_map(s0), event@).push(handle));
                    assert(forall|p: int, q: int|
                        0 <= p < q < self.entries@.len() ==> self.entries@[p].0@
                            != self.entries@[q].0@) by {
                        assert(forall|p: int|
                            0 <= p < self.entries@.len() ==> self.entries@[p].0@ == s0[p].0@);
                    }
                }
                return ;
            }
            i += 1;
        }
        proof {
            lemma_entries_map_domain(s0, event@);
        }
        let mut handles: Vec<u64> = Vec::new();
        handles.push(handle);
        let ghost hs = handles@;
        let ghost ev = event@;
        self.entries.push((event, handles));
        proof {
            lemma_entries_map_push(s0, self.entries@.last());
            assert(hs =~= Seq::<u64>::empty().push(handle));
            assert(forall|p: int, q: int|
                0 <= p < q < self.entries@.len() ==> self.entries@[p].0@
                    != self.entries@[q].0@) by {
                assert(forall|p: int| 0 <= p < s0.len() ==> self.entries@[p] == s0[p]);
                assert(self.entries@[self.entries@.len() - 1].0@ == ev);
            }
        }
    }

    /// An immutable snapshot of the callbacks subscribed to `event`, in
    /// subscription order; empty when the event has no entry. Later mutation
    /// of the table does not affect a snapshot already taken.
    pub fn lookup(&self, event: &String) -> (r: Vec<u64>)
        requires
            self.wf(),
        ensures
            r@ == lookup_spec(self@, event@),
    {
        let mut i: usize = 0;
        while i < self.entries.len()
            invariant
                0 <= i <= self.entries@.len(),
                forall|j: int| 0 <= j < i ==> self.entries@[j].0@ != event@,
                self.wf(),
            decreases self.entries@.len() - i,
        {
            if self.entries[i].0 == *event {
                proof {
                    lemma_entries_map_at(self.entries@, event@, i as int);
                }
                let handles = &self.entries[i].1;
                let mut out: Vec<u64> = Vec::new();
                let mut j: usize = 0;
                while j < handles.len()
                    invariant
                        0 <= j <= handles@.len(),
                        out@ == handles@.take(j as int),
                    decreases handles@.len() - j,
                {
                    out.push(handles[j]);
                    j += 1;
                }
                assert(out@ =~= handles@);
                return out;
            }
            i += 1;
        }
        proof {
            lemma_entries_map_domain(self.entries@, event@);
        }
        Vec::new()
    }

    /// Number of event names with at least one entry.
    pub fn event_count(&self) -> (n: usize)
        requires
            self.wf(),
        ensures
            n == self@.dom().len(),
    {
        proof {
            lemma_entries_map_card(self.entries@);
        }
        self.entries.len()
    }
}

proof fn lemma_entries_map_card(s: Seq<(String, Vec<u64>)>)
    requires
        keys_unique(s),
    ensures
        entries_map(s).dom().finite(),
        entries_map(s).dom().len() == s.len(),
    decreases s.len(),
{
    if s.len() > 0 {
        assert(keys_unique(s.drop_last()));
        lemma_entries_map_card(s.drop_last());
        lemma_entries_map_domain(s.drop_last(), s.last().0@);
        assert(forall|i: int|
            0 <= i < s.drop_last().len() ==> s.drop_last()[i] == s[i]);
        assert(!entries_map(s.drop_last()).dom().contains(s.last().0@));
    }
}

} // verus!
