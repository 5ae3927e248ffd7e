//! The bounded, in-memory event log that every protocol adapter reports to.

use vstd::prelude::*;
use std::collections::{BTreeMap, VecDeque};
use crate::number::{decimal, decimal_chars};
use crate::text::{chars_eq, chars_of, string_of};

verus! {

#[verifier::external_type_specification]
#[verifier::external_body]
pub struct ExJsonValue(serde_json::Value);

/// One observed protocol event.
#[derive(Clone, Debug)]
pub struct Event {
    pub schema_version: u8,
    pub id: String,
    pub seq: u64,
    pub at: String,
    pub protocol: String,
    pub kind: String,
    pub connection_id: Option<String>,
    pub direction: Option<String>,
    pub summary: String,
    pub attributes: BTreeMap<String, serde_json::Value>,
}

/// An event with its text fields taken as character sequences.
pub ghost struct EventView {
    pub schema_version: u8,
    pub id: Seq<char>,
    pub seq: u64,
    pub at: Seq<char>,
    pub protocol: Seq<char>,
    pub kind: Seq<char>,
    pub connection_id: Option<Seq<char>>,
    pub direction: Option<Seq<char>>,
    pub summary: Seq<char>,
    pub attributes: Map<String, serde_json::Value>,
}

pub open spec fn opt_view(o: Option<String>) -> Option<Seq<char>> {
    match o {
        Some(s) => Some(s@),
        None => None,
    }
}

impl View for Event {
    type V = EventView;

    open spec fn view(&self) -> EventView {
        EventView {
            schema_version: self.schema_version,
            id: self.id@,
            seq: self.seq,
            at: self.at@,
            protocol: self.protocol@,
            kind: self.kind@,
            connection_id: opt_view(self.connection_id),
            direction: opt_view(self.direction),
            summary: self.summary@,
            attributes: self.attributes@,
        }
    }
}

fn copy_opt(o: &Option<String>) -> (r: Option<String>)
    ensures
        opt_view(r) == opt_view(*o),
{
    match o {
        Some(s) => Some(s.clone()),
        None => None,
    }
}

impl Event {
    /// A field-by-field copy.
    pub fn copy(&self) -> (r: Event)
        ensures
            r@ == self@,
    {
        Event {
            schema_version: self.schema_version,
            id: self.id.clone(),
            seq: self.seq,
            at: self.at.clone(),
            protocol: self.protocol.clone(),
            kind: self.kind.clone(),
            connection_id: copy_opt(&self.connection_id),
            direction: copy_opt(&self.direction),
            summary: self.summary.clone(),
            attributes: self.attributes.clone(),
        }
    }
}

/// The views of a sequence of events.
pub open spec fn event_views(s: Seq<Event>) -> Seq<EventView> {
    s.map_values(|e: Event| e@)
}

/// Does an event pass the optional protocol filter?
pub open spec fn matches_protocol(e: EventView, protocol: Option<Seq<char>>) -> bool {
    match protocol {
        Some(p) => e.protocol == p,
        None => true,
    }
}

/// At most `n` events of `s` that pass the filter, newest (last) first.
pub open spec fn newest_matching(s: Seq<EventView>, protocol: Option<Seq<char>>, n: nat) -> Seq<EventView>
    decreases s.len(),
{
    if s.len() == 0 || n == 0 {
        Seq::empty()
    } else if matches_protocol(s.last(), protocol) {
        seq![s.last()] + newest_matching(s.drop_last(), protocol, (n - 1) as nat)
    } else {
        newest_matching(s.drop_last(), protocol, n)
    }
}

/// The current UTC time in RFC 3339 form: `OffsetDateTime::now_utc` of the
/// `time` crate, formatted with its `Rfc3339` description, or the Unix epoch when
/// formatting fails. The result depends on the clock, so nothing is stated of it.
#[verifier::external_body]
fn now_rfc3339_like() -> String {
    time::OffsetDateTime::now_utc()
        .format(&time::format_description::well_known::Rfc3339)
        .unwrap_or_else(|_| "1970-01-01T00:00:00Z".to_owned())
}

/// The identifier of the event with sequence number `seq`.
pub open spec fn event_id(seq: u64) -> Seq<char> {
    "evt_"@ + decimal(seq as nat)
}

/// The event that a push records.
pub open spec fn recorded_event(
    seq: u64,
    at: Seq<char>,
    protocol: Seq<char>,
    kind: Seq<char>,
    summary: Seq<char>,
    attributes: Map<String, serde_json::Value>,
) -> EventView {
    EventView {
        schema_version: 1,
        id: event_id(seq),
        seq,
        at,
        protocol,
        kind,
        connection_id: None,
        direction: None,
        summary,
        attributes,
    }
}

/// `s` with its oldest entries dropped until at most `capacity` remain.
pub open spec fn keep_newest(s: Seq<EventView>, capacity: nat) -> Seq<EventView> {
    if s.len() > capacity {
        s.skip(s.len() - capacity)
    } else {
        s
    }
}

pub open spec fn sat_add(a: u64, b: nat) -> u64 {
    if a + b > u64::MAX {
        u64::MAX
    } else {
        (a + b) as u64
    }
}

/// The retained events, the next sequence number, the number of events dropped
/// to respect the capacity, and the capacity itself.
pub struct EventStore {
    capacity: usize,
    next_seq: u64,
    dropped: u64,
    events: VecDeque<Event>,
}

impl EventStore {
    /// The retained events, oldest first.
    pub closed spec fn retained(&self) -> Seq<EventView> {
        event_views(self.events@)
    }

    pub closed spec fn capacity_spec(&self) -> nat {
        self.capacity as nat
    }

    pub closed spec fn next_seq_spec(&self) -> u64 {
        self.next_seq
    }

    pub closed spec fn dropped_spec(&self) -> u64 {
        self.dropped
    }

    /// The store is bounded, and sequence numbers grow with age: every retained
    /// event is older than the next one, and newer events carry larger numbers
    /// (numbers stop growing only once they reach `u64::MAX`).
    pub open spec fn inv(&self) -> bool {
        &&& 1 <= self.capacity_spec()
        &&& self.retained().len() <= self.capacity_spec()
        &&& 1 <= self.next_seq_spec()
        &&& forall|i: int| 0 <= i < self.retained().len() ==> #[trigger] self.retained()[i].seq
            < self.next_seq_spec() || self.next_seq_spec() == u64::MAX
        &&& forall|i: int, j: int| 0 <= i < j < self.retained().len() ==> #[trigger] self.retained()[i].seq
            < #[trigger] self.retained()[j].seq || self.retained()[j].seq == u64::MAX
    }

    /// An empty store that keeps at most `capacity` events (at least one).
    pub fn new(capacity: usize) -> (r: EventStore)
        ensures
            r.inv(),
            r.capacity_spec() == if capacity == 0 { 1 } else { capacity as nat },
            r.retained() == Seq::<EventView>::empty(),
            r.next_seq_spec() == 1,
            r.dropped_spec() == 0,
    {
        let capacity = if capacity == 0 { 1 } else { capacity };
        let r = EventStore { capacity, next_seq: 1, dropped: 0, events: VecDeque::new() };
        assert(r.retained() =~= Seq::<EventView>::empty());
        r
    }

    /// The maximum number of retained events.
    pub fn capacity(&self) -> (r: usize)
        ensures
            r as nat == self.capacity_spec(),
    {
        self.capacity
    }

    /// Record an event observed at `at`, evicting the oldest one when the store
    /// is full, and return it.
    pub fn push_at(
        &mut self,
        protocol: &str,
        kind: &str,
        summary: String,
        attributes: BTreeMap<String, serde_json::Value>,
        at: String,
    ) -> (e: Event)
        requires
            old(self).inv(),
        ensures
            final(self).inv(),
            e@ == recorded_event(old(self).next_seq_spec(), at@, protocol@, kind@, summary@, attributes@),
            final(self).retained() == keep_newest(old(self).retained().push(e@), old(self).capacity_spec()),
            final(self).capacity_spec() == old(self).capacity_spec(),
            final(self).next_seq_spec() == sat_add(old(self).next_seq_spec(), 1),
            final(self).dropped_spec() == sat_add(old(self).dropped_spec(),
                (old(self).retained().len() + 1 - final(self).retained().len()) as nat),
    {
        let seq = self.next_seq;
        self.next_seq = if self.next_seq < u64::MAX { self.next_seq + 1 } else { u64::MAX };
        let mut id = "evt_".to_owned();
        let digits = decimal_chars(seq);
        let digit_text = string_of(digits.as_slice());
        id.append(digit_text.as_str());
        let event = Event {
            schema_version: 1,
            id,
            seq,
            at,
            protocol: protocol.to_owned(),
            kind: kind.to_owned(),
            connection_id: None,
            direction: None,
            summary,
            attributes,
        };
        let ghost before = self.events@;
        let copy = event.copy();
        self.events.push_back(copy);
        assert(event_views(self.events@) =~= event_views(before).push(event@));
        if self.events.len() > self.capacity {
            let ghost full = self.events@;
            let _ = self.events.pop_front();
            self.dropped = if self.dropped < u64::MAX { self.dropped + 1 } else { u64::MAX };
            assert(event_views(self.events@) =~= event_views(full).skip(1));
        }
        event
    }

    /// Up to `limit` retained events (and never more than the capacity) that
    /// match `protocol` when one is given, newest first.
    pub fn list(&self, limit: usize, protocol: Option<&str>) -> (r: Vec<Event>)
        requires
            self.inv(),
        ensures
            event_views(r@) == newest_matching(
                self.retained(),
                match protocol {
                    Some(p) => Some(p@),
                    None => None,
                },
                if limit < self.capacity_spec() { limit as nat } else { self.capacity_spec() },
            ),
    {
        let ghost wanted = match protocol {
            Some(p) => Some(p@),
            None => None::<Seq<char>>,
        };
        let n = if limit < self.capacity { limit } else { self.capacity };
        let filter = match protocol {
            Some(p) => Some(chars_of(p)),
            None => None,
        };
        let ghost all = self.retained();
        let mut r: Vec<Event> = Vec::new();
        let mut i: usize = self.events.len();
        assert(all.take(i as int) =~= all);
        while i > 0 && r.len() < n
            invariant
                i <= all.len(),
                all == self.retained(),
                all.len() == self.events@.len(),
                r@.len() <= n,
                match filter {
                    Some(f) => wanted == Some(f@),
                    None => wanted is None,
                },
                event_views(r@) + newest_matching(all.take(i as int), wanted, (n - r@.len()) as nat)
                    == newest_matching(all, wanted, n as nat),
            decreases i,
        {
            let ghost prefix = all.take(i as int);
            assert(prefix.drop_last() =~= all.take(i - 1));
            assert(prefix.last() == self.events@[i - 1]@);
            let e = &self.events[i - 1];
            let keep = match &filter {
                Some(f) => {
                    let pc = chars_of(e.protocol.as_str());
                    chars_eq(pc.as_slice(), f.as_slice())
                },
                None => true,
            };
            if keep {
                let ghost before = r@;
                r.push(e.copy());
                assert(event_views(r@) =~= event_views(before).push(e@));
                assert(event_views(r@) + newest_matching(all.take(i - 1), wanted, (n - r@.len()) as nat)
                    =~= event_views(before) + newest_matching(prefix, wanted, (n - before.len()) as nat));
            }
            i = i - 1;
        }
        proof {
            if i == 0 {
                assert(all.take(0) =~= Seq::<EventView>::empty());
            }
            assert(newest_matching(all.take(i as int), wanted, (n - r@.len()) as nat) =~= Seq::<EventView>::empty());
            assert(event_views(r@) + Seq::<EventView>::empty() =~= event_views(r@));
        }
        r
    }

    /// Record an event with attributes, stamped with the current time.
    pub fn push_with_attributes(
        &mut self,
        protocol: &str,
        kind: &str,
        summary: String,
        attributes: BTreeMap<String, serde_json::Value>,
    ) -> (e: Event)
        requires
            old(self).inv(),
        ensures
            final(self).inv(),
            e@ == recorded_event(old(self).next_seq_spec(), e@.at, protocol@, kind@, summary@, attributes@),
            final(self).retained() == keep_newest(old(self).retained().push(e@), old(self).capacity_spec()),
            final(self).capacity_spec() == old(self).capacity_spec(),
            final(self).next_seq_spec() == sat_add(old(self).next_seq_spec(), 1),
            final(self).dropped_spec() == sat_add(old(self).dropped_spec(),
                (old(self).retained().len() + 1 - final(self).retained().len()) as nat),
    {
        let at = now_rfc3339_like();
        self.push_at(protocol, kind, summary, attributes, at)
    }

    /// Record an event without attributes, stamped with the current time.
    pub fn push(&mut self, protocol: &str, kind: &str, summary: String) -> (e: Event)
        requires
            old(self).inv(),
        ensures
            final(self).inv(),
            e@ == recorded_event(old(self).next_seq_spec(), e@.at, protocol@, kind@, summary@,
                Map::<String, serde_json::Value>::empty()),
            final(self).retained() == keep_newest(old(self).retained().push(e@), old(self).capacity_spec()),
            final(self).capacity_spec() == old(self).capacity_spec(),
            final(self).next_seq_spec() == sat_add(old(self).next_seq_spec(), 1),
            final(self).dropped_spec() == sat_add(old(self).dropped_spec(),
                (old(self).retained().len() + 1 - final(self).retained().len()) as nat),
    {
        self.push_with_attributes(protocol, kind, summary, BTreeMap::new())
    }

    /// The number of events dropped to respect the capacity.
    pub fn dropped(&self) -> (r: u64)
        ensures
            r == self.dropped_spec(),
    {
        self.dropped
    }
}


/// Every event a filtered listing returns is a retained event.
pub proof fn lemma_newest_matching_members(s: Seq<EventView>, p: Option<Seq<char>>, n: nat)
    ensures
        forall|k: int| 0 <= k < newest_matching(s, p, n).len() ==> s.contains(#[trigger] newest_matching(s, p, n)[k]),
        newest_matching(s, p, n).len() <= n,
        newest_matching(s, p, n).len() <= s.len(),
    decreases s.len(),
{
    if s.len() > 0 && n > 0 {
        let m = if matches_protocol(s.last(), p) { (n - 1) as nat } else { n };
        lemma_newest_matching_members(s.drop_last(), p, m);
        let r = newest_matching(s, p, n);
        let tail = newest_matching(s.drop_last(), p, m);
        assert forall|k: int| 0 <= k < r.len() implies s.contains(#[trigger] r[k]) by {
            if matches_protocol(s.last(), p) {
                if k == 0 {
                    assert(s[s.len() - 1] == r[k]);
                } else {
                    assert(r[k] == tail[k - 1]);
                    let j = choose|j: int| 0 <= j < s.drop_last().len() && s.drop_last()[j] == tail[k - 1];
                    assert(s[j] == r[k]);
                }
            } else {
                let j = choose|j: int| 0 <= j < s.drop_last().len() && s.drop_last()[j] == tail[k];
                assert(s[j] == r[k]);
            }
        }
    }
}

/// Events ordered oldest to newest: later events carry larger sequence numbers,
/// unless the numbers have reached `u64::MAX`.
pub open spec fn ascending(s: Seq<EventView>) -> bool {
    forall|i: int, j: int| 0 <= i < j < s.len() ==> #[trigger] s[i].seq < #[trigger] s[j].seq || s[j].seq == u64::MAX
}

/// Events ordered newest to oldest.
pub open spec fn descending(s: Seq<EventView>) -> bool {
    forall|i: int, j: int| 0 <= i < j < s.len() ==> #[trigger] s[i].seq > #[trigger] s[j].seq || s[i].seq == u64::MAX
}

proof fn lemma_newest_matching_descending(s: Seq<EventView>, p: Option<Seq<char>>, n: nat)
    requires
        ascending(s),
    ensures
        descending(newest_matching(s, p, n)),
    decreases s.len(),
{
    if s.len() > 0 && n > 0 {
        let m = if matches_protocol(s.last(), p) { (n - 1) as nat } else { n };
        let d = s.drop_last();
        assert(ascending(d)) by {
            assert forall|i: int, j: int| 0 <= i < j < d.len() implies #[trigger] d[i].seq < #[trigger] d[j].seq || d[j].seq == u64::MAX by {
                assert(s[i] == d[i] && s[j] == d[j]);
            }
        }
        lemma_newest_matching_descending(d, p, m);
        lemma_newest_matching_members(d, p, m);
        let r = newest_matching(s, p, n);
        let tail = newest_matching(d, p, m);
        if matches_protocol(s.last(), p) {
            assert forall|i: int, j: int| 0 <= i < j < r.len() implies #[trigger] r[i].seq > #[trigger] r[j].seq || r[i].seq == u64::MAX by {
                if i == 0 {
                    assert(r[j] == tail[j - 1]);
                    assert(d.contains(tail[j - 1]));
                    let k = choose|k: int| 0 <= k < d.len() && d[k] == tail[j - 1];
                    assert(s[k] == d[k]);
                    assert(s[k].seq < s[s.len() - 1].seq || s[s.len() - 1].seq == u64::MAX);
                } else {
                    assert(r[i] == tail[i - 1] && r[j] == tail[j - 1]);
                }
            }
        }
    }
}

/// A listing returns newest events first, and never more than asked for.
pub proof fn law_list_newest_first(store: &EventStore, p: Option<Seq<char>>, n: nat)
    requires
        store.inv(),
    ensures
        descending(newest_matching(store.retained(), p, n)),
        newest_matching(store.retained(), p, n).len() <= n,
{
    lemma_newest_matching_descending(store.retained(), p, n);
    lemma_newest_matching_members(store.retained(), p, n);
}

/// After a push, the pushed event is the first one an unfiltered listing
/// returns, and the store never holds more events than its capacity.
pub proof fn law_push_then_list(before: Seq<EventView>, capacity: nat, e: EventView)
    requires
        1 <= capacity,
        before.len() <= capacity,
    ensures
        newest_matching(keep_newest(before.push(e), capacity), None, 1) == seq![e],
        keep_newest(before.push(e), capacity).len() <= capacity,
        keep_newest(before.push(e), capacity).len() + (before.len() + 1 - keep_newest(before.push(e), capacity).len()) == before.len() + 1,
{
    let after = keep_newest(before.push(e), capacity);
    assert(after.len() > 0);
    assert(after.last() == e);
    assert(newest_matching(after.drop_last(), None, 0) =~= Seq::<EventView>::empty());
    assert(seq![e] + Seq::<EventView>::empty() =~= seq![e]);
}

/// The store after one push, as `EventStore::push_at` leaves it: the retained
/// events, the dropped count and the next sequence number.
pub open spec fn push_step(capacity: nat, before: (Seq<EventView>, u64, u64), e: EventView) -> (Seq<EventView>, u64, u64) {
    let kept = keep_newest(before.0.push(e), capacity);
    (kept, sat_add(before.1, (before.0.len() + 1 - kept.len()) as nat), sat_add(before.2, 1))
}

proof fn lemma_keep_newest_push(s: Seq<EventView>, e: EventView, capacity: nat)
    requires
        1 <= capacity,
    ensures
        keep_newest(keep_newest(s, capacity).push(e), capacity) == keep_newest(s.push(e), capacity),
        keep_newest(s, capacity).len() <= s.len(),
        keep_newest(s, capacity).len() <= capacity,
{
    if s.len() > capacity {
        let k = s.skip(s.len() - capacity);
        assert(k.push(e).len() == capacity + 1);
        assert(k.push(e).skip(1) =~= s.push(e).skip(s.push(e).len() - capacity));
    }
}

proof fn lemma_push_prefix(capacity: nat, states: Seq<(Seq<EventView>, u64, u64)>, es: Seq<EventView>, k: int)
    requires
        1 <= capacity,
        es.len() < u64::MAX,
        states.len() == es.len() + 1,
        states[0] == (Seq::<EventView>::empty(), 0u64, 1u64),
        forall|j: int| 0 <= j < es.len() ==> #[trigger] states[j + 1] == push_step(capacity, states[j], es[j]),
        0 <= k <= es.len(),
    ensures
        states[k].0 == keep_newest(es.take(k), capacity),
        states[k].1 == k - states[k].0.len(),
        states[k].2 == k + 1,
    decreases k,
{
    if k == 0 {
        assert(es.take(0) =~= Seq::<EventView>::empty());
    } else {
        lemma_push_prefix(capacity, states, es, k - 1);
        let before = states[k - 1];
        assert(states[k] == push_step(capacity, states[k - 1], es[k - 1]));
        assert(es.take(k) =~= es.take(k - 1).push(es[k - 1]));
        lemma_keep_newest_push(es.take(k - 1), es[k - 1], capacity);
        lemma_keep_newest_push(before.0.push(es[k - 1]), es[k - 1], capacity);
    }
}

/// Pushing the events `es`, in order, into a fresh store of capacity
/// `capacity`: the store retains the newest `capacity` of them (all of them
/// while there are fewer), oldest first; the k-th pushed gets sequence number
/// k; the dropped count is the number pushed minus the number retained; and a
/// listing gives retained events only, newest first.
pub proof fn law_push_sequence(
    capacity: nat,
    states: Seq<(Seq<EventView>, u64, u64)>,
    es: Seq<EventView>,
    p: Option<Seq<char>>,
    n: nat,
)
    requires
        1 <= capacity,
        es.len() < u64::MAX,
        states.len() == es.len() + 1,
        states[0] == (Seq::<EventView>::empty(), 0u64, 1u64),
        forall|k: int| 0 <= k < es.len() ==> #[trigger] es[k].seq == states[k].2,
        forall|k: int| 0 <= k < es.len() ==> #[trigger] states[k + 1] == push_step(capacity, states[k], es[k]),
    ensures
        states.last().0 == keep_newest(es, capacity),
        states.last().1 == es.len() - keep_newest(es, capacity).len(),
        forall|k: int| 0 <= k < es.len() ==> #[trigger] es[k].seq == k + 1,
        descending(newest_matching(states.last().0, p, n)),
        newest_matching(states.last().0, p, n).len() <= n,
        newest_matching(states.last().0, p, n).len() <= keep_newest(es, capacity).len(),
        forall|k: int| 0 <= k < newest_matching(states.last().0, p, n).len()
            ==> keep_newest(es, capacity).contains(#[trigger] newest_matching(states.last().0, p, n)[k]),
{
    lemma_push_prefix(capacity, states, es, es.len() as int);
    assert(es.take(es.len() as int) =~= es);
    assert forall|k: int| 0 <= k < es.len() implies #[trigger] es[k].seq == k + 1 by {
        lemma_push_prefix(capacity, states, es, k);
    }
    let kept = keep_newest(es, capacity);
    assert(ascending(kept)) by {
        let off = es.len() - kept.len();
        assert forall|i: int, j: int| 0 <= i < j < kept.len() implies #[trigger] kept[i].seq < #[trigger] kept[j].seq || kept[j].seq == u64::MAX by {
            assert(kept[i] == es[i + off]);
            assert(kept[j] == es[j + off]);
            assert(es[i + off].seq == i + off + 1);
            assert(es[j + off].seq == j + off + 1);
        }
    }
    lemma_newest_matching_descending(kept, p, n);
    lemma_newest_matching_members(kept, p, n);
}

} // verus!
