//! Service-wide rules: request admission, WebSocket and server-sent-event
//! streams, listener supervision, the control API and address rendering.

use vstd::prelude::*;
use crate::events::{Event, EventView, event_views};
use crate::headers::MAX_HEADER_VALUE_LEN;
use crate::number::{decimal, decimal_chars, parse_number, parsed};
use crate::readiness::{Readiness, name_set};
use crate::text::{chars_of, has_prefix, push_all, str_eq, str_starts_with, string_of};

verus! {

/// Whether a request carries a header value longer than 4096 bytes; such a
/// request is refused with 431.
pub fn headers_oversized(value_lengths: &Vec<usize>) -> (r: bool)
    ensures
        r == exists|i: int| 0 <= i < value_lengths@.len() && value_lengths@[i] > MAX_HEADER_VALUE_LEN,
{
    let mut i: usize = 0;
    while i < value_lengths.len()
        invariant
            i <= value_lengths@.len(),
            forall|j: int| 0 <= j < i ==> value_lengths@[j] <= MAX_HEADER_VALUE_LEN,
        decreases value_lengths@.len() - i,
    {
        if value_lengths[i] > MAX_HEADER_VALUE_LEN {
            return true;
        }
        i = i + 1;
    }
    false
}

/// Streaming paths, which do not hold a connection slot for their lifetime.
pub open spec fn long_lived_spec(path: Seq<char>) -> bool {
    has_prefix(path, "/ws/"@) || has_prefix(path, "/sse/"@) || path == "/api/v1/events/stream"@
        || path == "/graphql/ws"@
}

pub fn long_lived_path(path: &str) -> (r: bool)
    ensures
        r == long_lived_spec(path@),
{
    str_starts_with(path, "/ws/") || str_starts_with(path, "/sse/") || str_eq(path, "/api/v1/events/stream")
        || str_eq(path, "/graphql/ws")
}

/// The largest WebSocket message echoed or relayed, in bytes.
pub const MAX_WS_MESSAGE_SIZE: usize = 65536;

/// The longest room name, in bytes.
pub const MAX_WS_ROOM_NAME_LEN: usize = 128;

/// The most rooms open at once.
pub const MAX_WS_ROOMS: usize = 100;

/// The kinds of WebSocket messages.
#[derive(Clone, Copy, PartialEq, Eq, Structural, Debug)]
pub enum WsKind {
    Text,
    Binary,
    Ping,
    Pong,
    Close,
}

/// What a WebSocket connection does with an incoming message.
#[derive(Clone, Copy, PartialEq, Eq, Structural, Debug)]
pub enum WsAction {
    /// Echo it, or relay it to the room.
    Forward,
    /// Answer a ping with a pong carrying the same bytes.
    Pong,
    /// Nothing.
    Ignore,
    /// Close with 1009 "message too large".
    CloseTooLarge,
    /// The peer closed: stop.
    Stop,
}

/// The same rule serves the echo and the room endpoints.
pub open spec fn ws_action_spec(kind: WsKind, len: usize) -> WsAction {
    match kind {
        WsKind::Text | WsKind::Binary => if len > MAX_WS_MESSAGE_SIZE { WsAction::CloseTooLarge } else { WsAction::Forward },
        WsKind::Ping => WsAction::Pong,
        WsKind::Pong => WsAction::Ignore,
        WsKind::Close => WsAction::Stop,
    }
}

pub fn ws_action(kind: WsKind, len: usize) -> (a: WsAction)
    ensures
        a == ws_action_spec(kind, len),
{
    match kind {
        WsKind::Text | WsKind::Binary => if len > MAX_WS_MESSAGE_SIZE { WsAction::CloseTooLarge } else { WsAction::Forward },
        WsKind::Ping => WsAction::Pong,
        WsKind::Pong => WsAction::Ignore,
        WsKind::Close => WsAction::Stop,
    }
}

/// A room name holds 1 to 128 bytes.
pub fn room_name_ok(name: &str) -> (r: bool)
    ensures
        r == (name@.len() > 0 && name.len() <= MAX_WS_ROOM_NAME_LEN),
{
    let c = chars_of(name);
    c.len() > 0 && name.len() <= MAX_WS_ROOM_NAME_LEN
}

/// Whether a connection may join a room: an existing room always, a new one
/// while fewer than 100 are open.
pub fn room_admitted(room_exists: bool, open_rooms: usize) -> (r: bool)
    ensures
        r == (room_exists || open_rooms < MAX_WS_ROOMS),
{
    room_exists || open_rooms < MAX_WS_ROOMS
}

/// The pace and length of a ticker stream: the interval from 10 ms to a
/// minute (1 s when not given), at most 1000 ticks (5 when not given).
pub fn ticker_params(interval_ms: Option<u64>, count: Option<u64>) -> (r: (u64, u64))
    ensures
        r.0 == (match interval_ms {
            Some(i) => if i < 10 { 10 } else if i > 60000 { 60000 } else { i },
            None => 1000,
        }),
        r.1 == (match count {
            Some(c) => if c > 1000 { 1000 } else { c },
            None => 5,
        }),
{
    let interval = match interval_ms {
        Some(i) => if i < 10 { 10 } else if i > 60000 { 60000 } else { i },
        None => 1000,
    };
    let n = match count {
        Some(c) => if c > 1000 { 1000 } else { c },
        None => 5,
    };
    (interval, n)
}

/// The close code and delay of `/ws/close`: a code from 1000 to 1015 (else
/// 1000), after at most a minute.
pub fn close_params(code: Option<u16>, after_ms: Option<u64>) -> (r: (u16, u64))
    ensures
        r.0 == (match code {
            Some(c) => if 1000 <= c && c <= 1015 { c } else { 1000 },
            None => 1000,
        }),
        r.1 == (match after_ms {
            Some(a) => if a > 60000 { 60000 } else { a },
            None => 0,
        }),
{
    let c = match code {
        Some(c) => if 1000 <= c && c <= 1015 { c } else { 1000 },
        None => 1000,
    };
    let a = match after_ms {
        Some(a) => if a > 60000 { 60000 } else { a },
        None => 0,
    };
    (c, a)
}

fn joined(prefix: &str, middle: &str, suffix: &str) -> (s: String)
    ensures
        s@ == prefix@ + middle@ + suffix@,
{
    let mut v = chars_of(prefix);
    let m = chars_of(middle);
    push_all(&mut v, m.as_slice());
    let t = chars_of(suffix);
    push_all(&mut v, t.as_slice());
    string_of(v.as_slice())
}

/// The reason a predictable close carries.
pub fn close_reason(request_id: &str) -> (s: String)
    ensures
        s@ == "biubin close "@ + request_id@,
{
    let s = joined("biubin close ", request_id, "");
    proof {
        reveal_strlit("");
    }
    assert(s@ =~= "biubin close "@ + request_id@);
    s
}

/// Summaries of the events WebSocket connections record.
pub fn echo_closed_summary(request_id: &str) -> (s: String)
    ensures
        s@ == "echo "@ + request_id@,
{
    let s = joined("echo ", request_id, "");
    proof {
        reveal_strlit("");
    }
    assert(s@ =~= "echo "@ + request_id@);
    s
}

pub fn room_closed_summary(room: &str, request_id: &str) -> (s: String)
    ensures
        s@ == "room="@ + room@ + " "@ + request_id@,
{
    let a = joined("room=", room, " ");
    let s = joined(a.as_str(), request_id, "");
    proof {
        reveal_strlit("");
    }
    assert(s@ =~= "room="@ + room@ + " "@ + request_id@);
    s
}

pub fn room_message_summary(room: &str) -> (s: String)
    ensures
        s@ == "room="@ + room@,
{
    let s = joined("room=", room, "");
    proof {
        reveal_strlit("");
    }
    assert(s@ =~= "room="@ + room@);
    s
}

pub fn sequence_summary(sequence: u64) -> (s: String)
    ensures
        s@ == "sequence="@ + decimal(sequence as nat),
{
    let mut v = chars_of("sequence=");
    let d = decimal_chars(sequence);
    push_all(&mut v, d.as_slice());
    string_of(v.as_slice())
}

/// The cursor a client resumes from: its `Last-Event-ID`, when that is a
/// number, else 0.
pub open spec fn cursor_spec(last_event_id: Option<Seq<char>>) -> u64 {
    match last_event_id {
        Some(t) => match parsed(t, u64::MAX as nat) {
            Some(n) => n as u64,
            None => 0,
        },
        None => 0,
    }
}

/// The events of a newest-first list that come after `cursor`, oldest first.
pub open spec fn replay_spec(newest_first: Seq<EventView>, cursor: u64) -> Seq<EventView>
    decreases newest_first.len(),
{
    if newest_first.len() == 0 {
        Seq::empty()
    } else {
        let rest = replay_spec(newest_first.drop_first(), cursor);
        if newest_first[0].seq > cursor {
            rest.push(newest_first[0])
        } else {
            rest
        }
    }
}

/// Where a stream of events stands: the sequence number of the last event
/// delivered.
pub struct EventCursor {
    pub position: u64,
}

impl EventCursor {
    pub fn from_header(last_event_id: Option<&str>) -> (c: EventCursor)
        ensures
            c.position == cursor_spec(crate::behavior::text_of(last_event_id)),
    {
        let position = match last_event_id {
            Some(t) => match parse_number(t, u64::MAX) {
                Some(n) => n,
                None => 0,
            },
            None => 0,
        };
        EventCursor { position }
    }

    /// The events of a newest-first list to deliver, oldest first; the cursor
    /// moves to the last of them.
    pub fn replay(&mut self, newest_first: &Vec<Event>) -> (out: Vec<Event>)
        ensures
            event_views(out@) == replay_spec(event_views(newest_first@), old(self).position),
            final(self).position == (if out@.len() == 0 { old(self).position } else { out@.last().seq }),
    {
        let c = self.position;
        let ghost all = event_views(newest_first@);
        let mut out: Vec<Event> = Vec::new();
        let mut i: usize = newest_first.len();
        while i > 0
            invariant
                i <= newest_first@.len(),
                all == event_views(newest_first@),
                self.position == c,
                event_views(out@) == replay_spec(all.skip(i as int), c),
            decreases i,
        {
            i = i - 1;
            proof {
                assert(all.skip(i as int).drop_first() =~= all.skip(i + 1));
                assert(all.skip(i as int)[0] == all[i as int]);
            }
            if newest_first[i].seq > c {
                let ghost before = out@;
                out.push(newest_first[i].copy());
                assert(event_views(out@) =~= event_views(before).push(newest_first@[i as int]@));
            }
        }
        assert(all.skip(0) =~= all);
        if out.len() > 0 {
            self.position = out[out.len() - 1].seq;
        }
        out
    }

    /// Whether a live event is delivered: only one past the cursor, which
    /// then moves to it.
    pub fn accept(&mut self, seq: u64) -> (deliver: bool)
        ensures
            deliver == (seq > old(self).position),
            final(self).position == (if deliver { seq } else { old(self).position }),
    {
        if seq > self.position {
            self.position = seq;
            true
        } else {
            false
        }
    }
}

/// The sequence numbers `/sse/events` sends after `last_id`, out of `count`,
/// each with whether a pause comes before it (every one but the first sent).
pub fn fixed_stream_plan(last_id: u64, count: u64) -> (plan: Vec<(u64, bool)>)
    requires
        count < u64::MAX,
    ensures
        plan@.len() == (if last_id < count { count - last_id } else { 0 }),
        forall|i: int| 0 <= i < plan@.len() ==> #[trigger] plan@[i] == ((last_id + 1 + i) as u64, i > 0),
{
    let mut plan: Vec<(u64, bool)> = Vec::new();
    let mut sequence: u64 = 1;
    while sequence <= count
        invariant
            count < u64::MAX,
            1 <= sequence <= count + 1,
            plan@.len() == (if last_id < sequence - 1 { sequence - 1 - last_id } else { 0 }),
            forall|i: int| 0 <= i < plan@.len() ==> #[trigger] plan@[i] == ((last_id + 1 + i) as u64, i > 0),
        decreases count + 1 - sequence,
    {
        if sequence > last_id {
            plan.push((sequence, sequence > last_id + 1));
        }
        sequence = sequence + 1;
    }
    plan
}

/// The listeners that must be up for the service to be ready.
pub open spec fn required_listener_names(mqtt_enabled: bool, grpc_tls_enabled: bool) -> Seq<Seq<char>> {
    let base = seq!["http"@, "grpc_h2c"@, "tcp"@, "udp"@, "thrift"@];
    let with_mqtt = if mqtt_enabled { base.push("mqtt"@) } else { base };
    if grpc_tls_enabled { with_mqtt.push("grpc_tls"@) } else { with_mqtt }
}

pub fn required_listeners(mqtt_enabled: bool, grpc_tls_enabled: bool) -> (v: Vec<String>)
    ensures
        crate::multimap::strings_view(v@) == required_listener_names(mqtt_enabled, grpc_tls_enabled),
{
    let mut v: Vec<String> = Vec::new();
    v.push("http".to_owned());
    v.push("grpc_h2c".to_owned());
    v.push("tcp".to_owned());
    v.push("udp".to_owned());
    v.push("thrift".to_owned());
    if mqtt_enabled {
        v.push("mqtt".to_owned());
    }
    if grpc_tls_enabled {
        v.push("grpc_tls".to_owned());
    }
    assert(crate::multimap::strings_view(v@) =~= required_listener_names(mqtt_enabled, grpc_tls_enabled));
    v
}

/// How a listener task ended.
#[derive(Clone, Copy, PartialEq, Eq, Structural, Debug)]
pub enum ListenerExit {
    /// It returned without error.
    Stopped,
    /// It returned an error.
    Failed,
    /// The task panicked; its listener is not known.
    Panicked,
}

/// Records the end of a listener task: a listener that fails, or stops when
/// no shutdown was requested, is marked not ready.
pub fn record_listener_exit(readiness: &mut Readiness, name: &str, exit: ListenerExit, shutdown_requested: bool)
    requires
        old(readiness).inv(),
    ensures
        final(readiness).inv(),
        final(readiness).required_names() == old(readiness).required_names(),
        final(readiness).states() == (if exit == ListenerExit::Failed || (exit == ListenerExit::Stopped && !shutdown_requested) {
            old(readiness).states().insert(name@, false)
        } else {
            old(readiness).states()
        }),
{
    match exit {
        ListenerExit::Stopped => {
            if !shutdown_requested {
                readiness.mark(name, false);
            }
        },
        ListenerExit::Failed => readiness.mark(name, false),
        ListenerExit::Panicked => {},
    }
}

/// `host:port`, with an IPv6 host in brackets. `host_is_ipv6` says whether
/// the host parses as an IPv6 address.
pub fn host_port(host: &str, host_is_ipv6: bool, port: u16) -> (s: String)
    ensures
        s@ == (if host_is_ipv6 { "["@ + host@ + "]:"@ } else { host@ + ":"@ }) + decimal(port as nat),
{
    let mut v: Vec<char> = Vec::new();
    if host_is_ipv6 {
        v.push('[');
    }
    let h = chars_of(host);
    push_all(&mut v, h.as_slice());
    if host_is_ipv6 {
        v.push(']');
    }
    v.push(':');
    let d = decimal_chars(port as u64);
    push_all(&mut v, d.as_slice());
    proof {
        reveal_strlit("[");
        reveal_strlit("]:");
        reveal_strlit(":");
    }
    let s = string_of(v.as_slice());
    assert(s@ =~= (if host_is_ipv6 { "["@ + host@ + "]:"@ } else { host@ + ":"@ }) + decimal(port as nat));
    s
}

/// How many events the events API lists: the request from 1 to 200, else 100.
pub fn events_limit(limit: Option<usize>) -> (n: usize)
    ensures
        n == (match limit {
            Some(l) => if l < 1 { 1 } else if l > 200 { 200 } else { l },
            None => 100,
        }),
{
    match limit {
        Some(l) => if l < 1 { 1 } else if l > 200 { 200 } else { l },
        None => 100,
    }
}

/// The text after the last `.`, or all of `s`: the first piece that
/// `str::rsplit('.')` yields.
pub open spec fn last_segment(s: Seq<char>) -> Seq<char>
    decreases s.len(),
{
    if s.len() == 0 {
        s
    } else if s.last() == '.' {
        Seq::empty()
    } else {
        last_segment(s.drop_last()).push(s.last())
    }
}

/// The content type a web asset is served with, by its extension.
pub open spec fn asset_type_spec(path: Seq<char>) -> Seq<char> {
    let ext = last_segment(path);
    if ext == "css"@ {
        "text/css; charset=utf-8"@
    } else if ext == "js"@ || ext == "mjs"@ {
        "text/javascript; charset=utf-8"@
    } else if ext == "json"@ {
        "application/json"@
    } else if ext == "svg"@ {
        "image/svg+xml"@
    } else if ext == "png"@ {
        "image/png"@
    } else if ext == "ico"@ {
        "image/x-icon"@
    } else if ext == "woff"@ {
        "font/woff"@
    } else if ext == "woff2"@ {
        "font/woff2"@
    } else {
        "application/octet-stream"@
    }
}

fn last_segment_chars(s: &[char]) -> (r: Vec<char>)
    ensures
        r@ == last_segment(s@),
{
    let mut start: usize = s.len();
    while start > 0 && s[start - 1] != '.'
        invariant
            start <= s@.len(),
            forall|j: int| start <= j < s@.len() ==> s@[j] != '.',
        decreases start,
    {
        start = start - 1;
    }
    proof {
        lemma_last_segment(s@, start as int);
    }
    crate::text::slice_chars(s, start, s.len())
}

proof fn lemma_last_segment(s: Seq<char>, start: int)
    requires
        0 <= start <= s.len(),
        forall|j: int| start <= j < s.len() ==> s[j] != '.',
        start == 0 || s[start - 1] == '.',
    ensures
        last_segment(s) == s.subrange(start, s.len() as int),
    decreases s.len(),
{
    if s.len() == 0 {
        assert(s.subrange(start, 0) =~= s);
    } else if s.last() == '.' {
        assert(start == s.len());
        assert(s.subrange(start, s.len() as int) =~= Seq::<char>::empty());
    } else {
        lemma_last_segment(s.drop_last(), start);
        assert(s.subrange(start, s.len() as int) =~= s.drop_last().subrange(start, s.len() - 1).push(s.last()));
    }
}

pub fn asset_content_type(path: &str) -> (t: String)
    ensures
        t@ == asset_type_spec(path@),
{
    let c = chars_of(path);
    let e = last_segment_chars(c.as_slice());
    let ext = string_of(e.as_slice());
    let x = ext.as_str();
    if str_eq(x, "css") {
        "text/css; charset=utf-8".to_owned()
    } else if str_eq(x, "js") || str_eq(x, "mjs") {
        "text/javascript; charset=utf-8".to_owned()
    } else if str_eq(x, "json") {
        "application/json".to_owned()
    } else if str_eq(x, "svg") {
        "image/svg+xml".to_owned()
    } else if str_eq(x, "png") {
        "image/png".to_owned()
    } else if str_eq(x, "ico") {
        "image/x-icon".to_owned()
    } else if str_eq(x, "woff") {
        "font/woff".to_owned()
    } else if str_eq(x, "woff2") {
        "font/woff2".to_owned()
    } else {
        "application/octet-stream".to_owned()
    }
}

/// A replay after a cursor delivers exactly the listed events past the
/// cursor, and from a newest-first list it delivers them oldest first.
pub proof fn law_replay_after_cursor(newest_first: Seq<EventView>, cursor: u64)
    ensures
        forall|e: EventView| replay_spec(newest_first, cursor).contains(e) <==> (newest_first.contains(e) && e.seq > cursor),
        (forall|a: int, b: int| 0 <= a < b < newest_first.len() ==> newest_first[a].seq > newest_first[b].seq) ==>
            (forall|a: int, b: int| 0 <= a < b < replay_spec(newest_first, cursor).len() ==>
                replay_spec(newest_first, cursor)[a].seq < replay_spec(newest_first, cursor)[b].seq),
    decreases newest_first.len(),
{
    if newest_first.len() > 0 {
        let rest = newest_first.drop_first();
        law_replay_after_cursor(rest, cursor);
        let r = replay_spec(rest, cursor);
        let out = replay_spec(newest_first, cursor);
        assert forall|e: EventView| out.contains(e) <==> (newest_first.contains(e) && e.seq > cursor) by {
            if newest_first.contains(e) {
                let k = choose|k: int| 0 <= k < newest_first.len() && newest_first[k] == e;
                if k > 0 {
                    assert(rest[k - 1] == e);
                }
            }
            if rest.contains(e) {
                let k = choose|k: int| 0 <= k < rest.len() && rest[k] == e;
                assert(newest_first[k + 1] == e);
            }
            if out.contains(e) && !r.contains(e) {
                let k = choose|k: int| 0 <= k < out.len() && out[k] == e;
                if k < r.len() {
                    assert(r[k] == e);
                }
            }
            if r.contains(e) {
                let k = choose|k: int| 0 <= k < r.len() && r[k] == e;
                assert(out[k] == e);
            }
            if newest_first[0] == e && e.seq > cursor {
                assert(out[r.len() as int] == e);
            }
        }
        if forall|a: int, b: int| 0 <= a < b < newest_first.len() ==> newest_first[a].seq > newest_first[b].seq {
            assert forall|a: int, b: int| 0 <= a < b < rest.len() implies rest[a].seq > rest[b].seq by {
                assert(rest[a] == newest_first[a + 1]);
                assert(rest[b] == newest_first[b + 1]);
            }
            assert forall|a: int, b: int| 0 <= a < b < out.len() implies out[a].seq < out[b].seq by {
                if b == r.len() && newest_first[0].seq > cursor {
                    assert(r.contains(r[a]));
                    assert(rest.contains(r[a]));
                    let k = choose|k: int| 0 <= k < rest.len() && rest[k] == r[a];
                    assert(newest_first[k + 1] == r[a]);
                } else {
                    assert(out[a] == r[a]);
                    assert(out[b] == r[b]);
                }
            }
        }
    }
}

/// One step of an event stream: a replay of a newest-first listing (at the
/// start, or after the live feed lagged), or one live event.
pub ghost enum StreamStep {
    Replay(Seq<EventView>),
    Live(EventView),
}

/// What a stream that starts at `cursor` has delivered after `steps`, and
/// where its cursor stands, as `EventCursor::replay` and `accept` make it.
pub open spec fn stream_delivery(cursor: u64, steps: Seq<StreamStep>) -> (Seq<EventView>, u64)
    decreases steps.len(),
{
    if steps.len() == 0 {
        (Seq::empty(), cursor)
    } else {
        let before = stream_delivery(cursor, steps.drop_last());
        match steps.last() {
            StreamStep::Replay(listing) => {
                let r = replay_spec(listing, before.1);
                (before.0 + r, if r.len() == 0 { before.1 } else { r.last().seq })
            },
            StreamStep::Live(e) => if e.seq > before.1 {
                (before.0.push(e), e.seq)
            } else {
                before
            },
        }
    }
}

/// A listing whose sequence numbers strictly decrease.
pub open spec fn strictly_newest_first(listing: Seq<EventView>) -> bool {
    forall|a: int, b: int| 0 <= a < b < listing.len() ==> listing[a].seq > listing[b].seq
}

/// Over a whole event stream that starts after `cursor`: the delivered events
/// carry strictly increasing sequence numbers, all past the cursor, and the
/// cursor stands at the last one delivered. A replay (the first one, or the
/// one after a lag) delivers exactly the listed events past the last number
/// sent, oldest first.
pub proof fn law_stream_ids_increase(cursor: u64, steps: Seq<StreamStep>)
    requires
        forall|k: int| 0 <= k < steps.len() ==> (#[trigger] steps[k] matches StreamStep::Replay(l) ==> strictly_newest_first(l)),
    ensures
        ({
            let (out, pos) = stream_delivery(cursor, steps);
            &&& forall|a: int, b: int| 0 <= a < b < out.len() ==> out[a].seq < out[b].seq
            &&& forall|a: int| 0 <= a < out.len() ==> out[a].seq > cursor
            &&& pos == (if out.len() == 0 { cursor } else { out.last().seq })
        }),
        steps.len() > 0 ==> (steps.last() matches StreamStep::Replay(l) ==> {
            let before = stream_delivery(cursor, steps.drop_last());
            let after = stream_delivery(cursor, steps);
            &&& after.0 == before.0 + replay_spec(l, before.1)
            &&& forall|e: EventView| replay_spec(l, before.1).contains(e) <==> (l.contains(e) && e.seq > before.1)
        }),
    decreases steps.len(),
{
    if steps.len() > 0 {
        let prefix = steps.drop_last();
        assert forall|k: int| 0 <= k < prefix.len() implies (#[trigger] prefix[k] matches StreamStep::Replay(l) ==> strictly_newest_first(l)) by {
            assert(prefix[k] == steps[k]);
        }
        law_stream_ids_increase(cursor, prefix);
        let (out, pos) = stream_delivery(cursor, prefix);
        assert forall|a: int| 0 <= a < out.len() implies out[a].seq <= pos by {
            if a < out.len() - 1 {
                assert(out[a].seq < out[out.len() - 1].seq);
            }
        }
        match steps.last() {
            StreamStep::Replay(l) => {
                assert(steps[steps.len() - 1] == steps.last());
                law_replay_after_cursor(l, pos);
                let r = replay_spec(l, pos);
                let all = out + r;
                assert forall|a: int| 0 <= a < r.len() implies r[a].seq > pos by {
                    let e = r[a];
                    assert(r.contains(e));
                    assert(replay_spec(l, pos).contains(e) <==> (l.contains(e) && e.seq > pos));
                }
                assert forall|a: int, b: int| 0 <= a < b < all.len() implies all[a].seq < all[b].seq by {
                    if b < out.len() {
                        assert(all[a] == out[a] && all[b] == out[b]);
                    } else if a < out.len() {
                        assert(all[a] == out[a] && all[b] == r[b - out.len()]);
                    } else {
                        assert(all[a] == r[a - out.len()] && all[b] == r[b - out.len()]);
                    }
                }
                assert forall|a: int| 0 <= a < all.len() implies all[a].seq > cursor by {
                    if a < out.len() {
                        assert(all[a] == out[a]);
                    } else {
                        assert(all[a] == r[a - out.len()]);
                    }
                }
                if r.len() > 0 {
                    assert(all.last() == r.last());
                } else {
                    assert(all =~= out);
                }
            },
            StreamStep::Live(e) => {
                if e.seq > pos {
                    let all = out.push(e);
                    assert forall|a: int, b: int| 0 <= a < b < all.len() implies all[a].seq < all[b].seq by {
                        if b < out.len() {
                            assert(all[a] == out[a] && all[b] == out[b]);
                        } else {
                            assert(all[a] == out[a]);
                        }
                    }
                    assert forall|a: int| 0 <= a < all.len() implies all[a].seq > cursor by {
                        if a < out.len() {
                            assert(all[a] == out[a]);
                        } else if out.len() > 0 {
                            assert(out[out.len() - 1].seq > cursor);
                        }
                    }
                }
            },
        }
    }
}

} // verus!
