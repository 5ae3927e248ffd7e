//! The capability document's entries for the protocols other than HTTP.

use vstd::prelude::*;
use crate::events::opt_view;
use crate::multimap::strings_view;

verus! {

/// One capability entry of a socket, streaming or GraphQL protocol.
#[derive(Clone, Debug)]
pub struct ProtocolEndpoint {
    pub protocol: String,
    pub methods: Vec<String>,
    pub path: String,
    pub subprotocols: Option<Vec<String>>,
    pub introspection: Option<bool>,
    pub auth: Option<String>,
    pub version: Option<u64>,
    pub tls: Option<String>,
    pub transport: Option<String>,
    pub enabled: Option<bool>,
}

pub ghost struct ProtocolEntry {
    pub protocol: Seq<char>,
    pub methods: Seq<Seq<char>>,
    pub path: Seq<char>,
    pub subprotocols: Option<Seq<Seq<char>>>,
    pub introspection: Option<bool>,
    pub auth: Option<Seq<char>>,
    pub version: Option<u64>,
    pub tls: Option<Seq<char>>,
    pub transport: Option<Seq<char>>,
    pub enabled: Option<bool>,
}

pub open spec fn opt_strings(o: Option<Vec<String>>) -> Option<Seq<Seq<char>>> {
    match o {
        Some(v) => Some(strings_view(v@)),
        None => None,
    }
}

impl View for ProtocolEndpoint {
    type V = ProtocolEntry;

    open spec fn view(&self) -> ProtocolEntry {
        ProtocolEntry {
            protocol: self.protocol@,
            methods: strings_view(self.methods@),
            path: self.path@,
            subprotocols: opt_strings(self.subprotocols),
            introspection: self.introspection,
            auth: opt_view(self.auth),
            version: self.version,
            tls: opt_view(self.tls),
            transport: opt_view(self.transport),
            enabled: self.enabled,
        }
    }
}

pub open spec fn endpoints_view(v: Seq<ProtocolEndpoint>) -> Seq<ProtocolEntry> {
    v.map_values(|e: ProtocolEndpoint| e@)
}

/// The configuration the entries report.
pub ghost struct CapabilityFlags {
    pub graphql_introspection: bool,
    pub mqtt_enabled: bool,
    pub mqtt_tls_enabled: bool,
    pub mqtt_tls_mode: Seq<char>,
}

fn no_texts() -> (v: Vec<String>)
    ensures
        strings_view(v@) == Seq::<Seq<char>>::empty(),
{
    let v: Vec<String> = Vec::new();
    assert(strings_view(v@) =~= Seq::<Seq<char>>::empty());
    v
}

fn text_push(v: Vec<String>, s: &str) -> (r: Vec<String>)
    ensures
        strings_view(r@) == strings_view(v@).push(s@),
{
    let mut r = v;
    let ghost before = r@;
    r.push(s.to_owned());
    assert(strings_view(r@) =~= strings_view(before).push(s@));
    r
}

/// The entries, in the order the capability document lists them: the MQTT
/// ones are enabled with MQTT (the TLS one with MQTT TLS too), and the
/// GraphQL WebSocket one reports whether introspection is on.
pub open spec fn protocol_entries(flags: CapabilityFlags) -> Seq<ProtocolEntry> {
    Seq::empty()
        .push(ProtocolEntry { protocol: "websocket"@, methods: Seq::empty().push("GET"@), path: "/ws/echo"@, subprotocols: None, introspection: None, auth: None, version: None, tls: None, transport: None, enabled: None })
        .push(ProtocolEntry { protocol: "websocket"@, methods: Seq::empty().push("GET"@), path: "/ws/room/{name}"@, subprotocols: None, introspection: None, auth: None, version: None, tls: None, transport: None, enabled: None })
        .push(ProtocolEntry { protocol: "websocket"@, methods: Seq::empty().push("GET"@), path: "/ws/ticker"@, subprotocols: None, introspection: None, auth: None, version: None, tls: None, transport: None, enabled: None })
        .push(ProtocolEntry { protocol: "websocket"@, methods: Seq::empty().push("GET"@), path: "/ws/close"@, subprotocols: None, introspection: None, auth: None, version: None, tls: None, transport: None, enabled: None })
        .push(ProtocolEntry { protocol: "sse"@, methods: Seq::empty().push("GET"@), path: "/sse/events"@, subprotocols: None, introspection: None, auth: None, version: None, tls: None, transport: None, enabled: None })
        .push(ProtocolEntry { protocol: "sse"@, methods: Seq::empty().push("GET"@), path: "/sse/ticker"@, subprotocols: None, introspection: None, auth: None, version: None, tls: None, transport: None, enabled: None })
        .push(ProtocolEntry { protocol: "sse"@, methods: Seq::empty().push("GET"@), path: "/api/v1/events/stream"@, subprotocols: None, introspection: None, auth: None, version: None, tls: None, transport: None, enabled: None })
        .push(ProtocolEntry { protocol: "graphql"@, methods: Seq::empty().push("GET"@).push("POST"@), path: "/graphql"@, subprotocols: None, introspection: None, auth: None, version: None, tls: None, transport: None, enabled: None })
        .push(ProtocolEntry { protocol: "graphql"@, methods: Seq::empty().push("WS"@), path: "/graphql/ws"@, subprotocols: Some(Seq::empty().push("graphql-transport-ws"@).push("graphql-ws"@)), introspection: Some(flags.graphql_introspection), auth: None, version: None, tls: None, transport: None, enabled: None })
        .push(ProtocolEntry { protocol: "tcp"@, methods: Seq::empty().push("line"@), path: "tcp://{host}:{tcp_port}"@, subprotocols: None, introspection: None, auth: None, version: None, tls: None, transport: None, enabled: None })
        .push(ProtocolEntry { protocol: "tcp"@, methods: Seq::empty().push("length-prefixed"@), path: "tcp://{host}:{tcp_port}"@, subprotocols: None, introspection: None, auth: None, version: None, tls: None, transport: None, enabled: None })
        .push(ProtocolEntry { protocol: "udp"@, methods: Seq::empty().push("echo"@), path: "udp://{host}:{udp_port}"@, subprotocols: None, introspection: None, auth: None, version: None, tls: None, transport: None, enabled: None })
        .push(ProtocolEntry { protocol: "thrift"@, methods: Seq::empty().push("binary"@), path: "thrift://{host}:{thrift_port}"@, subprotocols: None, introspection: None, auth: None, version: None, tls: None, transport: None, enabled: None })
        .push(ProtocolEntry { protocol: "mqtt"@, methods: Seq::empty().push("publish/subscribe"@), path: "mqtt://{host}:{mqtt_tcp_port}"@, subprotocols: None, introspection: None, auth: None, version: None, tls: None, transport: None, enabled: Some(flags.mqtt_enabled) })
        .push(ProtocolEntry { protocol: "mqtt"@, methods: Seq::empty().push("publish/subscribe"@), path: "mqtt://{host}:{mqtt_auth_tcp_port}"@, subprotocols: None, introspection: None, auth: Some("username/password"@), version: None, tls: None, transport: None, enabled: Some(flags.mqtt_enabled) })
        .push(ProtocolEntry { protocol: "mqtt"@, methods: Seq::empty().push("publish/subscribe"@), path: "mqtt://{host}:{mqtt_v5_port}"@, subprotocols: None, introspection: None, auth: Some("username/password"@), version: Some(5u64), tls: None, transport: None, enabled: Some(flags.mqtt_enabled) })
        .push(ProtocolEntry { protocol: "mqtt"@, methods: Seq::empty().push("publish/subscribe"@), path: "mqtts://{host}:{mqtt_tls_port}"@, subprotocols: None, introspection: None, auth: None, version: None, tls: Some(flags.mqtt_tls_mode), transport: None, enabled: Some(flags.mqtt_enabled && flags.mqtt_tls_enabled) })
        .push(ProtocolEntry { protocol: "mqtt"@, methods: Seq::empty().push("publish/subscribe"@), path: "ws://{host}:{mqtt_ws_port}"@, subprotocols: None, introspection: None, auth: None, version: None, tls: None, transport: Some("websocket"@), enabled: Some(flags.mqtt_enabled) })
}

/// The capability entries of the non-HTTP protocols, in order.
pub fn protocol_capabilities(graphql_introspection: bool, mqtt_enabled: bool, mqtt_tls_enabled: bool, mqtt_tls_mode: &str) -> (v: Vec<ProtocolEndpoint>)
    ensures
        endpoints_view(v@) == protocol_entries(CapabilityFlags { graphql_introspection, mqtt_enabled, mqtt_tls_enabled, mqtt_tls_mode: mqtt_tls_mode@ }),
{
    let mut v: Vec<ProtocolEndpoint> = Vec::new();
    v.push(ProtocolEndpoint { protocol: "websocket".to_owned(), methods: text_push(no_texts(), "GET"), path: "/ws/echo".to_owned(), subprotocols: None, introspection: None, auth: None, version: None, tls: None, transport: None, enabled: None });
    v.push(ProtocolEndpoint { protocol: "websocket".to_owned(), methods: text_push(no_texts(), "GET"), path: "/ws/room/{name}".to_owned(), subprotocols: None, introspection: None, auth: None, version: None, tls: None, transport: None, enabled: None });
    v.push(ProtocolEndpoint { protocol: "websocket".to_owned(), methods: text_push(no_texts(), "GET"), path: "/ws/ticker".to_owned(), subprotocols: None, introspection: None, auth: None, version: None, tls: None, transport: None, enabled: None });
    v.push(ProtocolEndpoint { protocol: "websocket".to_owned(), methods: text_push(no_texts(), "GET"), path: "/ws/close".to_owned(), subprotocols: None, introspection: None, auth: None, version: None, tls: None, transport: None, enabled: None });
    v.push(ProtocolEndpoint { protocol: "sse".to_owned(), methods: text_push(no_texts(), "GET"), path: "/sse/events".to_owned(), subprotocols: None, introspection: None, auth: None, version: None, tls: None, transport: None, enabled: None });
    v.push(ProtocolEndpoint { protocol: "sse".to_owned(), methods: text_push(no_texts(), "GET"), path: "/sse/ticker".to_owned(), subprotocols: None, introspection: None, auth: None, version: None, tls: None, transport: None, enabled: None });
    v.push(ProtocolEndpoint { protocol: "sse".to_owned(), methods: text_push(no_texts(), "GET"), path: "/api/v1/events/stream".to_owned(), subprotocols: None, introspection: None, auth: None, version: None, tls: None, transport: None, enabled: None });
    v.push(ProtocolEndpoint { protocol: "graphql".to_owned(), methods: text_push(text_push(no_texts(), "GET"), "POST"), path: "/graphql".to_owned(), subprotocols: None, introspection: None, auth: None, version: None, tls: None, transport: None, enabled: None });
    v.push(ProtocolEndpoint { protocol: "graphql".to_owned(), methods: text_push(no_texts(), "WS"), path: "/graphql/ws".to_owned(), subprotocols: Some(text_push(text_push(no_texts(), "graphql-transport-ws"), "graphql-ws")), introspection: Some(graphql_introspection), auth: None, version: None, tls: None, transport: None, enabled: None });
    v.push(ProtocolEndpoint { protocol: "tcp".to_owned(), methods: text_push(no_texts(), "line"), path: "tcp://{host}:{tcp_port}".to_owned(), subprotocols: None, introspection: None, auth: None, version: None, tls: None, transport: None, enabled: None });
    v.push(ProtocolEndpoint { protocol: "tcp".to_owned(), methods: text_push(no_texts(), "length-prefixed"), path: "tcp://{host}:{tcp_port}".to_owned(), subprotocols: None, introspection: None, auth: None, version: None, tls: None, transport: None, enabled: None });
    v.push(ProtocolEndpoint { protocol: "udp".to_owned(), methods: text_push(no_texts(), "echo"), path: "udp://{host}:{udp_port}".to_owned(), subprotocols: None, introspection: None, auth: None, version: None, tls: None, transport: None, enabled: None });
    v.push(ProtocolEndpoint { protocol: "thrift".to_owned(), methods: text_push(no_texts(), "binary"), path: "thrift://{host}:{thrift_port}".to_owned(), subprotocols: None, introspection: None, auth: None, version: None, tls: None, transport: None, enabled: None });
    v.push(ProtocolEndpoint { protocol: "mqtt".to_owned(), methods: text_push(no_texts(), "publish/subscribe"), path: "mqtt://{host}:{mqtt_tcp_port}".to_owned(), subprotocols: None, introspection: None, auth: None, version: None, tls: None, transport: None, enabled: Some(mqtt_enabled) });
    v.push(ProtocolEndpoint { protocol: "mqtt".to_owned(), methods: text_push(no_texts(), "publish/subscribe"), path: "mqtt://{host}:{mqtt_auth_tcp_port}".to_owned(), subprotocols: None, introspection: None, auth: Some("username/password".to_owned()), version: None, tls: None, transport: None, enabled: Some(mqtt_enabled) });
    v.push(ProtocolEndpoint { protocol: "mqtt".to_owned(), methods: text_push(no_texts(), "publish/subscribe"), path: "mqtt://{host}:{mqtt_v5_port}".to_owned(), subprotocols: None, introspection: None, auth: Some("username/password".to_owned()), version: Some(5u64), tls: None, transport: None, enabled: Some(mqtt_enabled) });
    v.push(ProtocolEndpoint { protocol: "mqtt".to_owned(), methods: text_push(no_texts(), "publish/subscribe"), path: "mqtts://{host}:{mqtt_tls_port}".to_owned(), subprotocols: None, introspection: None, auth: None, version: None, tls: Some(mqtt_tls_mode.to_owned()), transport: None, enabled: Some(mqtt_enabled && mqtt_tls_enabled) });
    v.push(ProtocolEndpoint { protocol: "mqtt".to_owned(), methods: text_push(no_texts(), "publish/subscribe"), path: "ws://{host}:{mqtt_ws_port}".to_owned(), subprotocols: None, introspection: None, auth: None, version: None, tls: None, transport: Some("websocket".to_owned()), enabled: Some(mqtt_enabled) });
    proof {
        let flags = CapabilityFlags { graphql_introspection, mqtt_enabled, mqtt_tls_enabled, mqtt_tls_mode: mqtt_tls_mode@ };
        assert(endpoints_view(v@) =~= protocol_entries(flags));
    }
    v
}

} // verus!
