//! The layout of the embedded MQTT broker: its listeners, the ports still to
//! allocate, the TLS files it needs and the events it records.

use vstd::prelude::*;
use crate::config::{Config, Ports};
use crate::number::{decimal, decimal_chars};
use crate::text::{chars_of, push_all, str_eq, string_of};

verus! {

/// The largest MQTT payload accepted, in bytes.
pub const MAX_MQTT_PAYLOAD: usize = 1048576;

/// How long a client may take to connect, in milliseconds.
pub const MQTT_CONNECTION_TIMEOUT_MS: u16 = 60000;

/// The most unacknowledged messages per connection.
pub const MQTT_MAX_INFLIGHT: usize = 100;

/// The broker's router: outgoing packets per connection, and the size and
/// number of its log segments.
pub const MQTT_MAX_OUTGOING_PACKETS: u64 = 200;
pub const MQTT_MAX_SEGMENT_SIZE: usize = 16777216;
pub const MQTT_MAX_SEGMENT_COUNT: usize = 4;

/// The protocol a broker listener speaks.
#[derive(Clone, Copy, PartialEq, Eq, Structural, Debug)]
pub enum MqttTransport {
    V4,
    V5,
    WebSocket,
}

/// One listener of the broker.
#[derive(Clone, Debug)]
pub struct MqttListener {
    pub name: String,
    /// The host it binds: the configured one, or loopback for the TLS backend.
    pub host: String,
    pub port: u16,
    pub transport: MqttTransport,
    /// Whether clients must give the configured username and password.
    pub authenticated: bool,
}

pub ghost struct ListenerSpec {
    pub name: Seq<char>,
    pub host: Seq<char>,
    pub port: u16,
    pub transport: MqttTransport,
    pub authenticated: bool,
}

impl View for MqttListener {
    type V = ListenerSpec;

    open spec fn view(&self) -> ListenerSpec {
        ListenerSpec {
            name: self.name@,
            host: self.host@,
            port: self.port,
            transport: self.transport,
            authenticated: self.authenticated,
        }
    }
}

pub open spec fn listeners_view(v: Seq<MqttListener>) -> Seq<ListenerSpec> {
    v.map_values(|l: MqttListener| l@)
}

/// The listeners: anonymous and authenticated MQTT 3.1.1, authenticated
/// MQTT 5, anonymous WebSocket, and with TLS an authenticated loopback
/// backend behind the TLS proxy.
pub open spec fn listeners_spec(bind_host: Seq<char>, ports: Ports, tls: bool) -> Seq<ListenerSpec> {
    let base = seq![
        ListenerSpec { name: "mqtt-anonymous"@, host: bind_host, port: ports.mqtt_tcp, transport: MqttTransport::V4, authenticated: false },
        ListenerSpec { name: "mqtt-auth"@, host: bind_host, port: ports.mqtt_auth_tcp, transport: MqttTransport::V4, authenticated: true },
        ListenerSpec { name: "mqtt-v5"@, host: bind_host, port: ports.mqtt_v5, transport: MqttTransport::V5, authenticated: true },
        ListenerSpec { name: "mqtt-websocket"@, host: bind_host, port: ports.mqtt_ws, transport: MqttTransport::WebSocket, authenticated: false },
    ];
    if tls {
        base.push(ListenerSpec {
            name: "mqtt-tls-backend"@,
            host: "127.0.0.1"@,
            port: ports.mqtt_tls_backend,
            transport: MqttTransport::V4,
            authenticated: true,
        })
    } else {
        base
    }
}

fn listener(name: &str, host: &str, port: u16, transport: MqttTransport, authenticated: bool) -> (l: MqttListener)
    ensures
        l@ == (ListenerSpec { name: name@, host: host@, port, transport, authenticated }),
{
    MqttListener { name: name.to_owned(), host: host.to_owned(), port, transport, authenticated }
}

pub fn mqtt_listeners(config: &Config) -> (v: Vec<MqttListener>)
    ensures
        listeners_view(v@) == listeners_spec(config.bind_host@, config.ports, config.mqtt_tls_enabled),
{
    let host = config.bind_host.as_str();
    let p = config.ports;
    let mut v: Vec<MqttListener> = Vec::new();
    v.push(listener("mqtt-anonymous", host, p.mqtt_tcp, MqttTransport::V4, false));
    v.push(listener("mqtt-auth", host, p.mqtt_auth_tcp, MqttTransport::V4, true));
    v.push(listener("mqtt-v5", host, p.mqtt_v5, MqttTransport::V5, true));
    v.push(listener("mqtt-websocket", host, p.mqtt_ws, MqttTransport::WebSocket, false));
    if config.mqtt_tls_enabled {
        v.push(listener("mqtt-tls-backend", "127.0.0.1", p.mqtt_tls_backend, MqttTransport::V4, true));
    }
    assert(listeners_view(v@) =~= listeners_spec(config.bind_host@, config.ports, config.mqtt_tls_enabled));
    v
}

/// The MQTT ports a configuration may leave to the system.
#[derive(Clone, Copy, PartialEq, Eq, Structural, Debug)]
pub enum MqttPort {
    Tcp,
    AuthTcp,
    V5,
    WebSocket,
    Tls,
    TlsBackend,
}

pub open spec fn port_of(ports: Ports, slot: MqttPort) -> u16 {
    match slot {
        MqttPort::Tcp => ports.mqtt_tcp,
        MqttPort::AuthTcp => ports.mqtt_auth_tcp,
        MqttPort::V5 => ports.mqtt_v5,
        MqttPort::WebSocket => ports.mqtt_ws,
        MqttPort::Tls => ports.mqtt_tls,
        MqttPort::TlsBackend => ports.mqtt_tls_backend,
    }
}

/// The slots of the broker's ports, with whether each is bound on loopback.
pub open spec fn port_slots(tls: bool) -> Seq<(MqttPort, bool)> {
    let base = seq![(MqttPort::Tcp, false), (MqttPort::AuthTcp, false), (MqttPort::V5, false), (MqttPort::WebSocket, false)];
    if tls { base.push((MqttPort::Tls, false)).push((MqttPort::TlsBackend, true)) } else { base }
}

/// The ports to allocate before the broker starts, in order: with MQTT on,
/// each of its ports configured as 0, on loopback for the TLS backend.
pub open spec fn allocation_spec(mqtt_enabled: bool, tls: bool, ports: Ports) -> Seq<(MqttPort, bool)> {
    if !mqtt_enabled {
        Seq::empty()
    } else {
        port_slots(tls).filter(|s: (MqttPort, bool)| port_of(ports, s.0) == 0)
    }
}

fn slot_port(ports: Ports, slot: MqttPort) -> (p: u16)
    ensures
        p == port_of(ports, slot),
{
    match slot {
        MqttPort::Tcp => ports.mqtt_tcp,
        MqttPort::AuthTcp => ports.mqtt_auth_tcp,
        MqttPort::V5 => ports.mqtt_v5,
        MqttPort::WebSocket => ports.mqtt_ws,
        MqttPort::Tls => ports.mqtt_tls,
        MqttPort::TlsBackend => ports.mqtt_tls_backend,
    }
}

pub fn ports_to_allocate(config: &Config) -> (v: Vec<(MqttPort, bool)>)
    ensures
        v@ == allocation_spec(config.mqtt_enabled, config.mqtt_tls_enabled, config.ports),
{
    let mut v: Vec<(MqttPort, bool)> = Vec::new();
    if !config.mqtt_enabled {
        return v;
    }
    let mut slots: Vec<(MqttPort, bool)> = Vec::new();
    slots.push((MqttPort::Tcp, false));
    slots.push((MqttPort::AuthTcp, false));
    slots.push((MqttPort::V5, false));
    slots.push((MqttPort::WebSocket, false));
    if config.mqtt_tls_enabled {
        slots.push((MqttPort::Tls, false));
        slots.push((MqttPort::TlsBackend, true));
    }
    assert(slots@ =~= port_slots(config.mqtt_tls_enabled));
    let ghost pred = |s: (MqttPort, bool)| port_of(config.ports, s.0) == 0;
    let mut i: usize = 0;
    while i < slots.len()
        invariant
            i <= slots@.len(),
            v@ == slots@.take(i as int).filter(pred),
            pred == (|s: (MqttPort, bool)| port_of(config.ports, s.0) == 0),
        decreases slots@.len() - i,
    {
        proof {
            assert(slots@.take(i + 1) =~= slots@.take(i as int).push(slots@[i as int]));
            slots@.take(i as int).lemma_filter_push(slots@[i as int], pred);
        }
        let s = slots[i];
        if slot_port(config.ports, s.0) == 0 {
            v.push(s);
        }
        i = i + 1;
    }
    assert(slots@.take(i as int) =~= slots@);
    v
}

/// Records the port the system gave a slot.
pub fn set_port(ports: &mut Ports, slot: MqttPort, port: u16)
    ensures
        port_of(*final(ports), slot) == port,
        forall|other: MqttPort| other != slot ==> port_of(*final(ports), other) == port_of(*old(ports), other),
        final(ports).http == old(ports).http,
        final(ports).grpc_h2c == old(ports).grpc_h2c,
        final(ports).grpc_tls == old(ports).grpc_tls,
        final(ports).tcp == old(ports).tcp,
        final(ports).udp == old(ports).udp,
        final(ports).thrift == old(ports).thrift,
{
    match slot {
        MqttPort::Tcp => ports.mqtt_tcp = port,
        MqttPort::AuthTcp => ports.mqtt_auth_tcp = port,
        MqttPort::V5 => ports.mqtt_v5 = port,
        MqttPort::WebSocket => ports.mqtt_ws = port,
        MqttPort::Tls => ports.mqtt_tls = port,
        MqttPort::TlsBackend => ports.mqtt_tls_backend = port,
    }
}

/// The files MQTT over TLS needs, each with the error given when it is
/// missing: the certificate and key, and in mTLS mode the client CA.
pub open spec fn tls_files_spec(c: Config) -> Seq<(Seq<char>, Seq<char>)> {
    if !c.mqtt_tls_enabled {
        Seq::empty()
    } else {
        let base = seq![
            (c.tls_cert_path@, "MQTT TLS file does not exist: "@ + c.tls_cert_path@),
            (c.tls_key_path@, "MQTT TLS file does not exist: "@ + c.tls_key_path@),
        ];
        if c.mqtt_tls_mode@ == "mtls"@ {
            base.push((c.tls_client_ca_path@, "MQTT mTLS client CA file does not exist: "@ + c.tls_client_ca_path@))
        } else {
            base
        }
    }
}

fn prefixed(prefix: &str, s: &str) -> (r: String)
    ensures
        r@ == prefix@ + s@,
{
    let mut v = chars_of(prefix);
    let c = chars_of(s);
    push_all(&mut v, c.as_slice());
    string_of(v.as_slice())
}

pub fn tls_required_files(config: &Config) -> (v: Vec<(String, String)>)
    ensures
        crate::openapi::pairs_of(v@) == tls_files_spec(*config),
{
    let mut v: Vec<(String, String)> = Vec::new();
    if config.mqtt_tls_enabled {
        v.push((config.tls_cert_path.clone(), prefixed("MQTT TLS file does not exist: ", config.tls_cert_path.as_str())));
        v.push((config.tls_key_path.clone(), prefixed("MQTT TLS file does not exist: ", config.tls_key_path.as_str())));
        if str_eq(config.mqtt_tls_mode.as_str(), "mtls") {
            v.push((
                config.tls_client_ca_path.clone(),
                prefixed("MQTT mTLS client CA file does not exist: ", config.tls_client_ca_path.as_str()),
            ));
        }
    }
    assert(crate::openapi::pairs_of(v@) =~= tls_files_spec(*config));
    v
}

/// The summary of the event a forwarded publish records.
pub fn publish_summary(topic: &str) -> (s: String)
    ensures
        s@ == "PUBLISH "@ + topic@,
{
    prefixed("PUBLISH ", topic)
}

fn push_number(v: &mut Vec<char>, n: u64)
    ensures
        final(v)@ == old(v)@ + decimal(n as nat),
{
    let d = decimal_chars(n);
    push_all(v, d.as_slice());
}

/// The summary of the event a router meter records.
pub fn router_summary(connections: u64, subscriptions: u64, publishes: u64) -> (s: String)
    ensures
        s@ == "connections="@ + decimal(connections as nat) + " subscriptions="@ + decimal(subscriptions as nat)
            + " publishes="@ + decimal(publishes as nat),
{
    let mut v = chars_of("connections=");
    push_number(&mut v, connections);
    let a = chars_of(" subscriptions=");
    push_all(&mut v, a.as_slice());
    push_number(&mut v, subscriptions);
    let b = chars_of(" publishes=");
    push_all(&mut v, b.as_slice());
    push_number(&mut v, publishes);
    string_of(v.as_slice())
}

/// The summary of the event a subscription meter records.
pub fn subscription_summary(filter: &str, messages: u64) -> (s: String)
    ensures
        s@ == "filter="@ + filter@ + " messages="@ + decimal(messages as nat),
{
    let mut v = chars_of("filter=");
    let f = chars_of(filter);
    push_all(&mut v, f.as_slice());
    let m = chars_of(" messages=");
    push_all(&mut v, m.as_slice());
    push_number(&mut v, messages);
    string_of(v.as_slice())
}

} // verus!
