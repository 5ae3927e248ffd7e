//! Listener ports, limits and feature switches, read from `BIUBIN_*` variables.

use vstd::prelude::*;
use crate::number::{IntErrorKind, decimal, parse_unsigned, parse_unsigned_chars};
use crate::text::{chars_eq, chars_of, lower_chars, lower_seq, split, string_of, trim, trim_chars};

verus! {

/// The configured port of every listener; `0` asks the system for one.
#[derive(Clone, Copy, Debug, PartialEq, Eq, Structural)]
pub struct Ports {
    pub http: u16,
    pub grpc_h2c: u16,
    pub grpc_tls: u16,
    pub tcp: u16,
    pub udp: u16,
    pub mqtt_tcp: u16,
    pub mqtt_auth_tcp: u16,
    pub mqtt_v5: u16,
    pub mqtt_tls: u16,
    pub mqtt_tls_backend: u16,
    pub mqtt_ws: u16,
    pub thrift: u16,
}

impl Ports {
    pub open spec fn default_spec() -> Ports {
        Ports {
            http: 8080,
            grpc_h2c: 9000,
            grpc_tls: 9001,
            tcp: 7000,
            udp: 7001,
            mqtt_tcp: 1883,
            mqtt_auth_tcp: 1884,
            mqtt_v5: 1885,
            mqtt_tls: 8883,
            mqtt_tls_backend: 1886,
            mqtt_ws: 8083,
            thrift: 9090,
        }
    }
}

impl Default for Ports {
    fn default() -> (p: Ports)
        ensures
            p == Ports::default_spec(),
    {
        Ports {
            http: 8080,
            grpc_h2c: 9000,
            grpc_tls: 9001,
            tcp: 7000,
            udp: 7001,
            mqtt_tcp: 1883,
            mqtt_auth_tcp: 1884,
            mqtt_v5: 1885,
            mqtt_tls: 8883,
            mqtt_tls_backend: 1886,
            mqtt_ws: 8083,
            thrift: 9090,
        }
    }
}

/// The whole runtime configuration.
#[derive(Clone, Debug)]
pub struct Config {
    pub bind_host: String,
    pub advertise_host: String,
    pub ports: Ports,
    pub mqtt_enabled: bool,
    pub mqtt_tls_enabled: bool,
    pub mqtt_tls_mode: String,
    pub mqtt_username: String,
    pub mqtt_password: String,
    pub grpc_tls_enabled: bool,
    pub grpc_tls_mode: String,
    pub graphql_introspection_enabled: bool,
    pub tls_cert_path: String,
    pub tls_key_path: String,
    pub tls_client_ca_path: String,
    pub http_body_limit: usize,
    pub max_bytes_response: usize,
    pub event_capacity: usize,
    pub tcp_delay_ms: u64,
    pub tcp_close_after: usize,
    pub tcp_read_limit: usize,
    pub udp_delay_ms: u64,
    pub udp_drop_percent: u8,
    pub max_connections: usize,
}

/// A configuration with its text fields taken as character sequences.
pub ghost struct ConfigModel {
    pub bind_host: Seq<char>,
    pub advertise_host: Seq<char>,
    pub ports: Ports,
    pub mqtt_enabled: bool,
    pub mqtt_tls_enabled: bool,
    pub mqtt_tls_mode: Seq<char>,
    pub mqtt_username: Seq<char>,
    pub mqtt_password: Seq<char>,
    pub grpc_tls_enabled: bool,
    pub grpc_tls_mode: Seq<char>,
    pub graphql_introspection_enabled: bool,
    pub tls_cert_path: Seq<char>,
    pub tls_key_path: Seq<char>,
    pub tls_client_ca_path: Seq<char>,
    pub http_body_limit: usize,
    pub max_bytes_response: usize,
    pub event_capacity: usize,
    pub tcp_delay_ms: u64,
    pub tcp_close_after: usize,
    pub tcp_read_limit: usize,
    pub udp_delay_ms: u64,
    pub udp_drop_percent: u8,
    pub max_connections: usize,
}

impl View for Config {
    type V = ConfigModel;

    open spec fn view(&self) -> ConfigModel {
        ConfigModel {
            bind_host: self.bind_host@,
            advertise_host: self.advertise_host@,
            ports: self.ports,
            mqtt_enabled: self.mqtt_enabled,
            mqtt_tls_enabled: self.mqtt_tls_enabled,
            mqtt_tls_mode: self.mqtt_tls_mode@,
            mqtt_username: self.mqtt_username@,
            mqtt_password: self.mqtt_password@,
            grpc_tls_enabled: self.grpc_tls_enabled,
            grpc_tls_mode: self.grpc_tls_mode@,
            graphql_introspection_enabled: self.graphql_introspection_enabled,
            tls_cert_path: self.tls_cert_path@,
            tls_key_path: self.tls_key_path@,
            tls_client_ca_path: self.tls_client_ca_path@,
            http_body_limit: self.http_body_limit,
            max_bytes_response: self.max_bytes_response,
            event_capacity: self.event_capacity,
            tcp_delay_ms: self.tcp_delay_ms,
            tcp_close_after: self.tcp_close_after,
            tcp_read_limit: self.tcp_read_limit,
            udp_delay_ms: self.udp_delay_ms,
            udp_drop_percent: self.udp_drop_percent,
            max_connections: self.max_connections,
        }
    }
}

/// The defaults: loopback binding, MQTT and TLS off, 2 MiB bodies, 10 MiB
/// responses, 200 retained events, 4 MiB TCP reads and 1000 connections.
pub open spec fn default_model() -> ConfigModel {
    ConfigModel {
        bind_host: "127.0.0.1"@,
        advertise_host: "127.0.0.1"@,
        ports: Ports::default_spec(),
        mqtt_enabled: false,
        mqtt_tls_enabled: false,
        mqtt_tls_mode: "tls"@,
        mqtt_username: "biubin"@,
        mqtt_password: "biubin-dev"@,
        grpc_tls_enabled: false,
        grpc_tls_mode: "tls"@,
        graphql_introspection_enabled: true,
        tls_cert_path: "certs/dev/server.pem"@,
        tls_key_path: "certs/dev/server-key.pem"@,
        tls_client_ca_path: "certs/dev/ca.pem"@,
        http_body_limit: 2097152,
        max_bytes_response: 10485760,
        event_capacity: 200,
        tcp_delay_ms: 0,
        tcp_close_after: 0,
        tcp_read_limit: 4194304,
        udp_delay_ms: 0,
        udp_drop_percent: 0,
        max_connections: 1000,
    }
}

impl Default for Config {
    fn default() -> (c: Config)
        ensures
            c@ == default_model(),
    {
        Config {
            bind_host: "127.0.0.1".to_owned(),
            advertise_host: "127.0.0.1".to_owned(),
            ports: Ports::default(),
            mqtt_enabled: false,
            mqtt_tls_enabled: false,
            mqtt_tls_mode: "tls".to_owned(),
            mqtt_username: "biubin".to_owned(),
            mqtt_password: "biubin-dev".to_owned(),
            grpc_tls_enabled: false,
            grpc_tls_mode: "tls".to_owned(),
            graphql_introspection_enabled: true,
            tls_cert_path: "certs/dev/server.pem".to_owned(),
            tls_key_path: "certs/dev/server-key.pem".to_owned(),
            tls_client_ca_path: "certs/dev/ca.pem".to_owned(),
            http_body_limit: 2 * 1024 * 1024,
            max_bytes_response: 10 * 1024 * 1024,
            event_capacity: 200,
            tcp_delay_ms: 0,
            tcp_close_after: 0,
            tcp_read_limit: 4 * 1024 * 1024,
            udp_delay_ms: 0,
            udp_drop_percent: 0,
            max_connections: 1000,
        }
    }
}

/// Is `mode` one of the two accepted TLS modes?
pub open spec fn is_tls_mode(mode: Seq<char>) -> bool {
    mode == "tls"@ || mode == "mtls"@
}

/// Why a configuration is refused, checked in this order; `None` when it is
/// accepted.
pub open spec fn validation_error(c: ConfigModel) -> Option<Seq<char>> {
    if trim(c.bind_host).len() == 0 || trim(c.advertise_host).len() == 0 {
        Some("bind_host and advertise_host must not be empty"@)
    } else if !is_tls_mode(c.grpc_tls_mode) {
        Some("grpc_tls_mode must be either tls or mtls"@)
    } else if !is_tls_mode(c.mqtt_tls_mode) {
        Some("mqtt_tls_mode must be either tls or mtls"@)
    } else if c.mqtt_tls_enabled && !c.mqtt_enabled {
        Some("mqtt_tls_enabled requires mqtt_enabled=true"@)
    } else if c.http_body_limit == 0 || c.max_bytes_response == 0 || c.event_capacity == 0
        || c.tcp_read_limit == 0 || c.max_connections == 0 {
        Some("limits and event_capacity must be greater than zero"@)
    } else if c.udp_drop_percent > 100 {
        Some("udp_drop_percent must be between 0 and 100"@)
    } else {
        None
    }
}

fn is_tls_mode_exec(mode: &String) -> (r: bool)
    ensures
        r == is_tls_mode(mode@),
{
    let m = chars_of(mode.as_str());
    let tls = chars_of("tls");
    let mtls = chars_of("mtls");
    chars_eq(m.as_slice(), tls.as_slice()) || chars_eq(m.as_slice(), mtls.as_slice())
}

fn is_blank(s: &String) -> (r: bool)
    ensures
        r == (trim(s@).len() == 0),
{
    let c = chars_of(s.as_str());
    let t = trim_chars(c.as_slice());
    t.len() == 0
}

impl Config {
    /// Check the configuration; the error names the first rule it breaks.
    pub fn validate(&self) -> (r: Result<(), String>)
        ensures
            match r {
                Ok(()) => validation_error(self@) is None,
                Err(e) => validation_error(self@) == Some(e@),
            },
    {
        if is_blank(&self.bind_host) || is_blank(&self.advertise_host) {
            return Err("bind_host and advertise_host must not be empty".to_owned());
        }
        if !is_tls_mode_exec(&self.grpc_tls_mode) {
            return Err("grpc_tls_mode must be either tls or mtls".to_owned());
        }
        if !is_tls_mode_exec(&self.mqtt_tls_mode) {
            return Err("mqtt_tls_mode must be either tls or mtls".to_owned());
        }
        if self.mqtt_tls_enabled && !self.mqtt_enabled {
            return Err("mqtt_tls_enabled requires mqtt_enabled=true".to_owned());
        }
        if self.http_body_limit == 0 || self.max_bytes_response == 0 || self.event_capacity == 0
            || self.tcp_read_limit == 0 || self.max_connections == 0 {
            return Err("limits and event_capacity must be greater than zero".to_owned());
        }
        if self.udp_drop_percent > 100 {
            return Err("udp_drop_percent must be between 0 and 100".to_owned());
        }
        Ok(())
    }
}


/// The environment as character sequences, in the order it was read.
pub open spec fn env_view(vars: Seq<(String, String)>) -> Seq<(Seq<char>, Seq<char>)> {
    vars.map_values(|p: (String, String)| (p.0@, p.1@))
}

/// The value of the first variable called `name`.
pub open spec fn lookup(vars: Seq<(Seq<char>, Seq<char>)>, name: Seq<char>) -> Option<Seq<char>>
    decreases vars.len(),
{
    if vars.len() == 0 {
        None
    } else if vars[0].0 == name {
        Some(vars[0].1)
    } else {
        lookup(vars.drop_first(), name)
    }
}

/// The text `{:?}` renders for a string: quoted, with special characters escaped.
pub uninterp spec fn debug_str(s: Seq<char>) -> Seq<char>;

/// Renders `s` with `{:?}`: `format!` with the `Debug` implementation of `str`.
/// Its result is named `debug_str` and nothing more is stated of it.
#[verifier::external_body]
pub(crate) fn debug_quote(s: &str) -> (r: String)
    ensures
        r@ == debug_str(s@),
{
    format!("{s:?}")
}

/// A text setting: a set, non-empty variable replaces the default.
pub open spec fn env_text(vars: Seq<(Seq<char>, Seq<char>)>, name: Seq<char>, default: Seq<char>) -> Seq<char> {
    match lookup(vars, name) {
        Some(v) => if v.len() > 0 {
            v
        } else {
            default
        },
        None => default,
    }
}

pub open spec fn is_true_word(w: Seq<char>) -> bool {
    w == "1"@ || w == "true"@ || w == "yes"@ || w == "on"@
}

pub open spec fn is_false_word(w: Seq<char>) -> bool {
    w == "0"@ || w == "false"@ || w == "no"@ || w == "off"@
}

/// A switch: `1`, `true`, `yes`, `on` or `0`, `false`, `no`, `off`, in any ASCII
/// case; any other value is refused.
pub open spec fn env_bool(vars: Seq<(Seq<char>, Seq<char>)>, name: Seq<char>, default: bool) -> Result<bool, Seq<char>> {
    match lookup(vars, name) {
        None => Ok(default),
        Some(v) => if is_true_word(lower_seq(v)) {
            Ok(true)
        } else if is_false_word(lower_seq(v)) {
            Ok(false)
        } else {
            Err(name + "="@ + debug_str(v) + " must be a boolean"@)
        },
    }
}

/// The reason text of a refused integer.
pub open spec fn int_error_text(k: IntErrorKind) -> Seq<char> {
    match k {
        IntErrorKind::Empty => "cannot parse integer from empty string"@,
        IntErrorKind::InvalidDigit => "invalid digit found in string"@,
        IntErrorKind::PosOverflow => "number too large to fit in target type"@,
    }
}

/// A numeric setting no larger than `max`.
pub open spec fn env_number(vars: Seq<(Seq<char>, Seq<char>)>, name: Seq<char>, default: nat, max: nat) -> Result<nat, Seq<char>> {
    match lookup(vars, name) {
        None => Ok(default),
        Some(v) => match parse_unsigned(v, max) {
            Ok(n) => Ok(n),
            Err(k) => Err(name + "="@ + debug_str(v) + " is invalid: "@ + int_error_text(k)),
        },
    }
}

pub open spec fn ok_or<T>(r: Result<T, Seq<char>>, default: T) -> T {
    match r {
        Ok(v) => v,
        Err(_) => default,
    }
}

pub open spec fn err_of<T>(r: Result<T, Seq<char>>) -> Option<Seq<char>> {
    match r {
        Ok(_) => None,
        Err(e) => Some(e),
    }
}

pub open spec fn first_err(a: Option<Seq<char>>, b: Option<Seq<char>>) -> Option<Seq<char>> {
    if a is Some {
        a
    } else {
        b
    }
}

pub open spec fn u16_env(vars: Seq<(Seq<char>, Seq<char>)>, name: Seq<char>, default: u16) -> Result<nat, Seq<char>> {
    env_number(vars, name, default as nat, u16::MAX as nat)
}

pub open spec fn usize_env(vars: Seq<(Seq<char>, Seq<char>)>, name: Seq<char>, default: usize) -> Result<nat, Seq<char>> {
    env_number(vars, name, default as nat, usize::MAX as nat)
}

pub open spec fn u64_env(vars: Seq<(Seq<char>, Seq<char>)>, name: Seq<char>, default: u64) -> Result<nat, Seq<char>> {
    env_number(vars, name, default as nat, u64::MAX as nat)
}

pub open spec fn u8_env(vars: Seq<(Seq<char>, Seq<char>)>, name: Seq<char>, default: u8) -> Result<nat, Seq<char>> {
    env_number(vars, name, default as nat, u8::MAX as nat)
}

/// The ports the environment selects.
pub open spec fn env_ports(v: Seq<(Seq<char>, Seq<char>)>) -> Ports {
    let d = Ports::default_spec();
    Ports {
        http: ok_or(u16_env(v, "BIUBIN_HTTP_PORT"@, d.http), d.http as nat) as u16,
        grpc_h2c: ok_or(u16_env(v, "BIUBIN_GRPC_H2C_PORT"@, d.grpc_h2c), d.grpc_h2c as nat) as u16,
        grpc_tls: ok_or(u16_env(v, "BIUBIN_GRPC_TLS_PORT"@, d.grpc_tls), d.grpc_tls as nat) as u16,
        tcp: ok_or(u16_env(v, "BIUBIN_TCP_PORT"@, d.tcp), d.tcp as nat) as u16,
        udp: ok_or(u16_env(v, "BIUBIN_UDP_PORT"@, d.udp), d.udp as nat) as u16,
        mqtt_tcp: ok_or(u16_env(v, "BIUBIN_MQTT_TCP_PORT"@, d.mqtt_tcp), d.mqtt_tcp as nat) as u16,
        mqtt_auth_tcp: ok_or(u16_env(v, "BIUBIN_MQTT_AUTH_TCP_PORT"@, d.mqtt_auth_tcp), d.mqtt_auth_tcp as nat) as u16,
        mqtt_v5: ok_or(u16_env(v, "BIUBIN_MQTT_V5_PORT"@, d.mqtt_v5), d.mqtt_v5 as nat) as u16,
        mqtt_tls: ok_or(u16_env(v, "BIUBIN_MQTT_TLS_PORT"@, d.mqtt_tls), d.mqtt_tls as nat) as u16,
        mqtt_tls_backend: ok_or(u16_env(v, "BIUBIN_MQTT_TLS_BACKEND_PORT"@, d.mqtt_tls_backend), d.mqtt_tls_backend as nat) as u16,
        mqtt_ws: ok_or(u16_env(v, "BIUBIN_MQTT_WS_PORT"@, d.mqtt_ws), d.mqtt_ws as nat) as u16,
        thrift: ok_or(u16_env(v, "BIUBIN_THRIFT_PORT"@, d.thrift), d.thrift as nat) as u16,
    }
}

/// The configuration the environment selects, when every variable parses.
pub open spec fn env_model(v: Seq<(Seq<char>, Seq<char>)>) -> ConfigModel {
    let d = default_model();
    ConfigModel {
        bind_host: env_text(v, "BIUBIN_BIND_HOST"@, d.bind_host),
        advertise_host: env_text(v, "BIUBIN_ADVERTISE_HOST"@, d.advertise_host),
        ports: env_ports(v),
        mqtt_enabled: ok_or(env_bool(v, "BIUBIN_MQTT_ENABLED"@, d.mqtt_enabled), d.mqtt_enabled),
        mqtt_tls_enabled: ok_or(env_bool(v, "BIUBIN_MQTT_TLS_ENABLED"@, d.mqtt_tls_enabled), d.mqtt_tls_enabled),
        mqtt_tls_mode: env_text(v, "BIUBIN_MQTT_TLS_MODE"@, d.mqtt_tls_mode),
        mqtt_username: env_text(v, "BIUBIN_MQTT_USERNAME"@, d.mqtt_username),
        mqtt_password: env_text(v, "BIUBIN_MQTT_PASSWORD"@, d.mqtt_password),
        grpc_tls_enabled: ok_or(env_bool(v, "BIUBIN_GRPC_TLS_ENABLED"@, d.grpc_tls_enabled), d.grpc_tls_enabled),
        grpc_tls_mode: env_text(v, "BIUBIN_GRPC_TLS_MODE"@, d.grpc_tls_mode),
        graphql_introspection_enabled: ok_or(env_bool(v, "BIUBIN_GRAPHQL_INTROSPECTION_ENABLED"@, d.graphql_introspection_enabled), d.graphql_introspection_enabled),
        tls_cert_path: env_text(v, "BIUBIN_TLS_CERT_PATH"@, d.tls_cert_path),
        tls_key_path: env_text(v, "BIUBIN_TLS_KEY_PATH"@, d.tls_key_path),
        tls_client_ca_path: env_text(v, "BIUBIN_TLS_CLIENT_CA_PATH"@, d.tls_client_ca_path),
        http_body_limit: ok_or(usize_env(v, "BIUBIN_HTTP_BODY_LIMIT"@, d.http_body_limit), d.http_body_limit as nat) as usize,
        max_bytes_response: ok_or(usize_env(v, "BIUBIN_MAX_BYTES_RESPONSE"@, d.max_bytes_response), d.max_bytes_response as nat) as usize,
        event_capacity: ok_or(usize_env(v, "BIUBIN_EVENT_CAPACITY"@, d.event_capacity), d.event_capacity as nat) as usize,
        tcp_delay_ms: ok_or(u64_env(v, "BIUBIN_TCP_DELAY_MS"@, d.tcp_delay_ms), d.tcp_delay_ms as nat) as u64,
        tcp_close_after: ok_or(usize_env(v, "BIUBIN_TCP_CLOSE_AFTER"@, d.tcp_close_after), d.tcp_close_after as nat) as usize,
        tcp_read_limit: ok_or(usize_env(v, "BIUBIN_TCP_READ_LIMIT"@, d.tcp_read_limit), d.tcp_read_limit as nat) as usize,
        udp_delay_ms: ok_or(u64_env(v, "BIUBIN_UDP_DELAY_MS"@, d.udp_delay_ms), d.udp_delay_ms as nat) as u64,
        udp_drop_percent: ok_or(u8_env(v, "BIUBIN_UDP_DROP_PERCENT"@, d.udp_drop_percent), d.udp_drop_percent as nat) as u8,
        max_connections: ok_or(usize_env(v, "BIUBIN_MAX_CONNECTIONS"@, d.max_connections), d.max_connections as nat) as usize,
    }
}

/// The first variable that does not parse, in the order the settings are read.
pub open spec fn env_switch_error(v: Seq<(Seq<char>, Seq<char>)>) -> Option<Seq<char>> {
    let d = default_model();
    first_err(err_of(env_bool(v, "BIUBIN_MQTT_ENABLED"@, d.mqtt_enabled)),
    first_err(err_of(env_bool(v, "BIUBIN_MQTT_TLS_ENABLED"@, d.mqtt_tls_enabled)),
    first_err(err_of(env_bool(v, "BIUBIN_GRPC_TLS_ENABLED"@, d.grpc_tls_enabled)),
    err_of(env_bool(v, "BIUBIN_GRAPHQL_INTROSPECTION_ENABLED"@, d.graphql_introspection_enabled)))))
}

pub open spec fn env_port_error(v: Seq<(Seq<char>, Seq<char>)>) -> Option<Seq<char>> {
    let d = Ports::default_spec();
    first_err(err_of(u16_env(v, "BIUBIN_HTTP_PORT"@, d.http)),
    first_err(err_of(u16_env(v, "BIUBIN_GRPC_H2C_PORT"@, d.grpc_h2c)),
    first_err(err_of(u16_env(v, "BIUBIN_GRPC_TLS_PORT"@, d.grpc_tls)),
    first_err(err_of(u16_env(v, "BIUBIN_TCP_PORT"@, d.tcp)),
    first_err(err_of(u16_env(v, "BIUBIN_UDP_PORT"@, d.udp)),
    first_err(err_of(u16_env(v, "BIUBIN_MQTT_TCP_PORT"@, d.mqtt_tcp)),
    first_err(err_of(u16_env(v, "BIUBIN_MQTT_AUTH_TCP_PORT"@, d.mqtt_auth_tcp)),
    first_err(err_of(u16_env(v, "BIUBIN_MQTT_V5_PORT"@, d.mqtt_v5)),
    first_err(err_of(u16_env(v, "BIUBIN_MQTT_TLS_PORT"@, d.mqtt_tls)),
    first_err(err_of(u16_env(v, "BIUBIN_MQTT_TLS_BACKEND_PORT"@, d.mqtt_tls_backend)),
    first_err(err_of(u16_env(v, "BIUBIN_MQTT_WS_PORT"@, d.mqtt_ws)),
    err_of(u16_env(v, "BIUBIN_THRIFT_PORT"@, d.thrift)))))))))))))
}

pub open spec fn env_limit_error(v: Seq<(Seq<char>, Seq<char>)>) -> Option<Seq<char>> {
    let d = default_model();
    first_err(err_of(usize_env(v, "BIUBIN_HTTP_BODY_LIMIT"@, d.http_body_limit)),
    first_err(err_of(usize_env(v, "BIUBIN_MAX_BYTES_RESPONSE"@, d.max_bytes_response)),
    first_err(err_of(usize_env(v, "BIUBIN_EVENT_CAPACITY"@, d.event_capacity)),
    first_err(err_of(u64_env(v, "BIUBIN_TCP_DELAY_MS"@, d.tcp_delay_ms)),
    first_err(err_of(usize_env(v, "BIUBIN_TCP_CLOSE_AFTER"@, d.tcp_close_after)),
    first_err(err_of(usize_env(v, "BIUBIN_TCP_READ_LIMIT"@, d.tcp_read_limit)),
    first_err(err_of(u64_env(v, "BIUBIN_UDP_DELAY_MS"@, d.udp_delay_ms)),
    first_err(err_of(u8_env(v, "BIUBIN_UDP_DROP_PERCENT"@, d.udp_drop_percent)),
    err_of(usize_env(v, "BIUBIN_MAX_CONNECTIONS"@, d.max_connections))))))))))
}

/// Why `from_env` refuses the environment: the first variable that does not
/// parse, or else the first rule the selected configuration breaks.
pub open spec fn env_error(v: Seq<(Seq<char>, Seq<char>)>) -> Option<Seq<char>> {
    first_err(env_switch_error(v), first_err(env_port_error(v), first_err(env_limit_error(v),
        validation_error(env_model(v)))))
}

fn lookup_env<'a>(vars: &'a Vec<(String, String)>, name: &str) -> (r: Option<&'a String>)
    ensures
        match r {
            Some(s) => lookup(env_view(vars@), name@) == Some(s@),
            None => lookup(env_view(vars@), name@) is None,
        },
{
    let wanted = chars_of(name);
    let mut i: usize = 0;
    assert(env_view(vars@).skip(0) =~= env_view(vars@));
    while i < vars.len()
        invariant
            i <= vars@.len(),
            wanted@ == name@,
            lookup(env_view(vars@), name@) == lookup(env_view(vars@).skip(i as int), name@),
        decreases vars@.len() - i,
    {
        let ghost rest = env_view(vars@).skip(i as int);
        assert(rest.drop_first() =~= env_view(vars@).skip(i + 1));
        assert(rest[0] == (vars@[i as int].0@, vars@[i as int].1@));
        let key = chars_of(vars[i].0.as_str());
        if chars_eq(key.as_slice(), wanted.as_slice()) {
            return Some(&vars[i].1);
        }
        i = i + 1;
    }
    assert(env_view(vars@).skip(i as int).len() == 0);
    None
}

fn env_or(vars: &Vec<(String, String)>, name: &str, default: String) -> (r: String)
    ensures
        r@ == env_text(env_view(vars@), name@, default@),
{
    match lookup_env(vars, name) {
        Some(v) => if v.as_str().is_empty() {
            default
        } else {
            v.clone()
        },
        None => default,
    }
}

fn one_of(w: &Vec<char>, a: &str, b: &str, c: &str, d: &str) -> (r: bool)
    ensures
        r == (w@ == a@ || w@ == b@ || w@ == c@ || w@ == d@),
{
    let ca = chars_of(a);
    let cb = chars_of(b);
    let cc = chars_of(c);
    let cd = chars_of(d);
    chars_eq(w.as_slice(), ca.as_slice()) || chars_eq(w.as_slice(), cb.as_slice())
        || chars_eq(w.as_slice(), cc.as_slice()) || chars_eq(w.as_slice(), cd.as_slice())
}

fn parse_bool_env(vars: &Vec<(String, String)>, name: &str, default: bool) -> (r: Result<bool, String>)
    ensures
        match r {
            Ok(b) => env_bool(env_view(vars@), name@, default) == Ok::<bool, Seq<char>>(b),
            Err(e) => env_bool(env_view(vars@), name@, default) == Err::<bool, Seq<char>>(e@),
        },
{
    match lookup_env(vars, name) {
        None => Ok(default),
        Some(v) => {
            let cv = chars_of(v.as_str());
            let l = lower_chars(cv.as_slice());
            if one_of(&l, "1", "true", "yes", "on") {
                Ok(true)
            } else if one_of(&l, "0", "false", "no", "off") {
                Ok(false)
            } else {
                let mut msg = name.to_owned();
                msg.append("=");
                let q = debug_quote(v.as_str());
                msg.append(q.as_str());
                msg.append(" must be a boolean");
                Err(msg)
            }
        },
    }
}

fn int_error_str(k: IntErrorKind) -> (r: &'static str)
    ensures
        r@ == int_error_text(k),
{
    match k {
        IntErrorKind::Empty => "cannot parse integer from empty string",
        IntErrorKind::InvalidDigit => "invalid digit found in string",
        IntErrorKind::PosOverflow => "number too large to fit in target type",
    }
}

fn parse_env(vars: &Vec<(String, String)>, name: &str, default: u64, max: u64) -> (r: Result<u64, String>)
    requires
        default <= max,
    ensures
        match r {
            Ok(n) => env_number(env_view(vars@), name@, default as nat, max as nat) == Ok::<nat, Seq<char>>(n as nat) && n <= max,
            Err(e) => env_number(env_view(vars@), name@, default as nat, max as nat) == Err::<nat, Seq<char>>(e@),
        },
{
    match lookup_env(vars, name) {
        None => Ok(default),
        Some(v) => {
            let cv = chars_of(v.as_str());
            match parse_unsigned_chars(cv.as_slice(), max) {
                Ok(n) => {
                    proof {
                        crate::number::lemma_parse_bound(v@, max as nat);
                    }
                    Ok(n)
                },
                Err(k) => {
                    let mut msg = name.to_owned();
                    msg.append("=");
                    let q = debug_quote(v.as_str());
                    msg.append(q.as_str());
                    msg.append(" is invalid: ");
                    msg.append(int_error_str(k));
                    Err(msg)
                },
            }
        },
    }
}


impl Config {
    /// Read the configuration from the environment, given as the list of its
    /// variables: every `BIUBIN_*` variable that is set replaces a default.
    #[verifier::rlimit(60)]
    pub fn from_env(vars: &Vec<(String, String)>) -> (r: Result<Config, String>)
        ensures
            match r {
                Ok(c) => env_error(env_view(vars@)) is None && c@ == env_model(env_view(vars@)),
                Err(e) => env_error(env_view(vars@)) == Some(e@),
            },
    {
        let d = Config::default();
        let bind_host = env_or(vars, "BIUBIN_BIND_HOST", d.bind_host);
        let advertise_host = env_or(vars, "BIUBIN_ADVERTISE_HOST", d.advertise_host);
        let mqtt_tls_mode = env_or(vars, "BIUBIN_MQTT_TLS_MODE", d.mqtt_tls_mode);
        let mqtt_username = env_or(vars, "BIUBIN_MQTT_USERNAME", d.mqtt_username);
        let mqtt_password = env_or(vars, "BIUBIN_MQTT_PASSWORD", d.mqtt_password);
        let grpc_tls_mode = env_or(vars, "BIUBIN_GRPC_TLS_MODE", d.grpc_tls_mode);
        let tls_cert_path = env_or(vars, "BIUBIN_TLS_CERT_PATH", d.tls_cert_path);
        let tls_key_path = env_or(vars, "BIUBIN_TLS_KEY_PATH", d.tls_key_path);
        let tls_client_ca_path = env_or(vars, "BIUBIN_TLS_CLIENT_CA_PATH", d.tls_client_ca_path);
        let mqtt_enabled = match parse_bool_env(vars, "BIUBIN_MQTT_ENABLED", d.mqtt_enabled) {
            Ok(b) => b,
            Err(e) => return Err(e),
        };
        let mqtt_tls_enabled = match parse_bool_env(vars, "BIUBIN_MQTT_TLS_ENABLED", d.mqtt_tls_enabled) {
            Ok(b) => b,
            Err(e) => return Err(e),
        };
        let grpc_tls_enabled = match parse_bool_env(vars, "BIUBIN_GRPC_TLS_ENABLED", d.grpc_tls_enabled) {
            Ok(b) => b,
            Err(e) => return Err(e),
        };
        let graphql_introspection_enabled = match parse_bool_env(vars, "BIUBIN_GRAPHQL_INTROSPECTION_ENABLED", d.graphql_introspection_enabled) {
            Ok(b) => b,
            Err(e) => return Err(e),
        };
        let port_http = match parse_env(vars, "BIUBIN_HTTP_PORT", d.ports.http as u64, u16::MAX as u64) {
            Ok(n) => n as u16,
            Err(e) => return Err(e),
        };
        let port_grpc_h2c = match parse_env(vars, "BIUBIN_GRPC_H2C_PORT", d.ports.grpc_h2c as u64, u16::MAX as u64) {
            Ok(n) => n as u16,
            Err(e) => return Err(e),
        };
        let port_grpc_tls = match parse_env(vars, "BIUBIN_GRPC_TLS_PORT", d.ports.grpc_tls as u64, u16::MAX as u64) {
            Ok(n) => n as u16,
            Err(e) => return Err(e),
        };
        let port_tcp = match parse_env(vars, "BIUBIN_TCP_PORT", d.ports.tcp as u64, u16::MAX as u64) {
            Ok(n) => n as u16,
            Err(e) => return Err(e),
        };
        let port_udp = match parse_env(vars, "BIUBIN_UDP_PORT", d.ports.udp as u64, u16::MAX as u64) {
            Ok(n) => n as u16,
            Err(e) => return Err(e),
        };
        let port_mqtt_tcp = match parse_env(vars, "BIUBIN_MQTT_TCP_PORT", d.ports.mqtt_tcp as u64, u16::MAX as u64) {
            Ok(n) => n as u16,
            Err(e) => return Err(e),
        };
        let port_mqtt_auth_tcp = match parse_env(vars, "BIUBIN_MQTT_AUTH_TCP_PORT", d.ports.mqtt_auth_tcp as u64, u16::MAX as u64) {
            Ok(n) => n as u16,
            Err(e) => return Err(e),
        };
        let port_mqtt_v5 = match parse_env(vars, "BIUBIN_MQTT_V5_PORT", d.ports.mqtt_v5 as u64, u16::MAX as u64) {
            Ok(n) => n as u16,
            Err(e) => return Err(e),
        };
        let port_mqtt_tls = match parse_env(vars, "BIUBIN_MQTT_TLS_PORT", d.ports.mqtt_tls as u64, u16::MAX as u64) {
            Ok(n) => n as u16,
            Err(e) => return Err(e),
        };
        let port_mqtt_tls_backend = match parse_env(vars, "BIUBIN_MQTT_TLS_BACKEND_PORT", d.ports.mqtt_tls_backend as u64, u16::MAX as u64) {
            Ok(n) => n as u16,
            Err(e) => return Err(e),
        };
        let port_mqtt_ws = match parse_env(vars, "BIUBIN_MQTT_WS_PORT", d.ports.mqtt_ws as u64, u16::MAX as u64) {
            Ok(n) => n as u16,
            Err(e) => return Err(e),
        };
        let port_thrift = match parse_env(vars, "BIUBIN_THRIFT_PORT", d.ports.thrift as u64, u16::MAX as u64) {
            Ok(n) => n as u16,
            Err(e) => return Err(e),
        };
        let http_body_limit = match parse_env(vars, "BIUBIN_HTTP_BODY_LIMIT", d.http_body_limit as u64, usize::MAX as u64) {
            Ok(n) => n as usize,
            Err(e) => return Err(e),
        };
        let max_bytes_response = match parse_env(vars, "BIUBIN_MAX_BYTES_RESPONSE", d.max_bytes_response as u64, usize::MAX as u64) {
            Ok(n) => n as usize,
            Err(e) => return Err(e),
        };
        let event_capacity = match parse_env(vars, "BIUBIN_EVENT_CAPACITY", d.event_capacity as u64, usize::MAX as u64) {
            Ok(n) => n as usize,
            Err(e) => return Err(e),
        };
        let tcp_delay_ms = match parse_env(vars, "BIUBIN_TCP_DELAY_MS", d.tcp_delay_ms as u64, u64::MAX as u64) {
            Ok(n) => n as u64,
            Err(e) => return Err(e),
        };
        let tcp_close_after = match parse_env(vars, "BIUBIN_TCP_CLOSE_AFTER", d.tcp_close_after as u64, usize::MAX as u64) {
            Ok(n) => n as usize,
            Err(e) => return Err(e),
        };
        let tcp_read_limit = match parse_env(vars, "BIUBIN_TCP_READ_LIMIT", d.tcp_read_limit as u64, usize::MAX as u64) {
            Ok(n) => n as usize,
            Err(e) => return Err(e),
        };
        let udp_delay_ms = match parse_env(vars, "BIUBIN_UDP_DELAY_MS", d.udp_delay_ms as u64, u64::MAX as u64) {
            Ok(n) => n as u64,
            Err(e) => return Err(e),
        };
        let udp_drop_percent = match parse_env(vars, "BIUBIN_UDP_DROP_PERCENT", d.udp_drop_percent as u64, u8::MAX as u64) {
            Ok(n) => n as u8,
            Err(e) => return Err(e),
        };
        let max_connections = match parse_env(vars, "BIUBIN_MAX_CONNECTIONS", d.max_connections as u64, usize::MAX as u64) {
            Ok(n) => n as usize,
            Err(e) => return Err(e),
        };
        let ports = Ports {
            http: port_http,
            grpc_h2c: port_grpc_h2c,
            grpc_tls: port_grpc_tls,
            tcp: port_tcp,
            udp: port_udp,
            mqtt_tcp: port_mqtt_tcp,
            mqtt_auth_tcp: port_mqtt_auth_tcp,
            mqtt_v5: port_mqtt_v5,
            mqtt_tls: port_mqtt_tls,
            mqtt_tls_backend: port_mqtt_tls_backend,
            mqtt_ws: port_mqtt_ws,
            thrift: port_thrift,
        };
        let config = Config {
            ports,
            bind_host,
            advertise_host,
            mqtt_tls_mode,
            mqtt_username,
            mqtt_password,
            grpc_tls_mode,
            tls_cert_path,
            tls_key_path,
            tls_client_ca_path,
            mqtt_enabled,
            mqtt_tls_enabled,
            grpc_tls_enabled,
            graphql_introspection_enabled,
            http_body_limit,
            max_bytes_response,
            event_capacity,
            tcp_delay_ms,
            tcp_close_after,
            tcp_read_limit,
            udp_delay_ms,
            udp_drop_percent,
            max_connections,
        };
        match config.validate() {
            Ok(()) => Ok(config),
            Err(e) => Err(e),
        }
    }
}

/// The non-empty trimmed pieces of a `,`-separated list, in order.
pub open spec fn list_items(pieces: Seq<Seq<char>>) -> Seq<Seq<char>>
    decreases pieces.len(),
{
    if pieces.len() == 0 {
        Seq::empty()
    } else {
        let rest = list_items(pieces.drop_last());
        if trim(pieces.last()).len() > 0 {
            rest.push(trim(pieces.last()))
        } else {
            rest
        }
    }
}

/// Where `/redirect-to` may send clients: whether absolute targets are
/// allowed, and the hosts they may name.
#[derive(Clone, Debug)]
pub struct RedirectPolicy {
    pub allow_external: bool,
    pub allowed_hosts: Vec<String>,
}

/// The redirect policy the environment selects:
/// `BIUBIN_HTTP_ALLOW_EXTERNAL_REDIRECTS` (a switch, off by default) and
/// `BIUBIN_HTTP_EXTERNAL_REDIRECT_HOSTS` (a `,`-separated list of host names).
pub open spec fn redirect_policy_spec(v: Seq<(Seq<char>, Seq<char>)>) -> Result<(bool, Seq<Seq<char>>), Seq<char>> {
    match env_bool(v, "BIUBIN_HTTP_ALLOW_EXTERNAL_REDIRECTS"@, false) {
        Err(e) => Err(e),
        Ok(allow) => Ok((allow, match lookup(v, "BIUBIN_HTTP_EXTERNAL_REDIRECT_HOSTS"@) {
            Some(list) => list_items(split(list, ',')),
            None => Seq::empty(),
        })),
    }
}

impl RedirectPolicy {
    pub fn from_env(vars: &Vec<(String, String)>) -> (r: Result<RedirectPolicy, String>)
        ensures
            match r {
                Ok(p) => redirect_policy_spec(env_view(vars@)) == Ok::<(bool, Seq<Seq<char>>), Seq<char>>(
                    (p.allow_external, crate::multimap::strings_view(p.allowed_hosts@))),
                Err(e) => redirect_policy_spec(env_view(vars@)) == Err::<(bool, Seq<Seq<char>>), Seq<char>>(e@),
            },
    {
        let allow = match parse_bool_env(vars, "BIUBIN_HTTP_ALLOW_EXTERNAL_REDIRECTS", false) {
            Ok(b) => b,
            Err(e) => return Err(e),
        };
        let mut hosts: Vec<String> = Vec::new();
        match lookup_env(vars, "BIUBIN_HTTP_EXTERNAL_REDIRECT_HOSTS") {
            None => {
                assert(crate::multimap::strings_view(hosts@) =~= Seq::<Seq<char>>::empty());
            },
            Some(list) => {
                let c = chars_of(list.as_str());
                let pieces = crate::text::split_chars(c.as_slice(), ',');
                let ghost all = split(list@, ',');
                let mut i: usize = 0;
                while i < pieces.len()
                    invariant
                        all == split(list@, ','),
                        crate::text::views(pieces@) == all,
                        i <= pieces@.len(),
                        crate::multimap::strings_view(hosts@) == list_items(all.take(i as int)),
                    decreases pieces@.len() - i,
                {
                    proof {
                        assert(all.take(i + 1).drop_last() =~= all.take(i as int));
                        assert(pieces@[i as int]@ == all[i as int]);
                    }
                    let t = trim_chars(pieces[i].as_slice());
                    if t.len() > 0 {
                        let ghost before = hosts@;
                        hosts.push(string_of(t.as_slice()));
                        assert(crate::multimap::strings_view(hosts@) =~= crate::multimap::strings_view(before).push(t@));
                    }
                    i = i + 1;
                }
                assert(all.take(i as int) =~= all);
            },
        }
        Ok(RedirectPolicy { allow_external: allow, allowed_hosts: hosts })
    }
}

/// Each port is read from its own variable: a port variable holding the
/// decimal text of a port number sets that port to it.
pub proof fn law_port_from_its_variable(v: Seq<(Seq<char>, Seq<char>)>, n: u16)
    ensures
        lookup(v, "BIUBIN_HTTP_PORT"@) == Some(decimal(n as nat)) ==> env_model(v).ports.http == n,
        lookup(v, "BIUBIN_GRPC_H2C_PORT"@) == Some(decimal(n as nat)) ==> env_model(v).ports.grpc_h2c == n,
        lookup(v, "BIUBIN_GRPC_TLS_PORT"@) == Some(decimal(n as nat)) ==> env_model(v).ports.grpc_tls == n,
        lookup(v, "BIUBIN_TCP_PORT"@) == Some(decimal(n as nat)) ==> env_model(v).ports.tcp == n,
        lookup(v, "BIUBIN_UDP_PORT"@) == Some(decimal(n as nat)) ==> env_model(v).ports.udp == n,
        lookup(v, "BIUBIN_MQTT_TCP_PORT"@) == Some(decimal(n as nat)) ==> env_model(v).ports.mqtt_tcp == n,
        lookup(v, "BIUBIN_MQTT_AUTH_TCP_PORT"@) == Some(decimal(n as nat)) ==> env_model(v).ports.mqtt_auth_tcp == n,
        lookup(v, "BIUBIN_MQTT_V5_PORT"@) == Some(decimal(n as nat)) ==> env_model(v).ports.mqtt_v5 == n,
        lookup(v, "BIUBIN_MQTT_TLS_PORT"@) == Some(decimal(n as nat)) ==> env_model(v).ports.mqtt_tls == n,
        lookup(v, "BIUBIN_MQTT_TLS_BACKEND_PORT"@) == Some(decimal(n as nat)) ==> env_model(v).ports.mqtt_tls_backend == n,
        lookup(v, "BIUBIN_MQTT_WS_PORT"@) == Some(decimal(n as nat)) ==> env_model(v).ports.mqtt_ws == n,
        lookup(v, "BIUBIN_THRIFT_PORT"@) == Some(decimal(n as nat)) ==> env_model(v).ports.thrift == n,
{
    crate::number::lemma_decimal_parses(n as nat, u16::MAX as nat);
}

/// No other variable changes a port: two environments that agree on a port's
/// variable select the same value for that port.
pub proof fn law_port_ignores_other_variables(v: Seq<(Seq<char>, Seq<char>)>, w: Seq<(Seq<char>, Seq<char>)>)
    ensures
        lookup(v, "BIUBIN_HTTP_PORT"@) == lookup(w, "BIUBIN_HTTP_PORT"@) ==> env_model(v).ports.http == env_model(w).ports.http,
        lookup(v, "BIUBIN_GRPC_H2C_PORT"@) == lookup(w, "BIUBIN_GRPC_H2C_PORT"@) ==> env_model(v).ports.grpc_h2c == env_model(w).ports.grpc_h2c,
        lookup(v, "BIUBIN_GRPC_TLS_PORT"@) == lookup(w, "BIUBIN_GRPC_TLS_PORT"@) ==> env_model(v).ports.grpc_tls == env_model(w).ports.grpc_tls,
        lookup(v, "BIUBIN_TCP_PORT"@) == lookup(w, "BIUBIN_TCP_PORT"@) ==> env_model(v).ports.tcp == env_model(w).ports.tcp,
        lookup(v, "BIUBIN_UDP_PORT"@) == lookup(w, "BIUBIN_UDP_PORT"@) ==> env_model(v).ports.udp == env_model(w).ports.udp,
        lookup(v, "BIUBIN_MQTT_TCP_PORT"@) == lookup(w, "BIUBIN_MQTT_TCP_PORT"@) ==> env_model(v).ports.mqtt_tcp == env_model(w).ports.mqtt_tcp,
        lookup(v, "BIUBIN_MQTT_AUTH_TCP_PORT"@) == lookup(w, "BIUBIN_MQTT_AUTH_TCP_PORT"@) ==> env_model(v).ports.mqtt_auth_tcp == env_model(w).ports.mqtt_auth_tcp,
        lookup(v, "BIUBIN_MQTT_V5_PORT"@) == lookup(w, "BIUBIN_MQTT_V5_PORT"@) ==> env_model(v).ports.mqtt_v5 == env_model(w).ports.mqtt_v5,
        lookup(v, "BIUBIN_MQTT_TLS_PORT"@) == lookup(w, "BIUBIN_MQTT_TLS_PORT"@) ==> env_model(v).ports.mqtt_tls == env_model(w).ports.mqtt_tls,
        lookup(v, "BIUBIN_MQTT_TLS_BACKEND_PORT"@) == lookup(w, "BIUBIN_MQTT_TLS_BACKEND_PORT"@) ==> env_model(v).ports.mqtt_tls_backend == env_model(w).ports.mqtt_tls_backend,
        lookup(v, "BIUBIN_MQTT_WS_PORT"@) == lookup(w, "BIUBIN_MQTT_WS_PORT"@) ==> env_model(v).ports.mqtt_ws == env_model(w).ports.mqtt_ws,
        lookup(v, "BIUBIN_THRIFT_PORT"@) == lookup(w, "BIUBIN_THRIFT_PORT"@) ==> env_model(v).ports.thrift == env_model(w).ports.thrift,
{
}

/// Each text setting is read from its own variable: a set, non-empty value
/// replaces the default. Each numeric setting holding the decimal text of a
/// number in its type's range takes that number.
pub proof fn law_setting_from_its_variable(v: Seq<(Seq<char>, Seq<char>)>, t: Seq<char>, n: nat)
    ensures
        lookup(v, "BIUBIN_BIND_HOST"@) == Some(t) && t.len() > 0 ==> env_model(v).bind_host == t,
        lookup(v, "BIUBIN_ADVERTISE_HOST"@) == Some(t) && t.len() > 0 ==> env_model(v).advertise_host == t,
        lookup(v, "BIUBIN_MQTT_TLS_MODE"@) == Some(t) && t.len() > 0 ==> env_model(v).mqtt_tls_mode == t,
        lookup(v, "BIUBIN_MQTT_USERNAME"@) == Some(t) && t.len() > 0 ==> env_model(v).mqtt_username == t,
        lookup(v, "BIUBIN_MQTT_PASSWORD"@) == Some(t) && t.len() > 0 ==> env_model(v).mqtt_password == t,
        lookup(v, "BIUBIN_GRPC_TLS_MODE"@) == Some(t) && t.len() > 0 ==> env_model(v).grpc_tls_mode == t,
        lookup(v, "BIUBIN_TLS_CERT_PATH"@) == Some(t) && t.len() > 0 ==> env_model(v).tls_cert_path == t,
        lookup(v, "BIUBIN_TLS_KEY_PATH"@) == Some(t) && t.len() > 0 ==> env_model(v).tls_key_path == t,
        lookup(v, "BIUBIN_TLS_CLIENT_CA_PATH"@) == Some(t) && t.len() > 0 ==> env_model(v).tls_client_ca_path == t,
        n <= usize::MAX && lookup(v, "BIUBIN_HTTP_BODY_LIMIT"@) == Some(decimal(n)) ==> env_model(v).http_body_limit == n,
        n <= usize::MAX && lookup(v, "BIUBIN_MAX_BYTES_RESPONSE"@) == Some(decimal(n)) ==> env_model(v).max_bytes_response == n,
        n <= usize::MAX && lookup(v, "BIUBIN_EVENT_CAPACITY"@) == Some(decimal(n)) ==> env_model(v).event_capacity == n,
        n <= u64::MAX && lookup(v, "BIUBIN_TCP_DELAY_MS"@) == Some(decimal(n)) ==> env_model(v).tcp_delay_ms == n,
        n <= usize::MAX && lookup(v, "BIUBIN_TCP_CLOSE_AFTER"@) == Some(decimal(n)) ==> env_model(v).tcp_close_after == n,
        n <= usize::MAX && lookup(v, "BIUBIN_TCP_READ_LIMIT"@) == Some(decimal(n)) ==> env_model(v).tcp_read_limit == n,
        n <= u64::MAX && lookup(v, "BIUBIN_UDP_DELAY_MS"@) == Some(decimal(n)) ==> env_model(v).udp_delay_ms == n,
        n <= u8::MAX && lookup(v, "BIUBIN_UDP_DROP_PERCENT"@) == Some(decimal(n)) ==> env_model(v).udp_drop_percent == n,
        n <= usize::MAX && lookup(v, "BIUBIN_MAX_CONNECTIONS"@) == Some(decimal(n)) ==> env_model(v).max_connections == n,
{
    if n <= u8::MAX {
        crate::number::lemma_decimal_parses(n, u8::MAX as nat);
    }
    if n <= u64::MAX {
        crate::number::lemma_decimal_parses(n, u64::MAX as nat);
    }
    if n <= usize::MAX {
        crate::number::lemma_decimal_parses(n, usize::MAX as nat);
    }
}

/// No other variable changes a setting: two environments that agree on a
/// setting's variable select the same value for it.
pub proof fn law_setting_ignores_other_variables(v: Seq<(Seq<char>, Seq<char>)>, w: Seq<(Seq<char>, Seq<char>)>)
    ensures
        lookup(v, "BIUBIN_BIND_HOST"@) == lookup(w, "BIUBIN_BIND_HOST"@) ==> env_model(v).bind_host == env_model(w).bind_host,
        lookup(v, "BIUBIN_ADVERTISE_HOST"@) == lookup(w, "BIUBIN_ADVERTISE_HOST"@) ==> env_model(v).advertise_host == env_model(w).advertise_host,
        lookup(v, "BIUBIN_MQTT_TLS_MODE"@) == lookup(w, "BIUBIN_MQTT_TLS_MODE"@) ==> env_model(v).mqtt_tls_mode == env_model(w).mqtt_tls_mode,
        lookup(v, "BIUBIN_MQTT_USERNAME"@) == lookup(w, "BIUBIN_MQTT_USERNAME"@) ==> env_model(v).mqtt_username == env_model(w).mqtt_username,
        lookup(v, "BIUBIN_MQTT_PASSWORD"@) == lookup(w, "BIUBIN_MQTT_PASSWORD"@) ==> env_model(v).mqtt_password == env_model(w).mqtt_password,
        lookup(v, "BIUBIN_GRPC_TLS_MODE"@) == lookup(w, "BIUBIN_GRPC_TLS_MODE"@) ==> env_model(v).grpc_tls_mode == env_model(w).grpc_tls_mode,
        lookup(v, "BIUBIN_TLS_CERT_PATH"@) == lookup(w, "BIUBIN_TLS_CERT_PATH"@) ==> env_model(v).tls_cert_path == env_model(w).tls_cert_path,
        lookup(v, "BIUBIN_TLS_KEY_PATH"@) == lookup(w, "BIUBIN_TLS_KEY_PATH"@) ==> env_model(v).tls_key_path == env_model(w).tls_key_path,
        lookup(v, "BIUBIN_TLS_CLIENT_CA_PATH"@) == lookup(w, "BIUBIN_TLS_CLIENT_CA_PATH"@) ==> env_model(v).tls_client_ca_path == env_model(w).tls_client_ca_path,
        lookup(v, "BIUBIN_HTTP_BODY_LIMIT"@) == lookup(w, "BIUBIN_HTTP_BODY_LIMIT"@) ==> env_model(v).http_body_limit == env_model(w).http_body_limit,
        lookup(v, "BIUBIN_MAX_BYTES_RESPONSE"@) == lookup(w, "BIUBIN_MAX_BYTES_RESPONSE"@) ==> env_model(v).max_bytes_response == env_model(w).max_bytes_response,
        lookup(v, "BIUBIN_EVENT_CAPACITY"@) == lookup(w, "BIUBIN_EVENT_CAPACITY"@) ==> env_model(v).event_capacity == env_model(w).event_capacity,
        lookup(v, "BIUBIN_TCP_DELAY_MS"@) == lookup(w, "BIUBIN_TCP_DELAY_MS"@) ==> env_model(v).tcp_delay_ms == env_model(w).tcp_delay_ms,
        lookup(v, "BIUBIN_TCP_CLOSE_AFTER"@) == lookup(w, "BIUBIN_TCP_CLOSE_AFTER"@) ==> env_model(v).tcp_close_after == env_model(w).tcp_close_after,
        lookup(v, "BIUBIN_TCP_READ_LIMIT"@) == lookup(w, "BIUBIN_TCP_READ_LIMIT"@) ==> env_model(v).tcp_read_limit == env_model(w).tcp_read_limit,
        lookup(v, "BIUBIN_UDP_DELAY_MS"@) == lookup(w, "BIUBIN_UDP_DELAY_MS"@) ==> env_model(v).udp_delay_ms == env_model(w).udp_delay_ms,
        lookup(v, "BIUBIN_UDP_DROP_PERCENT"@) == lookup(w, "BIUBIN_UDP_DROP_PERCENT"@) ==> env_model(v).udp_drop_percent == env_model(w).udp_drop_percent,
        lookup(v, "BIUBIN_MAX_CONNECTIONS"@) == lookup(w, "BIUBIN_MAX_CONNECTIONS"@) ==> env_model(v).max_connections == env_model(w).max_connections,
        lookup(v, "BIUBIN_MQTT_ENABLED"@) == lookup(w, "BIUBIN_MQTT_ENABLED"@) ==> env_model(v).mqtt_enabled == env_model(w).mqtt_enabled,
        lookup(v, "BIUBIN_MQTT_TLS_ENABLED"@) == lookup(w, "BIUBIN_MQTT_TLS_ENABLED"@) ==> env_model(v).mqtt_tls_enabled == env_model(w).mqtt_tls_enabled,
        lookup(v, "BIUBIN_GRPC_TLS_ENABLED"@) == lookup(w, "BIUBIN_GRPC_TLS_ENABLED"@) ==> env_model(v).grpc_tls_enabled == env_model(w).grpc_tls_enabled,
        lookup(v, "BIUBIN_GRAPHQL_INTROSPECTION_ENABLED"@) == lookup(w, "BIUBIN_GRAPHQL_INTROSPECTION_ENABLED"@) ==> env_model(v).graphql_introspection_enabled == env_model(w).graphql_introspection_enabled,
{
}

} // verus!
