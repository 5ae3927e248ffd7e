//! The resolvers of the GraphQL fixture schema.

use vstd::prelude::*;
use crate::config::Config;
use crate::events::{Event, EventStore, EventView, event_views, newest_matching, recorded_event};
use crate::number::{decimal, decimal_chars};
use crate::text::{byte_len, chars_of, push_all, str_eq, string_of, trim, trim_chars};

verus! {

/// An error with a stable `code` extension.
#[derive(Clone, Debug)]
pub struct StableError {
    pub code: String,
    pub message: String,
}

fn stable_error(code: &str, message: &str) -> (e: StableError)
    ensures
        e.code@ == code@,
        e.message@ == message@,
{
    StableError { code: code.to_owned(), message: message.to_owned() }
}

/// The root of queries.
#[derive(Clone, Copy, Debug, Default)]
pub struct QueryRoot;

/// The root of mutations.
#[derive(Clone, Copy, Debug, Default)]
pub struct MutationRoot;

/// The root of subscriptions.
#[derive(Clone, Copy, Debug, Default)]
pub struct SubscriptionRoot;

/// The input of `echo`.
#[derive(Clone, Debug, Default)]
pub struct EchoInput {
    pub message: Option<String>,
    pub repeat: Option<i32>,
}

/// The answer of `echo`.
#[derive(Clone, Debug)]
pub struct EchoResult {
    pub message: String,
    pub repeated: Vec<String>,
}

/// The answer of `serverInfo`.
#[derive(Clone, Debug)]
pub struct ServerInfo {
    pub name: String,
    pub version: String,
    pub bind_host: String,
    pub advertise_host: String,
    pub http_port: i32,
    pub grpc_h2c_port: i32,
    pub grpc_tls_port: i32,
    pub tcp_port: i32,
    pub udp_port: i32,
    pub mqtt_enabled: bool,
    pub mqtt_tls_enabled: bool,
}

/// The input of `publishTestEvent`.
#[derive(Clone, Debug, Default)]
pub struct PublishEventInput {
    pub protocol: String,
    pub summary: String,
    pub require_auth: Option<bool>,
    pub token: Option<String>,
}

/// One tick of the `ticker` subscription.
#[derive(Clone, Debug)]
pub struct GraphTick {
    pub sequence: i64,
    pub message: String,
}

/// The message `echo` repeats: the input's, else `biubin echo`.
pub open spec fn echo_message(input: Option<EchoInput>) -> Seq<char> {
    match input {
        Some(i) => match i.message {
            Some(m) => m@,
            None => "biubin echo"@,
        },
        None => "biubin echo"@,
    }
}

/// How often `echo` repeats: the input's count from 1 to 100, else once.
pub open spec fn echo_repeat(input: Option<EchoInput>) -> int {
    let r = match input {
        Some(i) => match i.repeat {
            Some(r) => r as int,
            None => 1,
        },
        None => 1,
    };
    if r < 1 { 1 } else if r > 100 { 100 } else { r }
}

/// The `n`-th repetition: the message, ` #` and the number.
pub open spec fn repetition(message: Seq<char>, n: nat) -> Seq<char> {
    message + " #"@ + decimal(n)
}

impl QueryRoot {
    /// `echo`: the message and its numbered repetitions; two reserved
    /// messages produce a resolver and an authentication error instead.
    pub fn echo(&self, input: Option<EchoInput>) -> (r: Result<EchoResult, StableError>)
        ensures
            echo_message(input) == "__resolver_error"@ ==> (r matches Err(e)
                && e.code@ == "RESOLVER_ERROR"@ && e.message@ == "requested resolver error"@),
            echo_message(input) != "__resolver_error"@ && echo_message(input) == "__auth_error"@ ==> (r matches Err(e)
                && e.code@ == "UNAUTHENTICATED"@ && e.message@ == "authentication required for this resolver example"@),
            echo_message(input) != "__resolver_error"@ && echo_message(input) != "__auth_error"@ ==> (r matches Ok(res) && {
                &&& res.message@ == echo_message(input)
                &&& res.repeated@.len() == echo_repeat(input)
                &&& forall|i: int| 0 <= i < res.repeated@.len() ==> #[trigger] res.repeated@[i]@ == repetition(echo_message(input), (i + 1) as nat)
            }),
    {
        let ghost wanted = echo_message(input);
        let ghost times = echo_repeat(input);
        let (message, repeat) = match input {
            Some(i) => (
                match i.message {
                    Some(m) => m,
                    None => "biubin echo".to_owned(),
                },
                match i.repeat {
                    Some(r) => r,
                    None => 1,
                },
            ),
            None => ("biubin echo".to_owned(), 1),
        };
        if str_eq(message.as_str(), "__resolver_error") {
            return Err(stable_error("RESOLVER_ERROR", "requested resolver error"));
        }
        if str_eq(message.as_str(), "__auth_error") {
            return Err(stable_error("UNAUTHENTICATED", "authentication required for this resolver example"));
        }
        let count: i32 = if repeat < 1 { 1 } else if repeat > 100 { 100 } else { repeat };
        let mut repeated: Vec<String> = Vec::new();
        let mut n: i32 = 1;
        while n <= count
            invariant
                1 <= count <= 100,
                1 <= n <= count + 1,
                message@ == wanted,
                repeated@.len() == n - 1,
                forall|i: int| 0 <= i < repeated@.len() ==> #[trigger] repeated@[i]@ == repetition(wanted, (i + 1) as nat),
            decreases count + 1 - n,
        {
            let mut v = chars_of(message.as_str());
            let tag = chars_of(" #");
            push_all(&mut v, tag.as_slice());
            let d = decimal_chars(n as u64);
            push_all(&mut v, d.as_slice());
            repeated.push(string_of(v.as_slice()));
            n = n + 1;
        }
        Ok(EchoResult { message, repeated })
    }

    /// `serverInfo`: the name, the given version and the configured addresses.
    pub fn server_info(&self, config: &Config, version: &str) -> (r: ServerInfo)
        ensures
            r.name@ == "biubin"@,
            r.version@ == version@,
            r.bind_host@ == config.bind_host@,
            r.advertise_host@ == config.advertise_host@,
            r.http_port == config.ports.http as i32,
            r.grpc_h2c_port == config.ports.grpc_h2c as i32,
            r.grpc_tls_port == config.ports.grpc_tls as i32,
            r.tcp_port == config.ports.tcp as i32,
            r.udp_port == config.ports.udp as i32,
            r.mqtt_enabled == config.mqtt_enabled,
            r.mqtt_tls_enabled == config.mqtt_tls_enabled,
    {
        ServerInfo {
            name: "biubin".to_owned(),
            version: version.to_owned(),
            bind_host: config.bind_host.clone(),
            advertise_host: config.advertise_host.clone(),
            http_port: config.ports.http as i32,
            grpc_h2c_port: config.ports.grpc_h2c as i32,
            grpc_tls_port: config.ports.grpc_tls as i32,
            tcp_port: config.ports.tcp as i32,
            udp_port: config.ports.udp as i32,
            mqtt_enabled: config.mqtt_enabled,
            mqtt_tls_enabled: config.mqtt_tls_enabled,
        }
    }

    /// How many events `recentEvents` lists: the request from 1 to 200, else 20.
    pub open spec fn recent_limit_spec(limit: Option<i32>) -> int {
        match limit {
            Some(l) => if l < 1 { 1 } else if l > 200 { 200 } else { l as int },
            None => 20,
        }
    }

    /// `recentEvents`: up to the limit (and the store's capacity) of the
    /// newest events, of one protocol when one is given.
    pub fn recent_events(&self, store: &EventStore, limit: Option<i32>, protocol: Option<&str>) -> (r: Vec<Event>)
        requires
            store.inv(),
        ensures
            event_views(r@) == newest_matching(store.retained(), crate::behavior::text_of(protocol), {
                let n = QueryRoot::recent_limit_spec(limit) as nat;
                if n < store.capacity_spec() { n } else { store.capacity_spec() }
            }),
    {
        let n: usize = match limit {
            Some(l) => if l < 1 { 1 } else if l > 200 { 200 } else { l as usize },
            None => 20,
        };
        store.list(n, protocol)
    }
}

/// Why `publishTestEvent` refuses its input, if it does.
pub open spec fn publish_error(protocol: Seq<char>, summary: Seq<char>, require_auth: Option<bool>, token: Option<Seq<char>>) -> Option<(Seq<char>, Seq<char>)> {
    if trim(protocol).len() == 0 || byte_len(protocol) > 32 {
        Some(("INVALID_INPUT"@, "protocol must contain 1-32 characters"@))
    } else if byte_len(summary) > 256 {
        Some(("INVALID_INPUT"@, "summary must contain at most 256 characters"@))
    } else if require_auth == Some(true) && token != Some("biubin-dev"@) {
        Some(("UNAUTHENTICATED"@, "publishTestEvent requires token biubin-dev in this development fixture"@))
    } else {
        None
    }
}

impl MutationRoot {
    /// `publishTestEvent`: checks the input, then records a `test_event`.
    pub fn publish_test_event(&self, store: &mut EventStore, input: PublishEventInput) -> (r: Result<Event, StableError>)
        requires
            old(store).inv(),
        ensures
            final(store).inv(),
            ({
                let token = crate::events::opt_view(input.token);
                match publish_error(input.protocol@, input.summary@, input.require_auth, token) {
                    Some((code, message)) => r matches Err(e) && e.code@ == code && e.message@ == message
                        && *final(store) == *old(store),
                    None => r matches Ok(e) && {
                        &&& e@ == recorded_event(old(store).next_seq_spec(), e@.at, input.protocol@, "test_event"@,
                            input.summary@, Map::<String, serde_json::Value>::empty())
                        &&& final(store).retained() == crate::events::keep_newest(old(store).retained().push(e@),
                            old(store).capacity_spec())
                    },
                }
            }),
    {
        let p = chars_of(input.protocol.as_str());
        let t = trim_chars(p.as_slice());
        if t.len() == 0 || input.protocol.as_str().len() > 32 {
            return Err(stable_error("INVALID_INPUT", "protocol must contain 1-32 characters"));
        }
        if input.summary.as_str().len() > 256 {
            return Err(stable_error("INVALID_INPUT", "summary must contain at most 256 characters"));
        }
        let require = match input.require_auth {
            Some(b) => b,
            None => false,
        };
        if require {
            let ok = match &input.token {
                Some(tok) => str_eq(tok.as_str(), "biubin-dev"),
                None => false,
            };
            if !ok {
                return Err(stable_error(
                    "UNAUTHENTICATED",
                    "publishTestEvent requires token biubin-dev in this development fixture",
                ));
            }
        }
        let protocol = input.protocol;
        let summary = input.summary;
        Ok(store.push(protocol.as_str(), "test_event", summary))
    }
}

impl SubscriptionRoot {
    /// The interval and length of a `ticker` subscription, as the other tickers.
    pub fn ticker_params(&self, interval_ms: Option<u64>, count: Option<u64>) -> (r: (u64, u64))
        ensures
            r.0 == (match interval_ms {
                Some(i) => if i < 10 { 10 } else if i > 60000 { 60000 } else { i },
                None => 1000,
            }),
            r.1 == (match count {
                Some(c) => if c > 1000 { 1000 } else { c },
                None => 5,
            }),
    {
        crate::service::ticker_params(interval_ms, count)
    }

    /// The `sequence`-th tick.
    pub fn tick(&self, sequence: u64) -> (t: GraphTick)
        requires
            sequence <= i64::MAX,
        ensures
            t.sequence == sequence as i64,
            t.message@ == "biubin graphql tick"@,
    {
        GraphTick { sequence: sequence as i64, message: "biubin graphql tick".to_owned() }
    }
}

/// The error code given to a GraphQL error that has none: a request that
/// parsed fails validation, one that did not is a syntax error.
pub fn default_error_code(syntax_valid: bool) -> (c: String)
    ensures
        c@ == (if syntax_valid { "VALIDATION_ERROR"@ } else { "SYNTAX_ERROR"@ }),
{
    if syntax_valid {
        "VALIDATION_ERROR".to_owned()
    } else {
        "SYNTAX_ERROR".to_owned()
    }
}

} // verus!
