use biubin::config::{Config, Ports, RedirectPolicy};
use biubin::events::EventStore;
use biubin::readiness::Readiness;

fn vars(pairs: &[(&str, &str)]) -> Vec<(String, String)> {
    pairs.iter().map(|(k, v)| (k.to_string(), v.to_string())).collect()
}

#[test]
fn mqtt_tls_requires_the_mqtt_listener() {
    let config = Config {
        mqtt_tls_enabled: true,
        ..Config::default()
    };
    let error = config.validate().unwrap_err();
    assert!(error.contains("mqtt_enabled=true"));
}

#[test]
fn readiness_requires_all_required_listeners() {
    let mut readiness = Readiness::with_required(vec!["http".to_owned(), "grpc".to_owned()]);
    assert!(!readiness.is_ready());
    readiness.mark("http", true);
    assert!(!readiness.is_ready());
    readiness.mark("grpc", true);
    assert!(readiness.is_ready());
}

#[test]
fn event_store_is_bounded_and_returns_newest_first() {
    let mut store = EventStore::new(2);
    store.push("http", "one", "one".to_owned());
    store.push("http", "two", "two".to_owned());
    store.push("http", "three", "three".to_owned());
    let events = store.list(10, None);
    assert_eq!(events.len(), 2);
    assert_eq!(events[0].summary, "three");
    assert_eq!(events[1].summary, "two");
    assert_eq!(store.dropped(), 1);
}

#[test]
fn default_configuration_is_valid_and_loopback() {
    let config = Config::default();
    assert!(config.validate().is_ok());
    assert_eq!(config.bind_host, "127.0.0.1");
    assert_eq!(config.ports, Ports::default());
    assert_eq!(config.ports.http, 8080);
}

#[test]
fn configuration_reads_the_environment() {
    let config = Config::from_env(&vars(&[
        ("BIUBIN_HTTP_PORT", "9999"),
        ("BIUBIN_MQTT_ENABLED", "YES"),
        ("BIUBIN_BIND_HOST", "0.0.0.0"),
    ]))
    .unwrap();
    assert_eq!(config.ports.http, 9999);
    assert!(config.mqtt_enabled);
    assert_eq!(config.bind_host, "0.0.0.0");
}

#[test]
fn configuration_rejects_bad_values() {
    let error = Config::from_env(&vars(&[("BIUBIN_HTTP_PORT", "70000")])).unwrap_err();
    assert!(error.contains("BIUBIN_HTTP_PORT"));
    let error = Config::from_env(&vars(&[("BIUBIN_MQTT_ENABLED", "maybe")])).unwrap_err();
    assert!(error.contains("must be a boolean"));
    let error = Config::from_env(&vars(&[("BIUBIN_UDP_DROP_PERCENT", "101")])).unwrap_err();
    assert!(error.contains("udp_drop_percent"));
}

#[test]
fn redirect_policy_reads_switch_and_host_list() {
    let policy = RedirectPolicy::from_env(&vars(&[
        ("BIUBIN_HTTP_ALLOW_EXTERNAL_REDIRECTS", "true"),
        ("BIUBIN_HTTP_EXTERNAL_REDIRECT_HOSTS", " example.com , ,api.example.org"),
    ]))
    .unwrap();
    assert!(policy.allow_external);
    assert_eq!(policy.allowed_hosts, vec!["example.com".to_owned(), "api.example.org".to_owned()]);
    let policy = RedirectPolicy::from_env(&vars(&[])).unwrap();
    assert!(!policy.allow_external);
    assert!(policy.allowed_hosts.is_empty());
    assert!(RedirectPolicy::from_env(&vars(&[("BIUBIN_HTTP_ALLOW_EXTERNAL_REDIRECTS", "sure")])).is_err());
}

#[test]
fn readiness_snapshot_and_unrequired_listeners() {
    let mut readiness = Readiness::with_required(vec!["http".to_owned()]);
    readiness.mark("extra", false);
    assert!(!readiness.is_ready());
    readiness.mark("http", true);
    assert!(readiness.is_ready());
    readiness.mark("extra", false);
    assert!(readiness.is_ready());
    let mut snapshot = readiness.snapshot();
    snapshot.sort();
    assert_eq!(snapshot, vec![("extra".to_owned(), false), ("http".to_owned(), true)]);
    readiness.mark("http", false);
    assert!(!readiness.is_ready());
    assert!(Readiness::with_required(Vec::new()).is_ready());
}

#[test]
fn event_store_filters_by_protocol_and_numbers_events() {
    let mut store = EventStore::new(10);
    let first = store.push("tcp", "frame", "a".to_owned());
    store.push("udp", "datagram", "b".to_owned());
    store.push("tcp", "frame", "c".to_owned());
    assert_eq!(first.id, "evt_1");
    assert_eq!(first.seq, 1);
    let tcp = store.list(10, Some("tcp"));
    assert_eq!(tcp.len(), 2);
    assert_eq!(tcp[0].summary, "c");
    assert_eq!(tcp[1].summary, "a");
    assert_eq!(store.list(1, None)[0].summary, "c");
    assert_eq!(store.dropped(), 0);
    assert_eq!(store.capacity(), 10);
}

#[test]
fn readiness_snapshot_lists_names_in_order() {
    let mut readiness = Readiness::with_required(vec!["tcp".to_owned(), "http".to_owned(), "grpc_h2c".to_owned()]);
    readiness.mark("udp", true);
    readiness.mark("http", true);
    readiness.mark("Zeta", false);
    let names: Vec<String> = readiness.snapshot().into_iter().map(|(name, _)| name).collect();
    assert_eq!(names, vec!["Zeta", "grpc_h2c", "http", "tcp", "udp"]);
}

#[test]
fn pushes_keep_the_newest_window() {
    let mut store = EventStore::new(3);
    for summary in ["one", "two", "three", "four", "five"] {
        store.push("http", "k", summary.to_owned());
    }
    let listed = store.list(10, None);
    let seqs: Vec<u64> = listed.iter().map(|e| e.seq).collect();
    assert_eq!(seqs, vec![5, 4, 3]);
    assert_eq!(listed[0].summary, "five");
    assert_eq!(store.dropped(), 2);
    assert_eq!(store.list(2, None).len(), 2);
}
