use biubin::config::Config;
use biubin::control::protocol_capabilities;
use biubin::echo::{body_format, body_preview, parse_structured_body, request_summary, BodyFormat, JsonValue};
use biubin::events::EventStore;
use biubin::graphql::{default_error_code, EchoInput, MutationRoot, PublishEventInput, QueryRoot, SubscriptionRoot};
use biubin::headers::{generated_request_id, redacted_headers, supplied_request_id};
use biubin::mqtt::{mqtt_listeners, ports_to_allocate, set_port, tls_required_files, MqttPort, MqttTransport};
use biubin::readiness::Readiness;
use biubin::service::{
    asset_content_type, close_params, events_limit, fixed_stream_plan, headers_oversized, host_port,
    long_lived_path, record_listener_exit, required_listeners, room_admitted, room_name_ok, ticker_params,
    ws_action, EventCursor, ListenerExit, WsAction, WsKind,
};

#[test]
fn unexpected_listener_exit_marks_readiness_unready() {
    let mut readiness = Readiness::with_required(vec!["http".to_owned()]);
    readiness.mark("http", true);
    record_listener_exit(&mut readiness, "http", ListenerExit::Stopped, false);
    assert!(!readiness.is_ready());
}

#[test]
fn listener_error_marks_readiness_unready() {
    let mut readiness = Readiness::with_required(vec!["grpc".to_owned()]);
    readiness.mark("grpc", true);
    record_listener_exit(&mut readiness, "grpc", ListenerExit::Failed, false);
    assert!(!readiness.is_ready());
}

#[test]
fn graceful_listener_exit_keeps_readiness_during_shutdown() {
    let mut readiness = Readiness::with_required(vec!["http".to_owned()]);
    readiness.mark("http", true);
    record_listener_exit(&mut readiness, "http", ListenerExit::Stopped, true);
    assert!(readiness.is_ready());
}

#[test]
fn required_listeners_follow_the_configuration() {
    assert_eq!(required_listeners(false, false).len(), 5);
    assert_eq!(
        required_listeners(true, true)[5..].to_vec(),
        vec!["mqtt".to_owned(), "grpc_tls".to_owned()]
    );
}

#[test]
fn request_admission_and_identifiers() {
    assert!(headers_oversized(&vec![10, 5000]));
    assert!(!headers_oversized(&vec![4096]));
    assert!(long_lived_path("/ws/echo"));
    assert!(long_lived_path("/api/v1/events/stream"));
    assert!(!long_lived_path("/anything"));
    assert_eq!(supplied_request_id(Some("test-request")), Some("test-request".to_owned()));
    assert_eq!(supplied_request_id(Some("")), None);
    assert_eq!(supplied_request_id(Some(&"x".repeat(129))), None);
    assert_eq!(generated_request_id(7), "req_7");
}

#[test]
fn anything_echoes_request_and_redacts_sensitive_headers() {
    let headers = vec![
        ("authorization".to_owned(), Some("Bearer secret".to_owned())),
        ("x-test".to_owned(), Some("one".to_owned())),
        ("x-test".to_owned(), Some("two".to_owned())),
    ];
    let groups = redacted_headers(&headers);
    let auth = groups.iter().find(|(n, _)| n == "authorization").unwrap();
    assert_eq!(auth.1, vec!["[REDACTED]".to_owned()]);
    let test = groups.iter().find(|(n, _)| n == "x-test").unwrap();
    assert_eq!(test.1, vec!["one".to_owned(), "two".to_owned()]);
    assert_eq!(body_preview(b"hello"), "hello");
    assert_eq!(body_preview(&vec![b'a'; 5000]).len(), 4096);
    assert_eq!(request_summary("POST", "/anything/demo"), "POST /anything/demo");
}

#[test]
fn structured_bodies_are_read_by_content_type() {
    let json = parse_structured_body(Some("application/json"), b"{\"hello\":\"world\"}");
    assert_eq!(json.json.unwrap(), JsonValue::Object(vec![("hello".to_owned(), JsonValue::Str("world".to_owned()))]));
    let form = parse_structured_body(Some("application/x-www-form-urlencoded"), b"a=1&a=2&b=ok");
    let a = form.form.iter().find(|(n, _)| n == "a").unwrap();
    assert_eq!(a.1, vec!["1".to_owned(), "2".to_owned()]);
    let body = b"--biubin-boundary\r\nContent-Disposition: form-data; name=\"field\"\r\n\r\nvalue\r\n--biubin-boundary\r\nContent-Disposition: form-data; name=\"upload\"; filename=\"demo.txt\"\r\nContent-Type: text/plain\r\n\r\nhello\r\n--biubin-boundary--\r\n";
    let multi = parse_structured_body(Some("multipart/form-data; boundary=biubin-boundary"), body);
    assert_eq!(multi.form, vec![("field".to_owned(), vec!["value".to_owned()])]);
    assert_eq!(multi.files, vec![("upload".to_owned(), vec!["hello".to_owned()])]);
    assert!(matches!(body_format("multipart/form-data"), BodyFormat::Other));
    let none = parse_structured_body(None, b"x");
    assert!(none.json.is_none() && none.form.is_empty() && none.files.is_empty());
}

#[test]
fn json_body_that_does_not_parse_has_no_document() {
    let broken = parse_structured_body(Some("application/json"), b"{\"hello\":");
    assert!(broken.json.is_none() && broken.form.is_empty() && broken.files.is_empty());
}

#[test]
fn websocket_rules() {
    assert_eq!(ws_action(WsKind::Text, 10), WsAction::Forward);
    assert_eq!(ws_action(WsKind::Binary, 70000), WsAction::CloseTooLarge);
    assert_eq!(ws_action(WsKind::Ping, 0), WsAction::Pong);
    assert_eq!(ws_action(WsKind::Close, 0), WsAction::Stop);
    assert!(room_name_ok("lobby"));
    assert!(!room_name_ok(""));
    assert!(!room_name_ok(&"r".repeat(129)));
    assert!(room_admitted(true, 100));
    assert!(!room_admitted(false, 100));
    assert_eq!(ticker_params(None, None), (1000, 5));
    assert_eq!(ticker_params(Some(1), Some(5000)), (10, 1000));
    assert_eq!(close_params(Some(4000), Some(90000)), (1000, 60000));
    assert_eq!(close_params(Some(1011), None), (1011, 0));
}

#[test]
fn sse_event_stream_resumes_after_cursor() {
    assert_eq!(fixed_stream_plan(0, 5), vec![(1, false), (2, true), (3, true), (4, true), (5, true)]);
    assert_eq!(fixed_stream_plan(3, 5), vec![(4, false), (5, true)]);
    assert!(fixed_stream_plan(9, 5).is_empty());
    let mut store = EventStore::new(10);
    for s in ["a", "b", "c"] {
        store.push("http", "k", s.to_owned());
    }
    let mut cursor = EventCursor::from_header(Some("1"));
    let replay = cursor.replay(&store.list(200, None));
    let summaries: Vec<&str> = replay.iter().map(|e| e.summary.as_str()).collect();
    assert_eq!(summaries, vec!["b", "c"]);
    assert_eq!(cursor.position, 3);
    assert!(!cursor.accept(3));
    assert!(cursor.accept(4));
    assert_eq!(EventCursor::from_header(Some("junk")).position, 0);
}

#[test]
fn control_plane_helpers() {
    assert_eq!(asset_content_type("app.min.js"), "text/javascript; charset=utf-8");
    assert_eq!(asset_content_type("font.woff2"), "font/woff2");
    assert_eq!(asset_content_type("README"), "application/octet-stream");
    assert_eq!(events_limit(None), 100);
    assert_eq!(events_limit(Some(0)), 1);
    assert_eq!(events_limit(Some(500)), 200);
    assert_eq!(host_port("::1", true, 80), "[::1]:80");
    assert_eq!(host_port("127.0.0.1", false, 8080), "127.0.0.1:8080");
    let caps = protocol_capabilities(false, true, false, "tls");
    assert_eq!(caps.len(), 18);
    assert_eq!(caps[8].introspection, Some(false));
    assert_eq!(caps[13].enabled, Some(true));
    assert_eq!(caps[16].enabled, Some(false));
    assert_eq!(caps[16].tls.as_deref(), Some("tls"));
}

#[test]
fn graphql_resolvers() {
    let q = QueryRoot;
    let r = q.echo(Some(EchoInput { message: Some("hi".to_owned()), repeat: Some(3) })).unwrap();
    assert_eq!(r.repeated, vec!["hi #1".to_owned(), "hi #2".to_owned(), "hi #3".to_owned()]);
    let r = q.echo(None).unwrap();
    assert_eq!(r.message, "biubin echo");
    assert_eq!(r.repeated.len(), 1);
    let e = q.echo(Some(EchoInput { message: Some("__resolver_error".to_owned()), repeat: None })).unwrap_err();
    assert_eq!(e.code, "RESOLVER_ERROR");
    let e = q.echo(Some(EchoInput { message: Some("__auth_error".to_owned()), repeat: None })).unwrap_err();
    assert_eq!(e.code, "UNAUTHENTICATED");
    assert_eq!(q.echo(Some(EchoInput { message: None, repeat: Some(1000) })).unwrap().repeated.len(), 100);
    let info = q.server_info(&Config::default(), "0.2.1");
    assert_eq!(info.http_port, 8080);
    let mut store = EventStore::new(10);
    let m = MutationRoot;
    let bad = PublishEventInput { protocol: "  ".to_owned(), summary: "s".to_owned(), require_auth: None, token: None };
    assert_eq!(m.publish_test_event(&mut store, bad).unwrap_err().code, "INVALID_INPUT");
    let locked = PublishEventInput { protocol: "http".to_owned(), summary: "s".to_owned(), require_auth: Some(true), token: None };
    assert_eq!(m.publish_test_event(&mut store, locked).unwrap_err().code, "UNAUTHENTICATED");
    let ok = PublishEventInput {
        protocol: "http".to_owned(),
        summary: "hello".to_owned(),
        require_auth: Some(true),
        token: Some("biubin-dev".to_owned()),
    };
    let event = m.publish_test_event(&mut store, ok).unwrap();
    assert_eq!(event.kind, "test_event");
    assert_eq!(q.recent_events(&store, None, Some("http")).len(), 1);
    let s = SubscriptionRoot;
    assert_eq!(s.tick(2).message, "biubin graphql tick");
    assert_eq!(default_error_code(false), "SYNTAX_ERROR");
}

#[test]
fn mqtt_layout() {
    let mut config = Config::default();
    config.mqtt_enabled = true;
    config.mqtt_tls_enabled = true;
    config.mqtt_tls_mode = "mtls".to_owned();
    let listeners = mqtt_listeners(&config);
    assert_eq!(listeners.len(), 5);
    assert_eq!(listeners[2].transport, MqttTransport::V5);
    assert_eq!(listeners[4].host, "127.0.0.1");
    assert_eq!(tls_required_files(&config).len(), 3);
    config.ports.mqtt_ws = 0;
    config.ports.mqtt_tls_backend = 0;
    assert_eq!(ports_to_allocate(&config), vec![(MqttPort::WebSocket, false), (MqttPort::TlsBackend, true)]);
    set_port(&mut config.ports, MqttPort::WebSocket, 4242);
    assert_eq!(config.ports.mqtt_ws, 4242);
    config.mqtt_enabled = false;
    assert!(ports_to_allocate(&config).is_empty());
}

#[test]
fn event_stream_ids_increase_past_the_cursor() {
    let mut store = EventStore::new(10);
    for s in ["a", "b", "c", "d"] {
        store.push("http", "k", s.to_owned());
    }
    let mut cursor = EventCursor::from_header(Some("2"));
    let mut sent: Vec<u64> = cursor.replay(&store.list(200, None)).iter().map(|e| e.seq).collect();
    assert_eq!(sent, vec![3, 4]);
    for live in [4, 5, 2, 6] {
        if cursor.accept(live) {
            sent.push(live);
        }
    }
    assert_eq!(sent, vec![3, 4, 5, 6]);
    for s in ["e", "f", "g"] {
        store.push("http", "k", s.to_owned());
    }
    sent.extend(cursor.replay(&store.list(200, None)).iter().map(|e| e.seq));
    assert_eq!(sent, vec![3, 4, 5, 6, 7]);
    assert_eq!(cursor.position, 7);
}

#[test]
fn json_body_is_read_node_for_node() {
    let body = parse_structured_body(Some("application/json"), b"{\"z\":[1,2.5,-3,true,null],\"a\":{\"s\":\"t\"}}");
    assert_eq!(
        body.json.unwrap(),
        JsonValue::Object(vec![
            ("a".to_owned(), JsonValue::Object(vec![("s".to_owned(), JsonValue::Str("t".to_owned()))])),
            (
                "z".to_owned(),
                JsonValue::Array(vec![
                    JsonValue::Number("1".to_owned()),
                    JsonValue::Number("2.5".to_owned()),
                    JsonValue::Number("-3".to_owned()),
                    JsonValue::Bool(true),
                    JsonValue::Null,
                ]),
            ),
        ])
    );
}
