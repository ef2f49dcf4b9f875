use conn_dispatch::classify::{
    alpn_offer, classify, h2c_decide, terminal_mode, H2cDecision, Mode, ProtocolPath,
};
use conn_dispatch::headers::{
    duplex_eligible, eq_ignore_ascii_case, find_header, h2c_eligible, str_eq, Header, Request,
};
use conn_dispatch::routes::{
    available, duplex_frame_action, duplex_refusal_body, endpoint_of, starts_with, DuplexAction,
    Endpoint, WsFrameType,
};
use conn_dispatch::session::{Phase, Session};

fn request(path: &str, headers: &[(&str, &[&str])]) -> Request {
    Request {
        path: path.to_string(),
        headers: headers
            .iter()
            .map(|(n, vs)| Header {
                name: n.to_string(),
                values: vs.iter().map(|v| v.to_string()).collect(),
            })
            .collect(),
    }
}

#[test]
fn string_helpers_compare_as_specified() {
    assert!(str_eq("h2c", "h2c"));
    assert!(!str_eq("h2c", "H2C"));
    assert!(!str_eq("h2", "h2c"));
    assert!(eq_ignore_ascii_case("H2C", "h2c"));
    assert!(eq_ignore_ascii_case("Upgrade", "upgrade"));
    assert!(!eq_ignore_ascii_case("h2", "h2c"));
    assert!(starts_with("/websocket/echo/x", "/websocket/echo"));
    assert!(!starts_with("/websocket", "/websocket/echo"));
}

#[test]
fn alpn_h2_goes_straight_to_the_multiplexer() {
    // TLS handshake done, ALPN negotiated "h2": HTTP/2 directly, and the
    // session sends SETTINGS before dispatching anything.
    let p = classify(true, Some("h2"), true);
    assert_eq!(p, ProtocolPath::Http2Direct);
    let mut s = Session::new();
    s.complete_init(16777215);
    assert!(s.settings_sent);
    assert!(s.dispatched.is_empty());
    let d = s.dispatch_batch(&vec![1]);
    assert_eq!(d, vec![1]);
}

#[test]
fn alpn_http11_reads_one_request() {
    assert_eq!(classify(true, Some("http/1.1"), true), ProtocolPath::Http1Single);
}

#[test]
fn unknown_or_missing_alpn_falls_through_to_the_probe() {
    assert_eq!(classify(true, Some("spdy/3"), true), ProtocolPath::H2cProbe);
    assert_eq!(classify(true, None, true), ProtocolPath::H2cProbe);
}

#[test]
fn plain_connections_are_probed_when_h2_is_enabled() {
    assert_eq!(classify(false, None, true), ProtocolPath::H2cProbe);
    assert_eq!(classify(false, None, false), ProtocolPath::Http1Single);
}

#[test]
fn every_pathway_ends_in_exactly_one_mode() {
    let req = request("/", &[]);
    for (tls, alpn, h2) in [
        (true, Some("h2"), true),
        (true, Some("http/1.1"), true),
        (true, None, true),
        (false, None, true),
        (false, None, false),
    ] {
        let p = classify(tls, alpn, h2);
        let m = terminal_mode(p, true, &req);
        assert!(matches!(m, Mode::Http1) != matches!(m, Mode::Http2));
    }
}

#[test]
fn alpn_offer_follows_the_flags() {
    assert_eq!(alpn_offer(false, false), vec![b"http/1.1".to_vec()]);
    assert_eq!(alpn_offer(false, true), vec![b"http/1.1".to_vec()]);
    assert_eq!(alpn_offer(true, false), vec![b"http/1.1".to_vec(), b"h2".to_vec()]);
    assert_eq!(
        alpn_offer(true, true),
        vec![b"h2".to_vec(), b"http/1.1".to_vec(), b"h2".to_vec()]
    );
}

#[test]
fn h2c_upgrade_is_detected_case_insensitively() {
    let req = request("/", &[("Upgrade", &["h2c"])]);
    assert!(h2c_eligible(&req));
    let req = request("/", &[("UPGRADE", &["H2C"])]);
    assert!(h2c_eligible(&req));
    let req = request("/", &[("upgrade", &["h2C"])]);
    assert!(h2c_eligible(&req));
}

#[test]
fn h2c_needs_the_upgrade_header() {
    let none = request("/", &[("host", &["example"])]);
    assert!(!h2c_eligible(&none));
    let other = request("/", &[("upgrade", &["websocket"])]);
    assert!(!h2c_eligible(&other));
    let empty = request("/", &[("upgrade", &[])]);
    assert!(!h2c_eligible(&empty));
}

#[test]
fn only_the_first_upgrade_header_counts() {
    let req = request("/", &[("upgrade", &["websocket"]), ("upgrade", &["h2c"])]);
    assert!(!h2c_eligible(&req));
    let req = request("/", &[("upgrade", &["h2c", "websocket"])]);
    assert!(h2c_eligible(&req));
}

#[test]
fn find_header_picks_the_first_case_insensitive_match() {
    let req = request("/", &[("Host", &["a"]), ("UPGRADE", &["h2c"]), ("upgrade", &["x"])]);
    assert_eq!(find_header(&req, "upgrade"), Some(1));
    assert_eq!(find_header(&req, "absent"), None);
}

#[test]
fn eligible_probe_promotes_and_keeps_the_request() {
    let req = request("/websocket/broadcast", &[("Upgrade", &["h2c"])]);
    let path = req.path.clone();
    let (d, back) = h2c_decide(true, req);
    assert_eq!(d, H2cDecision::Promote);
    assert_eq!(back.path, path);
    // The promoted session services that request as stream 1.
    let (s, first) = Session::start_h2c();
    assert_eq!(first, 1);
    assert_eq!(s.dispatched, vec![1]);
    assert!(matches!(s.phase, Phase::Running));
}

#[test]
fn ineligible_probe_serves_the_read_request_as_http1() {
    let req = request("/index.html", &[("host", &["example"])]);
    let (d, back) = h2c_decide(true, req);
    assert_eq!(d, H2cDecision::ServeHttp1);
    assert_eq!(back.path, "/index.html");
    assert_eq!(back.headers.len(), 1);
}

#[test]
fn failed_probe_read_falls_back_to_http1() {
    let req = request("/", &[("upgrade", &["h2c"])]);
    let (d, _back) = h2c_decide(false, req);
    assert_eq!(d, H2cDecision::ServeHttp1);
}

#[test]
fn available_matches_by_prefix() {
    assert_eq!(available("/internal/example"), Some("example"));
    assert_eq!(available("/internal/example/deep"), Some("example"));
    assert_eq!(available("/websocket/echo"), Some("ws-echo"));
    assert_eq!(available("/websocket/broadcast"), Some("ws-broadcast"));
    assert_eq!(available("/websocket/broadcast?room=1"), Some("ws-broadcast"));
    assert_eq!(available("/websocket"), None);
    assert_eq!(available("/static/file.html"), None);
    assert_eq!(available(""), None);
}

#[test]
fn endpoint_of_resolves_registered_names_only() {
    assert_eq!(endpoint_of("example"), Some(Endpoint::Example));
    assert_eq!(endpoint_of("ws-echo"), Some(Endpoint::WsEcho));
    assert_eq!(endpoint_of("ws-broadcast"), Some(Endpoint::WsBroadcast));
    assert_eq!(endpoint_of("missing"), None);
    assert_eq!(endpoint_of(""), None);
}

#[test]
fn upgraded_request_routes_to_broadcast_but_stays_plain() {
    // Plaintext GET /websocket/broadcast with Upgrade: h2c: promoted to
    // HTTP/2 and routed to the broadcast middleware as stream 1; without
    // an Upgrade: websocket header the middleware refuses duplex mode and
    // closes with the literal body "websocket".
    let req = request("/websocket/broadcast", &[("Upgrade", &["h2c"])]);
    let (d, req) = h2c_decide(true, req);
    assert_eq!(d, H2cDecision::Promote);
    let (s, first) = Session::start_h2c();
    assert_eq!(first, 1);
    assert_eq!(s.dispatched, vec![1]);
    assert_eq!(available(&req.path), Some("ws-broadcast"));
    assert_eq!(endpoint_of("ws-broadcast"), Some(Endpoint::WsBroadcast));
    assert!(!duplex_eligible(&req));
    assert_eq!(duplex_refusal_body(), b"websocket".to_vec());
}

#[test]
fn duplex_upgrade_needs_the_exact_websocket_token() {
    let yes = request("/websocket/echo", &[("Upgrade", &["websocket"])]);
    assert!(duplex_eligible(&yes));
    let wrong_case = request("/websocket/echo", &[("Upgrade", &["WebSocket"])]);
    assert!(!duplex_eligible(&wrong_case));
    let missing = request("/websocket/echo", &[]);
    assert!(!duplex_eligible(&missing));
}

#[test]
fn duplex_frames_are_answered_as_specified() {
    assert_eq!(duplex_frame_action(WsFrameType::Ping), DuplexAction::SendPong);
    assert_eq!(duplex_frame_action(WsFrameType::Text), DuplexAction::Deliver);
    assert_eq!(duplex_frame_action(WsFrameType::Binary), DuplexAction::Deliver);
    assert_eq!(duplex_frame_action(WsFrameType::Pong), DuplexAction::Ignore);
    assert_eq!(duplex_frame_action(WsFrameType::Close), DuplexAction::Ignore);
    assert_eq!(duplex_frame_action(WsFrameType::Continuation), DuplexAction::Ignore);
}
