use connect_proxy::{
    bad_target_response, dial_failed_response, is_connect, opposite, resolve_target, tunnel_established_response,
    upstream_failed_response, Action, Connection, Phase, ProxyError, Side, Splice, SpliceAction,
    STATUS_BAD_GATEWAY, STATUS_BAD_REQUEST, STATUS_OK,
};

fn tunnel_of(authority: &str) -> Connection {
    let mut c = Connection::new();
    let a = c.on_request(b"CONNECT", authority.as_bytes());
    assert!(matches!(a, Action::Dial(_)));
    let a = c.on_dialled(true);
    assert!(matches!(a, Action::RespondAndUpgrade(_)));
    let a = c.on_upgraded(true);
    assert!(matches!(a, Action::Splice));
    c
}

fn written(a: SpliceAction) -> (Side, Vec<u8>) {
    match a {
        SpliceAction::Write { to, data } => (to, data),
        _ => panic!("expected a write"),
    }
}

#[test]
fn target_with_host_and_port() {
    let t = resolve_target(b"example.com:443").ok().unwrap();
    assert_eq!(t.host, b"example.com".to_vec());
    assert_eq!(t.port, 443);
}

#[test]
fn target_bracketed_ipv6() {
    let t = resolve_target(b"[::1]:8080").ok().unwrap();
    assert_eq!(t.host, b"[::1]".to_vec());
    assert_eq!(t.port, 8080);
}

#[test]
fn target_port_bounds() {
    assert_eq!(resolve_target(b"h:65535").ok().unwrap().port, 65535);
    assert_eq!(resolve_target(b"h:0080").ok().unwrap().port, 80);
    assert_eq!(resolve_target(b"h:65536").err(), Some(ProxyError::InvalidTarget));
    assert_eq!(resolve_target(b"h:99999999999").err(), Some(ProxyError::InvalidTarget));
}

#[test]
fn target_without_port_is_refused() {
    assert_eq!(resolve_target(b"example.com").err(), Some(ProxyError::InvalidTarget));
    assert_eq!(resolve_target(b"example.com:").err(), Some(ProxyError::InvalidTarget));
    assert_eq!(resolve_target(b"[::1]").err(), Some(ProxyError::InvalidTarget));
    assert_eq!(resolve_target(b"").err(), Some(ProxyError::InvalidTarget));
}

#[test]
fn target_malformed_is_refused() {
    assert_eq!(resolve_target(b":80").err(), Some(ProxyError::InvalidTarget));
    assert_eq!(resolve_target(b"h:8a").err(), Some(ProxyError::InvalidTarget));
    assert_eq!(resolve_target(b"h:-1").err(), Some(ProxyError::InvalidTarget));
}

#[test]
fn connect_method_is_case_sensitive() {
    assert!(is_connect(b"CONNECT"));
    assert!(!is_connect(b"connect"));
    assert!(!is_connect(b"GET"));
    assert!(!is_connect(b"CONNECTX"));
    assert!(!is_connect(b""));
}

#[test]
fn synthetic_responses() {
    let r = bad_target_response();
    assert_eq!(r.status, 400);
    assert_eq!(r.body, "CONNECT must be to a socket address");
    let r = tunnel_established_response();
    assert_eq!(r.status, 200);
    assert!(r.body.is_empty());
    let r = dial_failed_response();
    assert_eq!(r.status, 502);
    assert_eq!(r.body, "CONNECT target could not be reached");
    let r = upstream_failed_response();
    assert_eq!(r.status, 502);
    assert_eq!(r.body, "upstream request failed");
}

#[test]
fn other_methods_are_forwarded() {
    let mut c = Connection::new();
    let a = c.on_request(b"GET", b"example.com");
    assert!(matches!(a, Action::Forward));
    assert!(matches!(c.phase, Phase::Forwarding));
    let a = c.on_forwarded(true);
    assert!(matches!(a, Action::Relay));
    assert!(matches!(c.phase, Phase::AwaitingRequest));
}

#[test]
fn unreachable_origin_gives_bad_gateway() {
    let mut c = Connection::new();
    c.on_request(b"POST", b"");
    match c.on_forwarded(false) {
        Action::Respond(r) => {
            assert_eq!(r.status, STATUS_BAD_GATEWAY);
            assert_eq!(r.body, "upstream request failed");
        }
        _ => panic!("expected a response"),
    }
    assert!(matches!(c.phase, Phase::AwaitingRequest));
}

#[test]
fn connect_without_port_is_bad_request_and_not_dialled() {
    let mut c = Connection::new();
    match c.on_request(b"CONNECT", b"example.com") {
        Action::Respond(r) => {
            assert_eq!(r.status, STATUS_BAD_REQUEST);
            assert_eq!(r.body, "CONNECT must be to a socket address");
        }
        _ => panic!("expected a 400 response"),
    }
    assert!(matches!(c.phase, Phase::AwaitingRequest));
}

#[test]
fn connect_is_accepted_with_empty_success() {
    let mut c = Connection::new();
    match c.on_request(b"CONNECT", b"example.com:443") {
        Action::Dial(t) => {
            assert_eq!(t.host, b"example.com".to_vec());
            assert_eq!(t.port, 443);
        }
        _ => panic!("expected the target to be dialled first"),
    }
    assert!(matches!(c.phase, Phase::Dialing));
    match c.on_dialled(true) {
        Action::RespondAndUpgrade(r) => {
            assert_eq!(r.status, STATUS_OK);
            assert!(r.body.is_empty());
        }
        _ => panic!("expected the tunnel to be accepted"),
    }
    assert!(matches!(c.phase, Phase::Upgrading));
    assert!(matches!(c.on_upgraded(true), Action::Splice));
    match &c.phase {
        Phase::Tunneling(s) => {
            assert_eq!(s.from_client, 0);
            assert_eq!(s.from_server, 0);
            assert!(s.open);
        }
        _ => panic!("expected the tunnel to be open"),
    }
}

#[test]
fn failed_upgrade_drops_the_connection() {
    let mut c = Connection::new();
    c.on_request(b"CONNECT", b"example.com:443");
    c.on_dialled(true);
    assert!(matches!(c.on_upgraded(false), Action::Abort(ProxyError::UpgradeError)));
    assert!(matches!(c.phase, Phase::Closed));
}

#[test]
fn refused_dial_gets_no_success_answer() {
    let mut c = Connection::new();
    assert!(matches!(c.on_request(b"CONNECT", b"127.0.0.1:1"), Action::Dial(_)));
    match c.on_dialled(false) {
        Action::RespondAndClose(r) => {
            assert_eq!(r.status, STATUS_BAD_GATEWAY);
            assert_eq!(r.body, "CONNECT target could not be reached");
        }
        _ => panic!("expected a 502 and a close"),
    }
    assert!(matches!(c.phase, Phase::Closed));
}

#[test]
fn counting_limit_of_an_open_tunnel() {
    let c = Connection::new();
    assert!(!c.can_count(Side::Client, 1));
    let mut c = tunnel_of("echo.test:7");
    assert!(c.can_count(Side::Client, 1));
    assert!(c.can_count(Side::Server, usize::MAX));
    c.on_tunnel_event(Side::Client, Some(b"xy".to_vec()));
    match &c.phase {
        Phase::Tunneling(s) => assert_eq!(s.from_client, 2),
        _ => panic!("expected the tunnel to be open"),
    }
    c.on_tunnel_event(Side::Client, None);
    assert!(!c.can_count(Side::Client, 0));
}

#[test]
fn long_stream_is_relayed_in_order() {
    let mut c = tunnel_of("echo.test:7");
    let mut sent = Vec::new();
    let mut received = Vec::new();
    for i in 0..64u32 {
        let chunk: Vec<u8> = (0..(i % 7 + 1)).map(|k| (i * 7 + k) as u8).collect();
        sent.extend(chunk.iter().copied());
        let (to, data) = written(c.on_tunnel_event(Side::Client, Some(chunk)));
        assert_eq!(to, Side::Server);
        received.extend(data);
    }
    assert_eq!(received, sent);
    match c.on_tunnel_event(Side::Client, Some(Vec::new())) {
        SpliceAction::TearDown { from_client, from_server } => {
            assert_eq!(from_client, sent.len() as u64);
            assert_eq!(from_server, 0);
        }
        _ => panic!("expected a teardown"),
    }
}

#[test]
fn tunnel_relays_bytes_unchanged_both_ways() {
    let mut c = tunnel_of("echo.test:7");
    let (to, data) = written(c.on_tunnel_event(Side::Client, Some(b"hello".to_vec())));
    assert_eq!(to, Side::Server);
    assert_eq!(data, b"hello".to_vec());
    let (to, data) = written(c.on_tunnel_event(Side::Server, Some(vec![0, 255, 10])));
    assert_eq!(to, Side::Client);
    assert_eq!(data, vec![0, 255, 10]);
    match &c.phase {
        Phase::Tunneling(s) => {
            assert_eq!(s.from_client, 5);
            assert_eq!(s.from_server, 3);
            assert!(s.open);
        }
        _ => panic!("expected the tunnel to be open"),
    }
}

#[test]
fn client_close_tears_down_both_sides() {
    let mut c = tunnel_of("echo.test:7");
    c.on_tunnel_event(Side::Client, Some(b"abc".to_vec()));
    c.on_tunnel_event(Side::Server, Some(b"abcd".to_vec()));
    match c.on_tunnel_event(Side::Client, Some(Vec::new())) {
        SpliceAction::TearDown { from_client, from_server } => {
            assert_eq!(from_client, 3);
            assert_eq!(from_server, 4);
        }
        _ => panic!("expected a teardown"),
    }
    assert!(matches!(c.phase, Phase::Closed));
}

#[test]
fn server_failure_tears_down_both_sides() {
    let mut c = tunnel_of("echo.test:7");
    c.on_tunnel_event(Side::Client, Some(b"ab".to_vec()));
    match c.on_tunnel_event(Side::Server, None) {
        SpliceAction::TearDown { from_client, from_server } => {
            assert_eq!(from_client, 2);
            assert_eq!(from_server, 0);
        }
        _ => panic!("expected a teardown"),
    }
    assert!(matches!(c.phase, Phase::Closed));
}

#[test]
fn closed_session_writes_nothing() {
    let mut s = Splice::new();
    assert!(matches!(s.on_read(Side::Server, Vec::new()), SpliceAction::TearDown { .. }));
    assert!(!s.open);
    assert!(matches!(s.on_read(Side::Client, b"late".to_vec()), SpliceAction::Idle));
    assert!(matches!(s.on_failure(Side::Client), SpliceAction::Idle));
    assert_eq!(s.from_client, 0);
}

#[test]
fn concurrent_sessions_do_not_mix() {
    let mut a = Splice::new();
    let mut b = Splice::new();
    let mut to_server_a = Vec::new();
    let mut to_server_b = Vec::new();
    for i in 0..4u8 {
        let (_, d) = written(a.on_read(Side::Client, vec![b'a', i]));
        to_server_a.extend(d);
        let (_, d) = written(b.on_read(Side::Client, vec![b'b', i]));
        to_server_b.extend(d);
    }
    assert_eq!(to_server_a, vec![b'a', 0, b'a', 1, b'a', 2, b'a', 3]);
    assert_eq!(to_server_b, vec![b'b', 0, b'b', 1, b'b', 2, b'b', 3]);
    assert_eq!(a.from_client, 8);
    assert_eq!(b.from_client, 8);
}

#[test]
fn opposite_sides() {
    assert_eq!(opposite(Side::Client), Side::Server);
    assert_eq!(opposite(Side::Server), Side::Client);
}
