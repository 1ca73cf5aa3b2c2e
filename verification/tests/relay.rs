//! The relay.
use axum::http::{HeaderMap, HeaderName, HeaderValue};
use openrok::clock::SECOND;
use openrok::connection::ControlConnection;
use openrok::headers::{
    fits_header_map, forwarded_headers, forwarded_list, headers_to_protocol, host_from_headers,
    read_value, RawHeader, MOST_NAMES, SURE_HEADERS,
};
use openrok::protocol::{
    decode_body, encode_body, ClientRegistered, ControlMessage, CreateTunnelRequest,
    ForwardResponse, Header, Heartbeat, Incoming, RegisterClient, TunnelCreated, TunnelProtocol,
};
use openrok::rate_limiter::CreateRateLimiter;
use openrok::relay::{
    build_proxy_response, created_response, health, reap, reap_at, text_response, wait_response,
    AppState, PublicRequest, Reply, Target, WaitOutcome, BODY_LIMIT,
};
use openrok::tunnel_manager::{CreateTunnelError, TunnelManager};
use openrok::urls::FIRST_REQUEST;
use tokio::sync::mpsc::unbounded_channel;

fn ask(name: &str) -> CreateTunnelRequest {
    CreateTunnelRequest {
        protocol: TunnelProtocol::Http,
        port: 3000,
        subdomain: Some(name.to_string()),
    }
}

fn text(status: u16, body: &str) -> Reply {
    Reply::Text { status, text: body.to_string() }
}

fn header(name: &str, value: &str) -> Header {
    Header { name: name.to_string(), value: value.to_string() }
}

fn response(status: u16, headers: Vec<Header>, body_base64: &str) -> ForwardResponse {
    ForwardResponse {
        request_id: "req_1".to_string(),
        status,
        headers,
        body_base64: body_base64.to_string(),
    }
}

fn claim(created: &TunnelCreated) -> ControlMessage {
    ControlMessage::RegisterClient(RegisterClient {
        tunnel_id: created.tunnel_id.clone(),
        local_addr: created.local_addr.clone(),
        registration_token: created.registration_token.clone(),
    })
}

fn beat(id: &str) -> ControlMessage {
    ControlMessage::Heartbeat(Heartbeat { tunnel_id: id.to_string() })
}

fn get(path: &str) -> PublicRequest {
    PublicRequest { method: "GET".to_string(), path: path.to_string(), query: None }
}

fn demo_target() -> Target {
    Target { host: "demo.openrok.test".to_string(), tunnel_id: "tnl_demo".to_string() }
}

#[test]
fn health_check_returns_ok() {
    let response = health();

    assert_eq!(response, "ok");
}

#[test]
fn creates_tunnel_url_from_request() {
    let mut state = AppState::new("openrok.test", 20);
    let request = CreateTunnelRequest {
        protocol: TunnelProtocol::Http,
        port: 3000,
        subdomain: Some("demo".to_string()),
    };

    let created = state
        .tunnel_manager
        .create_tunnel(request)
        .expect("tunnel should create");

    assert_eq!(created.url, "https://demo.openrok.test");
    assert_eq!(created.tunnel_id, "tnl_demo");
    assert_eq!(created.local_addr, "http://127.0.0.1:3000");
    assert!(!created.registration_token.is_empty());
}

#[test]
fn builds_proxy_response_from_forwarded_response() {
    let response = build_proxy_response(ForwardResponse {
        request_id: "req_1".to_string(),
        status: 201,
        headers: vec![Header {
            name: "content-type".to_string(),
            value: "text/plain".to_string(),
        }],
        body_base64: encode_body(b"created"),
    });

    assert_eq!(
        response,
        Reply::Proxied {
            status: 201,
            headers: vec![header("content-type", "text/plain")],
            body: b"created".to_vec(),
        }
    );
}

#[test]
fn resolves_tunnel_id_from_host_header() {
    let state = AppState::new("openrok.test", 20);
    let mut headers = axum::http::HeaderMap::new();
    headers.insert(
        axum::http::header::HOST,
        "demo.openrok.test".parse().unwrap(),
    );

    let tunnel_id = state
        .tunnel_manager
        .tunnel_id_for_host(&host_from_headers(&headers).unwrap());

    assert_eq!(tunnel_id, Some("tnl_demo".to_string()));
}

#[test]
fn adds_forwarded_headers() {
    let mut headers = axum::http::HeaderMap::new();
    headers.insert(
        axum::http::header::HOST,
        "demo.openrok.test".parse().unwrap(),
    );
    headers.insert("user-agent", "curl/8.0".parse().unwrap());

    let forwarded = forwarded_headers(&headers, "demo.openrok.test");

    assert!(forwarded
        .iter()
        .any(|header| header.name == "x-forwarded-host"));
    assert!(forwarded
        .iter()
        .any(|header| header.name == "x-forwarded-proto"));
    assert!(forwarded.iter().all(|header| header.name != "host"));
}

#[test]
fn rate_limiter_blocks_after_limit() {
    let mut limiter = CreateRateLimiter::new(2, 60 * SECOND);

    assert!(limiter.allow("127.0.0.1"));
    assert!(limiter.allow("127.0.0.1"));
    assert!(!limiter.allow("127.0.0.1"));
}

#[test]
fn rate_limit_is_per_key_and_recovers() {
    let mut limiter = CreateRateLimiter::new(2, 60 * SECOND);
    assert!(limiter.allow_at("a", 0));
    assert!(limiter.allow_at("a", 10 * SECOND));
    assert!(!limiter.allow_at("a", 59 * SECOND));
    assert!(limiter.allow_at("b", 59 * SECOND));
    assert!(!limiter.allow_at("a", 60 * SECOND - 1));
    assert!(limiter.allow_at("a", 60 * SECOND));
    assert!(!limiter.allow_at("a", 69 * SECOND));
    assert!(limiter.allow_at("a", 70 * SECOND));
}

#[test]
fn rate_limit_of_zero_grants_nothing() {
    let mut limiter = CreateRateLimiter::new(0, 60 * SECOND);
    assert!(!limiter.allow_at("a", 0));
    let mut limiter = CreateRateLimiter::new(1, 0);
    assert!(limiter.allow_at("a", 0));
    assert!(limiter.allow_at("a", 0));
}

#[test]
fn no_window_ever_holds_more_grants_than_the_limit() {
    let mut limiter = CreateRateLimiter::new(3, 10);
    let mut grants: Vec<u128> = vec![];
    let mut now: u128 = 0;
    for step in [0, 1, 1, 0, 5, 2, 3, 0, 0, 1, 9, 1, 1, 1, 10, 0, 0, 0, 0, 4, 4, 4] {
        now += step;
        if limiter.allow_at("k", now) {
            grants.push(now);
        }
    }
    for end in 0..=now {
        let held = grants.iter().filter(|t| **t <= end && end - **t < 10).count();
        assert!(held <= 3);
    }
}

#[test]
fn creation_is_answered_by_its_outcome() {
    let mut state = AppState::new("openrok.test", 3);
    match state.create_tunnel("10.0.0.1", ask("demo")) {
        Reply::Created(created) => assert_eq!(created.url, "https://demo.openrok.test"),
        other => panic!("unexpected reply {:?}", other),
    }
    assert_eq!(state.create_tunnel("10.0.0.1", ask("demo")), text(409, "subdomain unavailable"));
    assert_eq!(state.create_tunnel("10.0.0.1", ask("a b")), text(400, "invalid subdomain"));
    assert_eq!(
        state.create_tunnel("10.0.0.1", ask("other")),
        text(429, "tunnel creation rate limit exceeded")
    );
    assert!(matches!(state.create_tunnel("10.0.0.2", ask("other")), Reply::Created(_)));
    assert_eq!(
        created_response(Err(CreateTunnelError::InvalidSubdomain)),
        text(400, "invalid subdomain")
    );
}

#[test]
fn header_values_are_text_exactly_where_the_http_crate_reads_them() {
    for byte in 0..=255_u8 {
        let value = vec![b'a', byte];
        let ours = read_value(&value);
        match HeaderValue::from_bytes(&value) {
            Ok(theirs) => assert_eq!(ours, theirs.to_str().ok().map(|s| s.to_string())),
            Err(_) => assert_eq!(ours, None),
        }
    }
    assert_eq!(read_value(&vec![]), Some(String::new()));
}

#[test]
fn headers_without_text_are_left_out() {
    let raw = vec![
        RawHeader { name: "a".to_string(), value: b"1".to_vec() },
        RawHeader { name: "b".to_string(), value: vec![0xff] },
        RawHeader { name: "connection".to_string(), value: b"close".to_vec() },
        RawHeader { name: "c".to_string(), value: b"\t3".to_vec() },
    ];
    assert_eq!(
        headers_to_protocol(&raw),
        vec![header("a", "1"), header("connection", "close"), header("c", "\t3")]
    );
    assert_eq!(
        forwarded_list(&raw, "demo.openrok.test"),
        vec![
            header("a", "1"),
            header("c", "\t3"),
            header("x-forwarded-host", "demo.openrok.test"),
            header("x-forwarded-proto", "http"),
            header("x-forwarded-for", "127.0.0.1"),
        ]
    );
}

#[test]
fn forwarded_headers_keep_every_value_of_a_name() {
    let mut headers = HeaderMap::new();
    headers.append("accept", HeaderValue::from_static("a"));
    headers.append("host", HeaderValue::from_static("x"));
    headers.append("accept", HeaderValue::from_static("b"));
    headers.append("x-forwarded-host", HeaderValue::from_static("spoof"));
    assert_eq!(
        forwarded_headers(&headers, "h"),
        vec![
            header("accept", "a"),
            header("accept", "b"),
            header("x-forwarded-host", "spoof"),
            header("x-forwarded-host", "h"),
            header("x-forwarded-proto", "http"),
            header("x-forwarded-for", "127.0.0.1"),
        ]
    );
}

#[test]
fn first_host_header_counts() {
    let mut headers = HeaderMap::new();
    assert_eq!(host_from_headers(&headers), None);
    headers.append("accept", HeaderValue::from_static("z"));
    headers.append("host", HeaderValue::from_static("a"));
    headers.append("host", HeaderValue::from_static("b"));
    assert_eq!(host_from_headers(&headers), Some("a".to_string()));
    headers.insert("host", HeaderValue::from_bytes(&[0xe9]).expect("opaque value"));
    assert_eq!(host_from_headers(&headers), None);
}

#[test]
fn target_comes_from_the_preview_path_or_the_header() {
    let state = AppState::new("openrok.test", 20);
    let mut headers = HeaderMap::new();
    let missing = text(400, "missing or invalid host header");
    assert_eq!(state.resolve_target(None, &headers), Err(missing.clone()));
    headers.insert("host", HeaderValue::from_static("Demo.openrok.test:8080"));
    assert_eq!(
        state.resolve_target(None, &headers),
        Ok(Target {
            host: "Demo.openrok.test:8080".to_string(),
            tunnel_id: "tnl_demo".to_string()
        })
    );
    assert_eq!(
        state.resolve_target(Some("other.openrok.test".to_string()), &headers),
        Ok(Target {
            host: "other.openrok.test".to_string(),
            tunnel_id: "tnl_other".to_string()
        })
    );
    assert_eq!(state.resolve_target(Some("example.com".to_string()), &headers), Err(missing));
}

#[test]
fn public_requests_are_forwarded_whole() {
    let mut state = AppState::new("openrok.test", 20);
    let mut counter: u64 = FIRST_REQUEST;
    let created = state.tunnel_manager.create_tunnel(ask("demo")).expect("tunnel should create");
    let (sender, mut from_relay) = unbounded_channel();
    let link = state.tunnel_manager.link(sender);
    let mut connection = ControlConnection::new();
    assert!(connection.handle_message(&mut state.tunnel_manager, &link, claim(&created)));
    assert_eq!(
        from_relay.try_recv(),
        Ok(ControlMessage::ClientRegistered(ClientRegistered {
            tunnel_id: "tnl_demo".to_string()
        }))
    );
    let mut headers = HeaderMap::new();
    headers.insert("host", HeaderValue::from_static("demo.openrok.test"));
    headers.insert("x-test", HeaderValue::from_static("1"));
    let target = state.resolve_target(None, &headers).expect("target");
    let mut waiting = state
        .forward_request(
            &mut counter,
            &target,
            PublicRequest {
                method: "POST".to_string(),
                path: "/users".to_string(),
                query: Some("a=b".to_string()),
            },
            None,
            &headers,
            Some(vec![1, 2, 3]),
        )
        .expect("request should dispatch");
    let forwarded = match from_relay.try_recv() {
        Ok(ControlMessage::ForwardRequest(forwarded)) => forwarded,
        other => panic!("unexpected message {:?}", other),
    };
    assert_eq!(forwarded.tunnel_id, "tnl_demo");
    assert_eq!(forwarded.request_id, "req_1");
    assert_eq!(forwarded.method, "POST");
    assert_eq!(forwarded.path, "/users");
    assert_eq!(forwarded.query, Some("a=b".to_string()));
    assert_eq!(decode_body(&forwarded.body_base64), Ok(vec![1, 2, 3]));
    assert_eq!(forwarded.headers[0], header("x-test", "1"));
    assert_eq!(forwarded.headers[1], header("x-forwarded-host", "demo.openrok.test"));
    let answer = response(200, vec![], &encode_body(b"hi"));
    assert!(connection.handle_message(
        &mut state.tunnel_manager,
        &link,
        ControlMessage::ForwardResponse(answer)
    ));
    let answered = waiting.try_recv().expect("response should resolve");
    assert_eq!(
        wait_response(WaitOutcome::Answered(answered)),
        Reply::Proxied { status: 200, headers: vec![], body: b"hi".to_vec() }
    );
}

#[test]
fn preview_path_overrides_the_request_path() {
    let mut state = AppState::new("openrok.test", 20);
    let mut counter: u64 = FIRST_REQUEST;
    let created = state.tunnel_manager.create_tunnel(ask("demo")).expect("tunnel should create");
    let (sender, mut from_relay) = unbounded_channel();
    let link = state.tunnel_manager.link(sender);
    let mut connection = ControlConnection::new();
    connection.handle_message(&mut state.tunnel_manager, &link, claim(&created));
    let _confirmation = from_relay.try_recv();
    let _waiting = state
        .forward_request(
            &mut counter,
            &demo_target(),
            get("/_openrok/demo.openrok.test/a"),
            Some("/a".to_string()),
            &HeaderMap::new(),
            Some(vec![]),
        )
        .expect("request should dispatch");
    match from_relay.try_recv() {
        Ok(ControlMessage::ForwardRequest(forwarded)) => assert_eq!(forwarded.path, "/a"),
        other => panic!("unexpected message {:?}", other),
    }
}

#[test]
fn unreadable_bodies_and_missing_clients_are_refused() {
    let mut state = AppState::new("openrok.test", 20);
    let mut counter: u64 = FIRST_REQUEST;
    let headers = HeaderMap::new();
    let refused = state.forward_request(&mut counter, &demo_target(), get("/"), None, &headers, None);
    assert_eq!(refused.err(), Some(text(400, "failed to read request body")));
    let long = vec![0; BODY_LIMIT + 1];
    let refused = state.forward_request(&mut counter, &demo_target(), get("/"), None, &headers, Some(long));
    assert_eq!(refused.err(), Some(text(400, "failed to read request body")));
    assert_eq!(counter, 1);
    let full = vec![0; BODY_LIMIT];
    let refused = state.forward_request(&mut counter, &demo_target(), get("/"), None, &headers, Some(full));
    assert_eq!(refused.err(), Some(text(404, "no active tunnel session found")));
    assert_eq!(counter, 2);
}

#[test]
fn answers_that_http_refuses_are_replaced() {
    for status in [0, 99, 1000, u16::MAX] {
        assert_eq!(
            build_proxy_response(response(status, vec![], "")),
            text(502, "invalid client response")
        );
    }
    for status in [100, 200, 999] {
        assert_eq!(
            build_proxy_response(response(status, vec![], "")),
            Reply::Proxied { status, headers: vec![], body: vec![] }
        );
    }
}

#[test]
fn undecodable_answer_bodies_count_as_empty() {
    assert_eq!(
        build_proxy_response(response(200, vec![], "***")),
        Reply::Proxied { status: 200, headers: vec![], body: vec![] }
    );
}

#[test]
fn only_valid_answer_headers_are_handed_on() {
    let headers = vec![
        header("Content-Type", "text/plain"),
        header("bad name", "x"),
        header("", "x"),
        header("x-bad-value", "a\nb"),
        header("x-tab", "a\tb"),
        header("x-accent", "\u{e9}"),
    ];
    assert_eq!(
        build_proxy_response(response(200, headers, "")),
        Reply::Proxied {
            status: 200,
            headers: vec![
                header("content-type", "text/plain"),
                header("x-tab", "a\tb"),
                header("x-accent", "\u{e9}"),
            ],
            body: vec![],
        }
    );
}

#[test]
fn answer_headers_are_judged_as_the_http_crate_judges_them() {
    for code in 0..=0x2ff_u32 {
        let c = char::from_u32(code).expect("no surrogate");
        let name = format!("X{}", c);
        let value = format!("v{}", c);
        let kept = match build_proxy_response(response(200, vec![header(&name, "v")], "")) {
            Reply::Proxied { headers, .. } => headers,
            other => panic!("unexpected reply {:?}", other),
        };
        let expected: Vec<Header> = HeaderName::from_bytes(name.as_bytes())
            .iter()
            .map(|parsed| header(parsed.as_str(), "v"))
            .collect();
        assert_eq!(kept, expected);
        let kept = match build_proxy_response(response(200, vec![header("x", &value)], "")) {
            Reply::Proxied { headers, .. } => headers.len(),
            other => panic!("unexpected reply {:?}", other),
        };
        assert_eq!(kept == 1, HeaderValue::from_str(&value).is_ok());
    }
    for len in [65535, 65536] {
        let name = "a".repeat(len);
        let kept = match build_proxy_response(response(200, vec![header(&name, "v")], "")) {
            Reply::Proxied { headers, .. } => headers.len(),
            other => panic!("unexpected reply {:?}", other),
        };
        assert_eq!(kept == 1, HeaderName::from_bytes(name.as_bytes()).is_ok());
        assert_eq!(kept == 1, len == 65535);
    }
}

#[test]
fn waits_that_end_without_an_answer_have_their_replies() {
    assert_eq!(wait_response(WaitOutcome::TimedOut), text(504, "tunnel request timed out"));
    assert_eq!(wait_response(WaitOutcome::Disconnected), text(502, "client disconnected"));
    assert_eq!(text_response(418, "teapot"), text(418, "teapot"));
}

#[test]
fn refused_claim_ends_the_connection() {
    let mut manager = TunnelManager::new("openrok.test");
    let mut created = manager.create_tunnel(ask("demo")).expect("tunnel should create");
    created.registration_token = "wrong".to_string();
    let (sender, mut from_relay) = unbounded_channel();
    let link = manager.link(sender);
    let mut connection = ControlConnection::new();
    assert!(!connection.handle_message(&mut manager, &link, claim(&created)));
    assert_eq!(connection.registered_tunnel_id, None);
    assert!(from_relay.try_recv().is_err());
    connection.close(&mut manager);
    assert_eq!(manager.session_count(), 0);
}

#[test]
fn lost_connection_frees_the_tunnel() {
    let mut manager = TunnelManager::new("openrok.test");
    let created = manager.create_tunnel(ask("demo")).expect("tunnel should create");
    let (sender, _from_relay) = unbounded_channel();
    let link = manager.link(sender);
    let mut connection = ControlConnection::new();
    assert!(connection.handle_message(&mut manager, &link, claim(&created)));
    assert_eq!(connection.registered_tunnel_id, Some("tnl_demo".to_string()));
    assert_eq!(manager.session_count(), 1);
    connection.close(&mut manager);
    assert_eq!(manager.session_count(), 0);
    assert!(manager.create_tunnel(ask("demo")).is_ok());
}

#[test]
fn heartbeats_of_live_tunnels_are_returned() {
    let mut manager = TunnelManager::new("openrok.test");
    let created = manager.create_tunnel(ask("demo")).expect("tunnel should create");
    let (sender, mut from_relay) = unbounded_channel();
    let link = manager.link(sender);
    let mut connection = ControlConnection::new();
    assert!(connection.handle_message(&mut manager, &link, beat("tnl_demo")));
    assert!(from_relay.try_recv().is_err());
    assert!(connection.handle_message(&mut manager, &link, claim(&created)));
    let _confirmation = from_relay.try_recv();
    assert!(connection.handle_message(&mut manager, &link, beat("tnl_demo")));
    assert_eq!(from_relay.try_recv(), Ok(beat("tnl_demo")));
}

#[test]
fn other_messages_are_passed_over() {
    let mut manager = TunnelManager::new("openrok.test");
    let (sender, mut from_relay) = unbounded_channel();
    let link = manager.link(sender);
    let mut connection = ControlConnection::new();
    assert!(connection.handle_message(
        &mut manager,
        &link,
        ControlMessage::CreateTunnel(ask("demo"))
    ));
    assert!(connection.handle_message(
        &mut manager,
        &link,
        ControlMessage::ForwardResponse(response(200, vec![], ""))
    ));
    assert!(from_relay.try_recv().is_err());
    assert!(!manager.host_in_use("demo.openrok.test"));
}

#[test]
fn reaper_drops_silent_clients_and_stale_reservations() {
    let mut manager = TunnelManager::new("openrok.test");
    let created = manager
        .reserve_at("demo", 3000, "token".to_string(), 0)
        .expect("tunnel should create");
    let (sender, _from_relay) = unbounded_channel();
    let link = manager.link(sender);
    let mut connection = ControlConnection::new();
    assert!(connection.handle_message_at(&mut manager, &link, claim(&created), 10 * SECOND));
    manager
        .reserve_at("late", 3000, "token".to_string(), 40 * SECOND)
        .expect("tunnel should create");
    reap_at(&mut manager, 100 * SECOND);
    assert_eq!(manager.session_count(), 1);
    assert!(!manager.host_in_use("late.openrok.test"));
    reap_at(&mut manager, 100 * SECOND + 1);
    assert_eq!(manager.session_count(), 0);
    let _created = manager.create_tunnel(ask("fresh")).expect("tunnel should create");
    reap(&mut manager);
    assert!(manager.host_in_use("fresh.openrok.test"));
}

#[test]
fn answers_with_too_many_header_names_are_replaced() {
    let many: Vec<Header> = (0..MOST_NAMES).map(|n| header(&format!("x-{}", n), "v")).collect();
    assert!(fits_header_map(&many));
    assert!(matches!(
        build_proxy_response(response(200, many.clone(), "")),
        Reply::Proxied { .. }
    ));
    let mut more = many.clone();
    more.push(header("x-more", "v"));
    assert!(!fits_header_map(&more));
    assert_eq!(
        build_proxy_response(response(200, more, "")),
        text(502, "invalid client response")
    );
    let mut again = many;
    again.push(header("x-0", "v"));
    assert_eq!(
        build_proxy_response(response(200, again, "")),
        text(502, "invalid client response")
    );
    let same: Vec<Header> = (0..2 * SURE_HEADERS).map(|_| header("x", "v")).collect();
    assert!(fits_header_map(&same));
}

#[test]
fn header_map_is_filled_as_the_response_builder_fills_it() {
    for names in [0, 1, SURE_HEADERS, MOST_NAMES - 1, MOST_NAMES, MOST_NAMES + 1] {
        let headers: Vec<Header> = (0..names).map(|n| header(&format!("n{}", n), "v")).collect();
        let mut builder = axum::http::Response::builder();
        for header in &headers {
            builder = builder.header(header.name.as_str(), header.value.as_str());
        }
        assert_eq!(fits_header_map(&headers), builder.body(()).is_ok());
    }
}

#[test]
fn frames_that_are_no_control_messages_are_passed_over() {
    let mut manager = TunnelManager::new("openrok.test");
    let created = manager.create_tunnel(ask("demo")).expect("tunnel should create");
    let (sender, mut from_relay) = unbounded_channel();
    let link = manager.link(sender);
    let mut connection = ControlConnection::new();
    assert!(connection.handle_frame(&mut manager, &link, Incoming::OtherFrame));
    assert!(connection.handle_frame(&mut manager, &link, Incoming::Undecodable));
    assert!(from_relay.try_recv().is_err());
    assert!(connection.handle_frame(&mut manager, &link, Incoming::Control(claim(&created))));
    assert!(from_relay.try_recv().is_ok());
    assert!(!connection.handle_frame(&mut manager, &link, Incoming::Closed));
    assert!(!connection.handle_frame(&mut manager, &link, Incoming::Control(beat("tnl_demo"))));
    assert!(from_relay.try_recv().is_err());
    connection.close(&mut manager);
    assert_eq!(manager.session_count(), 0);
}

#[test]
fn refused_claim_evicts_nobody_and_ends_the_connection() {
    let mut manager = TunnelManager::new("openrok.test");
    let created = manager.create_tunnel(ask("demo")).expect("tunnel should create");
    let (sender, _from_relay) = unbounded_channel();
    let link = manager.link(sender);
    let mut holder = ControlConnection::new();
    assert!(holder.handle_message(&mut manager, &link, claim(&created)));
    let mut wrong = created.clone();
    wrong.registration_token = "wrong-token".to_string();
    let (other_sender, mut to_other) = unbounded_channel();
    let other_link = manager.link(other_sender);
    let mut other = ControlConnection::new();
    assert!(!other.handle_message(&mut manager, &other_link, claim(&wrong)));
    assert!(!other.handle_message(&mut manager, &other_link, beat("tnl_demo")));
    other.close(&mut manager);
    assert!(to_other.try_recv().is_err());
    assert_eq!(manager.session_count(), 1);
    assert_eq!(
        manager.client_addr("tnl_demo"),
        Some("http://127.0.0.1:3000".to_string())
    );
}

#[test]
fn connection_holds_its_tunnel_through_other_messages() {
    let mut manager = TunnelManager::new("openrok.test");
    let created = manager.create_tunnel(ask("demo")).expect("tunnel should create");
    let (sender, mut from_relay) = unbounded_channel();
    let link = manager.link(sender);
    let mut connection = ControlConnection::new();
    let frames = vec![
        Incoming::Control(beat("tnl_demo")),
        Incoming::OtherFrame,
        Incoming::Control(claim(&created)),
        Incoming::Control(ControlMessage::ForwardResponse(response(200, vec![], ""))),
        Incoming::Control(beat("tnl_demo")),
        Incoming::Undecodable,
    ];
    for frame in frames {
        assert!(connection.handle_frame(&mut manager, &link, frame));
    }
    assert_eq!(manager.session_count(), 1);
    assert_eq!(
        from_relay.try_recv(),
        Ok(ControlMessage::ClientRegistered(ClientRegistered {
            tunnel_id: "tnl_demo".to_string()
        }))
    );
    assert_eq!(from_relay.try_recv(), Ok(beat("tnl_demo")));
    assert!(from_relay.try_recv().is_err());
    connection.close(&mut manager);
    assert_eq!(manager.client_addr("tnl_demo"), None);
    assert_eq!(manager.session_count(), 0);
    assert!(manager.create_tunnel(ask("demo")).is_ok());
}

#[test]
fn relays_in_one_process_share_their_request_ids() {
    let mut counter: u64 = FIRST_REQUEST;
    let mut ids: Vec<String> = vec![];
    for domain in ["one.test", "two.test"] {
        let mut state = AppState::new(domain, 20);
        let created = state.tunnel_manager.create_tunnel(ask("demo")).expect("tunnel should create");
        let (sender, mut from_relay) = unbounded_channel();
        let link = state.tunnel_manager.link(sender);
        let mut connection = ControlConnection::new();
        assert!(connection.handle_message(&mut state.tunnel_manager, &link, claim(&created)));
        let _confirmation = from_relay.try_recv();
        let _waiting = state
            .forward_request(
                &mut counter,
                &demo_target(),
                get("/"),
                None,
                &HeaderMap::new(),
                Some(vec![]),
            )
            .expect("request should dispatch");
        match from_relay.try_recv() {
            Ok(ControlMessage::ForwardRequest(forwarded)) => ids.push(forwarded.request_id),
            other => panic!("unexpected message {:?}", other),
        }
    }
    assert_eq!(ids, vec!["req_1", "req_2"]);
}
