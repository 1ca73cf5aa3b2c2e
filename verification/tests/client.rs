//! The client.
use axum::http::{HeaderMap, HeaderValue};
use openrok::client::{
    banner_lines, claim_message, creation_request, ensure_registered, failed_answer, local_answer,
    parse_created_message, plan_local_request, reply_message, ChannelAction, ChannelEvent,
    ClientError, ControlChannel, LocalAnswer, LocalRequest, Phase, ProxyError,
};
use openrok::protocol::{
    decode_body, encode_body, ClientRegistered, ControlMessage, CreateTunnelRequest,
    ForwardRequest, ForwardResponse, Header, Heartbeat, Incoming, RegisterClient, TunnelCreated,
    TunnelProtocol,
};
use openrok::urls::{
    build_websocket_url, local_browser_url, local_request_url, next_request_id, normalize_path,
    preview_path, public_host, tunnels_endpoint,
};

fn created() -> TunnelCreated {
    TunnelCreated {
        tunnel_id: "tnl_demo".to_string(),
        url: "https://demo.openrok.test".to_string(),
        local_addr: "http://127.0.0.1:3000".to_string(),
        registration_token: "tok_demo".to_string(),
    }
}

fn request(method: &str, path: &str, query: Option<&str>, body_base64: &str) -> ForwardRequest {
    ForwardRequest {
        tunnel_id: "tnl_demo".to_string(),
        request_id: "req_1".to_string(),
        method: method.to_string(),
        path: path.to_string(),
        query: query.map(|query| query.to_string()),
        headers: vec![Header { name: "x-test".to_string(), value: "1".to_string() }],
        body_base64: body_base64.to_string(),
    }
}

fn confirmation(id: &str) -> ControlMessage {
    ControlMessage::ClientRegistered(ClientRegistered { tunnel_id: id.to_string() })
}

fn answer() -> ForwardResponse {
    ForwardResponse {
        request_id: "req_1".to_string(),
        status: 200,
        headers: vec![],
        body_base64: encode_body(b"ok"),
    }
}

#[test]
fn parses_tunnel_created_message() {
    let message = ControlMessage::TunnelCreated(TunnelCreated {
        tunnel_id: "tnl_demo".to_string(),
        url: "https://demo.openrok.test".to_string(),
        local_addr: "http://127.0.0.1:3000".to_string(),
        registration_token: "tok_demo".to_string(),
    });

    let created = parse_created_message(message).expect("message should parse");

    assert_eq!(created.tunnel_id, "tnl_demo");
    assert_eq!(created.url, "https://demo.openrok.test");
}

#[test]
fn builds_local_browser_url() {
    assert_eq!(
        local_browser_url("http://127.0.0.1:8080", "https://demo.openrok.test"),
        "http://127.0.0.1:8080/_openrok/demo.openrok.test/"
    );
}

#[test]
fn rejects_unexpected_message_variant() {
    let message = ControlMessage::CreateTunnel(CreateTunnelRequest {
        protocol: TunnelProtocol::Http,
        port: 3000,
        subdomain: None,
    });

    let error = parse_created_message(message).expect_err("message should be rejected");

    assert!(error.message().contains("unexpected message"));
}

#[test]
fn builds_websocket_url_from_http_server() {
    assert_eq!(
        build_websocket_url("http://127.0.0.1:8080"),
        "ws://127.0.0.1:8080/ws"
    );
}

#[test]
fn accepts_matching_registration_ack() {
    let result = ensure_registered(
        ControlMessage::ClientRegistered(ClientRegistered {
            tunnel_id: "tnl_demo".to_string(),
        }),
        "tnl_demo",
    );

    assert!(result.is_ok());
}

#[test]
fn normalizes_forwarded_path() {
    assert_eq!(normalize_path("users"), "/users");
    assert_eq!(normalize_path("/users"), "/users");
}

#[test]
fn extracts_public_host_from_url() {
    assert_eq!(
        public_host("https://demo.openrok.test"),
        "demo.openrok.test"
    );
}

#[test]
fn preview_path_is_normalized() {
    let normalized = preview_path("health");
    assert_eq!(normalized, "/health");
    assert_eq!(normalized, format!("/{}", "health".trim_start_matches('/')));
}

#[test]
fn each_wrong_answer_is_named() {
    let cases = [
        (
            ControlMessage::CreateTunnel(creation_request(1, None)),
            ClientError::UnexpectedMessage,
            "relay server returned an unexpected message",
        ),
        (
            confirmation("tnl_demo"),
            ClientError::UnexpectedRegistration,
            "relay server returned an unexpected registration message",
        ),
        (
            claim_message(&created()),
            ClientError::RequestEcho,
            "relay server returned an invalid request echo",
        ),
        (
            ControlMessage::Heartbeat(Heartbeat { tunnel_id: "tnl_demo".to_string() }),
            ClientError::EarlyHeartbeat,
            "relay server returned a heartbeat before registration",
        ),
        (
            ControlMessage::ForwardRequest(request("GET", "/", None, "")),
            ClientError::EarlyForwarding,
            "relay server returned a forwarding message before registration",
        ),
        (
            ControlMessage::ForwardResponse(answer()),
            ClientError::EarlyForwarding,
            "relay server returned a forwarding message before registration",
        ),
    ];
    for (message, error, text) in cases {
        assert_eq!(parse_created_message(message), Err(error));
        assert_eq!(error.message(), text);
    }
}

#[test]
fn claim_repeats_what_was_reserved() {
    assert_eq!(
        claim_message(&created()),
        ControlMessage::RegisterClient(RegisterClient {
            tunnel_id: "tnl_demo".to_string(),
            local_addr: "http://127.0.0.1:3000".to_string(),
            registration_token: "tok_demo".to_string(),
        })
    );
}

#[test]
fn creation_request_carries_port_and_name() {
    assert_eq!(
        creation_request(3000, Some("demo".to_string())),
        CreateTunnelRequest {
            protocol: TunnelProtocol::Http,
            port: 3000,
            subdomain: Some("demo".to_string()),
        }
    );
}

#[test]
fn confirmation_of_another_tunnel_is_refused() {
    assert_eq!(
        ensure_registered(confirmation("tnl_other"), "tnl_demo"),
        Err(ClientError::NotConfirmed)
    );
    assert_eq!(
        ensure_registered(ControlMessage::ForwardResponse(answer()), "tnl_demo"),
        Err(ClientError::NotConfirmed)
    );
    assert_eq!(
        ClientError::NotConfirmed.message(),
        "relay server failed to confirm client registration"
    );
}

#[test]
fn banner_shows_how_to_reach_the_tunnel() {
    assert_eq!(
        banner_lines("http://127.0.0.1:8080/", &created()),
        vec![
            "OpenRok v0.1.0",
            "",
            "Session Status: Online",
            "",
            "Tunnel ID: tnl_demo",
            "Forwarding",
            "https://demo.openrok.test -> http://127.0.0.1:3000",
            "Local browser",
            "http://127.0.0.1:8080/_openrok/demo.openrok.test/",
            "Local test",
            "curl -H 'Host: demo.openrok.test' http://127.0.0.1:8080/",
            "Note",
            "The public URL needs DNS/TLS to work directly in a browser.",
        ]
    );
}

#[test]
fn websocket_url_follows_the_scheme() {
    assert_eq!(build_websocket_url("https://relay.openrok.test"), "wss://relay.openrok.test/ws");
    assert_eq!(build_websocket_url("https://relay.openrok.test//"), "wss://relay.openrok.test/ws");
    assert_eq!(build_websocket_url("http://relay.openrok.test/"), "ws://relay.openrok.test/ws");
    assert_eq!(build_websocket_url("https:/"), "ws://https:/ws");
    assert_eq!(build_websocket_url("https://"), "wss:///ws");
    assert_eq!(build_websocket_url("http://http://relay/"), "ws://relay/ws");
    assert_eq!(build_websocket_url("relay:8080"), "ws://relay:8080/ws");
    assert_eq!(build_websocket_url(""), "ws:///ws");
}

#[test]
fn urls_ignore_trailing_slashes() {
    assert_eq!(tunnels_endpoint("http://relay//"), "http://relay/tunnels");
    assert_eq!(tunnels_endpoint("http://relay"), "http://relay/tunnels");
    assert_eq!(public_host("http://demo.openrok.test/"), "demo.openrok.test");
    assert_eq!(public_host("https://http://demo"), "demo");
    assert_eq!(
        local_browser_url("http://relay/", "https://demo.openrok.test/"),
        "http://relay/_openrok/demo.openrok.test/"
    );
}

#[test]
fn preview_path_keeps_one_leading_slash() {
    assert_eq!(preview_path(""), "/");
    assert_eq!(preview_path("///a//b/"), "/a//b/");
    assert_eq!(preview_path(&preview_path("//a")), "/a");
}

#[test]
fn rooting_a_path_twice_changes_nothing() {
    assert_eq!(normalize_path(""), "/");
    assert_eq!(normalize_path(&normalize_path("a/b")), "/a/b");
    assert_eq!(normalize_path("//a"), "//a");
}

#[test]
fn local_urls_join_address_path_and_query() {
    assert_eq!(
        local_request_url("http://127.0.0.1:3000/", "a", Some("x=1")),
        "http://127.0.0.1:3000/a?x=1"
    );
    assert_eq!(
        local_request_url("http://127.0.0.1:3000", "/a", Some("")),
        "http://127.0.0.1:3000/a"
    );
    assert_eq!(local_request_url("http://127.0.0.1:3000", "", None), "http://127.0.0.1:3000/");
}

#[test]
fn request_ids_count_up_and_wrap() {
    let mut counter: u64 = 1;
    assert_eq!(next_request_id(&mut counter), "req_1");
    assert_eq!(next_request_id(&mut counter), "req_2");
    counter = u64::MAX;
    assert_eq!(next_request_id(&mut counter), "req_18446744073709551615");
    assert_eq!(next_request_id(&mut counter), "req_0");
    assert_eq!(counter, 1);
}

#[test]
fn channel_waits_for_its_confirmation() {
    let mut channel = ControlChannel::new("tnl_demo");
    assert_eq!(channel.step(ChannelEvent::Tick), ChannelAction::Wait);
    assert_eq!(
        channel.step(ChannelEvent::Incoming(Incoming::OtherFrame)),
        ChannelAction::Wait
    );
    assert_eq!(channel.phase, Phase::Registering);
    assert_eq!(
        channel.step(ChannelEvent::Incoming(Incoming::Control(confirmation("tnl_demo")))),
        ChannelAction::Wait
    );
    assert_eq!(channel.phase, Phase::Live);
    assert_eq!(
        channel.step(ChannelEvent::Tick),
        ChannelAction::Send(ControlMessage::Heartbeat(Heartbeat {
            tunnel_id: "tnl_demo".to_string()
        }))
    );
    assert_eq!(
        channel.step(ChannelEvent::Incoming(Incoming::Control(confirmation("tnl_demo")))),
        ChannelAction::Wait
    );
    let forwarded = request("GET", "/", None, "");
    assert_eq!(
        channel.step(ChannelEvent::Incoming(Incoming::Control(
            ControlMessage::ForwardRequest(forwarded.clone())
        ))),
        ChannelAction::Forward(forwarded)
    );
    assert_eq!(channel.step(ChannelEvent::Interrupt), ChannelAction::Stop);
}

#[test]
fn channel_fails_on_what_it_cannot_use() {
    for phase in [Phase::Registering, Phase::Live] {
        let mut channel = ControlChannel { tunnel_id: "tnl_demo".to_string(), phase };
        assert_eq!(
            channel.step(ChannelEvent::Incoming(Incoming::Undecodable)),
            ChannelAction::Fail(ClientError::UndecodableMessage)
        );
        assert_eq!(
            channel.step(ChannelEvent::Incoming(Incoming::Closed)),
            ChannelAction::Fail(ClientError::ChannelClosed)
        );
    }
    let mut channel = ControlChannel::new("tnl_demo");
    assert_eq!(
        channel.step(ChannelEvent::Incoming(Incoming::Control(confirmation("tnl_other")))),
        ChannelAction::Fail(ClientError::NotConfirmed)
    );
    assert_eq!(channel.step(ChannelEvent::Interrupt), ChannelAction::Stop);
    assert_eq!(
        ClientError::ChannelClosed.message(),
        "control channel closed unexpectedly"
    );
    assert_eq!(
        ClientError::UndecodableMessage.message(),
        "failed to decode control message"
    );
}

#[test]
fn forwarded_requests_are_planned_for_the_local_service() {
    assert_eq!(
        plan_local_request(
            "http://127.0.0.1:3000/",
            request("PATCH", "users", Some("page=2"), &encode_body(b"hello"))
        ),
        Ok(LocalRequest {
            method: "PATCH".to_string(),
            url: "http://127.0.0.1:3000/users?page=2".to_string(),
            headers: vec![Header { name: "x-test".to_string(), value: "1".to_string() }],
            body: b"hello".to_vec(),
        })
    );
}

#[test]
fn unusable_requests_are_not_planned() {
    let addr = "http://127.0.0.1:3000";
    assert_eq!(
        plan_local_request(addr, request("GET", "/", None, "***")),
        Err(ProxyError::UndecodableBody)
    );
    assert_eq!(
        plan_local_request(addr, request("GE T", "/", None, "")),
        Err(ProxyError::InvalidMethod)
    );
    assert_eq!(
        plan_local_request(addr, request("", "/", None, "")),
        Err(ProxyError::InvalidMethod)
    );
    assert_eq!(
        plan_local_request(addr, request("", "/", None, "***")),
        Err(ProxyError::UndecodableBody)
    );
    assert!(plan_local_request(addr, request("BREW", "/", None, "")).is_ok());
}

#[test]
fn methods_are_accepted_as_the_http_client_accepts_them() {
    for code in 0..=0x2ff_u32 {
        let c = char::from_u32(code).expect("no surrogate");
        let method = format!("A{}", c);
        assert_eq!(
            plan_local_request("http://127.0.0.1:3000", request(&method, "/", None, "")).is_ok(),
            reqwest::Method::from_bytes(method.as_bytes()).is_ok(),
            "{:?}",
            method
        );
    }
    let long = "A".repeat(1000);
    assert!(plan_local_request("http://127.0.0.1:3000", request(&long, "/", None, "")).is_ok());
}

#[test]
fn local_answers_go_back_under_their_request_id() {
    let mut headers = HeaderMap::new();
    headers.insert("content-type", HeaderValue::from_static("text/plain"));
    headers.insert("x-odd", HeaderValue::from_bytes(&[0xff]).expect("opaque value"));
    headers.append("x-many", HeaderValue::from_static("a"));
    headers.append("x-many", HeaderValue::from_static("b"));
    let body = vec![0_u8, 1, 2];
    let response = local_answer("req_7".to_string(), 418, &headers, &body);
    assert_eq!(response.request_id, "req_7");
    assert_eq!(response.status, 418);
    assert_eq!(decode_body(&response.body_base64), Ok(vec![0, 1, 2]));
    let names: Vec<(&str, &str)> = response
        .headers
        .iter()
        .map(|header| (header.name.as_str(), header.value.as_str()))
        .collect();
    assert_eq!(
        names,
        vec![("content-type", "text/plain"), ("x-many", "a"), ("x-many", "b")]
    );
}

#[test]
fn failures_are_answered_with_an_apology() {
    for (error, text) in [
        (ProxyError::UndecodableBody, "proxy error: failed to decode forwarded body"),
        (ProxyError::InvalidMethod, "proxy error: failed to parse forwarded method"),
        (ProxyError::Unreachable, "proxy error: failed to proxy request to localhost"),
        (ProxyError::UnreadableAnswer, "proxy error: failed to read local response body"),
    ] {
        let response = failed_answer("req_9".to_string(), error);
        assert_eq!(response.request_id, "req_9");
        assert_eq!(response.status, 502);
        assert_eq!(
            response.headers,
            vec![Header { name: "content-type".to_string(), value: "text/plain".to_string() }]
        );
        assert_eq!(decode_body(&response.body_base64), Ok(text.as_bytes().to_vec()));
        assert_eq!(
            reply_message("req_9".to_string(), Err(error)),
            ControlMessage::ForwardResponse(response)
        );
    }
}

#[test]
fn replies_carry_the_id_of_their_request() {
    let outcome = Ok(LocalAnswer {
        status: 200,
        headers: HeaderMap::new(),
        body: b"ok".to_vec(),
    });
    assert_eq!(
        reply_message("req_1".to_string(), outcome),
        ControlMessage::ForwardResponse(answer())
    );
    match reply_message("req_2".to_string(), Err(ProxyError::Unreachable)) {
        ControlMessage::ForwardResponse(response) => assert_eq!(response.request_id, "req_2"),
        other => panic!("unexpected message {:?}", other),
    }
}
