//! The relay's books.
use openrok::clock::SECOND;
use openrok::protocol::{
    encode_body, ControlMessage, CreateTunnelRequest, ForwardRequest, ForwardResponse, Header,
    Heartbeat, TunnelCreated, TunnelProtocol,
};
use openrok::tunnel_manager::{CreateTunnelError, DispatchError, RegisterError, TunnelManager};
use tokio::sync::mpsc::{unbounded_channel, UnboundedReceiver};
use tokio::sync::oneshot;

fn ask(port: u16, subdomain: Option<&str>) -> CreateTunnelRequest {
    CreateTunnelRequest {
        protocol: TunnelProtocol::Http,
        port,
        subdomain: subdomain.map(|name| name.to_string()),
    }
}

fn live(manager: &mut TunnelManager, name: &str) -> (TunnelCreated, UnboundedReceiver<ControlMessage>) {
    let created = manager.create_tunnel(ask(3000, Some(name))).expect("tunnel should create");
    let (sender, receiver) = unbounded_channel();
    manager
        .register_client(
            created.tunnel_id.clone(),
            "http://127.0.0.1:3000".to_string(),
            created.registration_token.clone(),
            manager.link(sender),
        )
        .expect("registration should succeed");
    (created, receiver)
}

fn answer(request_id: &str, status: u16) -> ForwardResponse {
    ForwardResponse {
        request_id: request_id.to_string(),
        status,
        headers: vec![],
        body_base64: encode_body(b"ok"),
    }
}

fn beat(id: &str) -> ControlMessage {
    ControlMessage::Heartbeat(Heartbeat { tunnel_id: id.to_string() })
}

#[test]
fn generates_default_subdomain_from_port() {
    let mut manager = TunnelManager::new("openrok.test");
    let request = CreateTunnelRequest {
        protocol: TunnelProtocol::Http,
        port: 8080,
        subdomain: None,
    };

    let created = manager.create_tunnel(request).expect("tunnel should create");

    assert!(created.tunnel_id.starts_with("tnl_rok_"));
    assert!(created.url.starts_with("https://rok-"));
    assert_eq!(created.local_addr, "http://127.0.0.1:8080");
    assert!(!created.registration_token.is_empty());
}

#[test]
fn generated_names_are_labels_and_differ() {
    let mut manager = TunnelManager::new("openrok.test");
    let a = manager.create_tunnel(ask(1, None)).expect("tunnel should create");
    let b = manager.create_tunnel(ask(1, None)).expect("tunnel should create");
    assert_ne!(a.tunnel_id, b.tunnel_id);
    assert_ne!(a.registration_token, b.registration_token);
    assert_eq!(a.registration_token.len(), 24);
    assert!(a.registration_token.chars().all(|c| c.is_ascii_alphanumeric()));
    assert_eq!(a.tunnel_id.len(), "tnl_rok_".len() + 8);
    assert!(a
        .tunnel_id
        .chars()
        .skip(8)
        .all(|c| c.is_ascii_lowercase() || c.is_ascii_digit()));
    assert_eq!(a.url, format!("https://rok-{}.openrok.test", &a.tunnel_id[8..]));
}

#[test]
fn rejects_invalid_subdomain() {
    let mut manager = TunnelManager::new("openrok.test");
    let request = CreateTunnelRequest {
        protocol: TunnelProtocol::Http,
        port: 8080,
        subdomain: Some("Invalid_Subdomain".to_string()),
    };

    let error = manager.create_tunnel(request).expect_err("should fail");

    assert_eq!(error, CreateTunnelError::InvalidSubdomain);
}

#[test]
fn rejects_blank_subdomain() {
    let mut manager = TunnelManager::new("openrok.test");
    assert_eq!(
        manager.create_tunnel(ask(1, Some("  \t"))),
        Err(CreateTunnelError::InvalidSubdomain)
    );
}

#[test]
fn registers_and_counts_client_session() {
    let mut manager = TunnelManager::new("openrok.test");
    let created = manager
        .create_tunnel(CreateTunnelRequest {
            protocol: TunnelProtocol::Http,
            port: 3000,
            subdomain: Some("demo".to_string()),
        })
        .expect("tunnel should create");
    let (sender, _receiver) = unbounded_channel();

    manager
        .register_client(
            created.tunnel_id.clone(),
            "http://127.0.0.1:3000".to_string(),
            created.registration_token,
            manager.link(sender),
        )
        .expect("registration should succeed");

    assert_eq!(manager.session_count(), 1);
    assert!(manager.record_heartbeat(&created.tunnel_id));
    assert_eq!(
        manager.client_addr(&created.tunnel_id),
        Some("http://127.0.0.1:3000".to_string())
    );

    manager.remove_client(&created.tunnel_id);
    assert_eq!(manager.session_count(), 0);
}

#[test]
fn rejects_invalid_registration_token() {
    let mut manager = TunnelManager::new("openrok.test");
    let created = manager
        .create_tunnel(CreateTunnelRequest {
            protocol: TunnelProtocol::Http,
            port: 3000,
            subdomain: Some("demo".to_string()),
        })
        .expect("tunnel should create");
    let (sender, _receiver) = unbounded_channel();

    let error = manager
        .register_client(
            created.tunnel_id,
            "http://127.0.0.1:3000".to_string(),
            "wrong-token".to_string(),
            manager.link(sender),
        )
        .expect_err("registration should fail");

    assert!(error.message().contains("invalid registration token"));
}

#[test]
fn rejects_duplicate_subdomain_reservation() {
    let mut manager = TunnelManager::new("openrok.test");

    manager
        .create_tunnel(CreateTunnelRequest {
            protocol: TunnelProtocol::Http,
            port: 3000,
            subdomain: Some("demo".to_string()),
        })
        .expect("first tunnel should create");

    let error = manager
        .create_tunnel(CreateTunnelRequest {
            protocol: TunnelProtocol::Http,
            port: 4000,
            subdomain: Some("demo".to_string()),
        })
        .expect_err("duplicate subdomain should fail");

    assert_eq!(error, CreateTunnelError::SubdomainUnavailable);
}

#[test]
fn rejects_registration_with_mismatched_local_addr() {
    let mut manager = TunnelManager::new("openrok.test");
    let created = manager
        .create_tunnel(CreateTunnelRequest {
            protocol: TunnelProtocol::Http,
            port: 3000,
            subdomain: Some("demo".to_string()),
        })
        .expect("tunnel should create");
    let (sender, _receiver) = unbounded_channel();

    let error = manager
        .register_client(
            created.tunnel_id,
            "http://127.0.0.1:9999".to_string(),
            created.registration_token,
            manager.link(sender),
        )
        .expect_err("registration should fail");

    assert!(error
        .message()
        .contains("local address does not match reserved tunnel"));
}

#[test]
fn dispatches_request_and_resolves_response() {
    let mut manager = TunnelManager::new("openrok.test");
    let created = manager
        .create_tunnel(CreateTunnelRequest {
            protocol: TunnelProtocol::Http,
            port: 3000,
            subdomain: Some("demo".to_string()),
        })
        .expect("tunnel should create");
    let (sender, mut receiver) = unbounded_channel();
    manager
        .register_client(
            created.tunnel_id.clone(),
            "http://127.0.0.1:3000".to_string(),
            created.registration_token,
            manager.link(sender),
        )
        .expect("registration should succeed");

    let request_id = "req_1".to_string();
    let mut rx = manager
        .dispatch_request(
            &created.tunnel_id,
            request_id.clone(),
            ControlMessage::ForwardRequest(ForwardRequest {
                tunnel_id: created.tunnel_id.clone(),
                request_id: request_id.clone(),
                method: "GET".to_string(),
                path: "/".to_string(),
                query: None,
                headers: vec![Header {
                    name: "x-test".to_string(),
                    value: "1".to_string(),
                }],
                body_base64: encode_body(b""),
            }),
        )
        .expect("request should dispatch");

    assert!(matches!(
        receiver.try_recv(),
        Ok(ControlMessage::ForwardRequest(_))
    ));

    assert!(manager.resolve_response(ForwardResponse {
        request_id,
        status: 200,
        headers: vec![],
        body_base64: encode_body(b"ok"),
    }));

    let response = rx.try_recv().expect("response should resolve");
    assert_eq!(response.status, 200);
}

#[test]
fn names_are_normalized_before_they_are_reserved() {
    let mut manager = TunnelManager::new("openrok.test");
    let created = manager
        .create_tunnel(ask(65535, Some("  My-App ")))
        .expect("tunnel should create");
    assert_eq!(created.tunnel_id, "tnl_my_app");
    assert_eq!(created.url, "https://my-app.openrok.test");
    assert_eq!(created.local_addr, "http://127.0.0.1:65535");
    assert_eq!(
        manager.create_tunnel(ask(1, Some("MY-APP"))),
        Err(CreateTunnelError::SubdomainUnavailable)
    );
}

#[test]
fn given_url_leads_back_to_the_tunnel() {
    let mut manager = TunnelManager::new("OpenRok.Test");
    let created = manager.create_tunnel(ask(3000, Some("demo"))).expect("tunnel should create");
    let host = openrok::urls::public_host(&created.url);
    assert_eq!(host, "demo.OpenRok.Test");
    assert_eq!(manager.tunnel_id_for_host(&host), Some(created.tunnel_id.clone()));
    assert_eq!(
        manager.tunnel_id_for_host("DEMO.openrok.test:8080"),
        Some(created.tunnel_id)
    );
    assert_eq!(manager.tunnel_id_for_host("openrok.test"), None);
    assert_eq!(manager.tunnel_id_for_host(".openrok.test"), None);
    assert_eq!(manager.tunnel_id_for_host("demo.example.com"), None);
    assert_eq!(manager.tunnel_id_for_host(""), None);
}

#[test]
fn claim_without_reservation_is_refused() {
    let mut manager = TunnelManager::new("openrok.test");
    let (sender, _receiver) = unbounded_channel();
    let refused = manager.register_client(
        "tnl_demo".to_string(),
        "http://127.0.0.1:3000".to_string(),
        "token".to_string(),
        manager.link(sender),
    );
    assert_eq!(refused, Err(RegisterError::NoReservation));
    assert_eq!(
        RegisterError::NoReservation.message(),
        "no pending tunnel reservation found"
    );
}

#[test]
fn claim_uses_up_the_reservation_even_when_refused() {
    let mut manager = TunnelManager::new("openrok.test");
    let created = manager.create_tunnel(ask(3000, Some("demo"))).expect("tunnel should create");
    let (sender, _receiver) = unbounded_channel();
    let refused = manager.register_client(
        created.tunnel_id.clone(),
        created.local_addr.clone(),
        "wrong".to_string(),
        manager.link(sender.clone()),
    );
    assert_eq!(refused, Err(RegisterError::InvalidToken));
    let again = manager.register_client(
        created.tunnel_id,
        created.local_addr,
        created.registration_token,
        manager.link(sender),
    );
    assert_eq!(again, Err(RegisterError::NoReservation));
    assert!(manager.create_tunnel(ask(3000, Some("demo"))).is_ok());
}

#[test]
fn reservation_can_be_claimed_until_it_expires() {
    let mut manager = TunnelManager::new("openrok.test");
    for (claimed_at, outcome) in [
        (100 * SECOND, Ok(())),
        (160 * SECOND, Ok(())),
        (160 * SECOND + 1, Err(RegisterError::ReservationExpired)),
    ] {
        let created = manager
            .reserve_at("demo", 3000, "token".to_string(), 100 * SECOND)
            .expect("tunnel should create");
        assert_eq!(created.registration_token, "token");
        let (sender, _receiver) = unbounded_channel();
        let registered = manager.register_client_at(
            created.tunnel_id.clone(),
            created.local_addr,
            created.registration_token,
            manager.link(sender),
            claimed_at,
        );
        assert_eq!(registered, outcome);
        manager.remove_client(&created.tunnel_id);
    }
    assert_eq!(
        RegisterError::ReservationExpired.message(),
        "tunnel reservation expired"
    );
}

#[test]
fn live_tunnel_keeps_its_name_until_it_is_dropped() {
    let mut manager = TunnelManager::new("openrok.test");
    let (created, _receiver) = live(&mut manager, "demo");
    assert!(manager.host_in_use("demo.openrok.test"));
    assert_eq!(
        manager.create_tunnel(ask(1, Some("demo"))),
        Err(CreateTunnelError::SubdomainUnavailable)
    );
    manager.remove_client(&created.tunnel_id);
    assert!(!manager.host_in_use("demo.openrok.test"));
    assert_eq!(manager.client_addr(&created.tunnel_id), None);
    assert!(manager.create_tunnel(ask(1, Some("demo"))).is_ok());
}

#[test]
fn removing_one_tunnel_leaves_the_others() {
    let mut manager = TunnelManager::new("openrok.test");
    let (one, _a) = live(&mut manager, "one");
    let (two, _b) = live(&mut manager, "two");
    manager.remove_client(&one.tunnel_id);
    assert_eq!(manager.session_count(), 1);
    assert!(manager.record_heartbeat(&two.tunnel_id));
    assert!(!manager.record_heartbeat(&one.tunnel_id));
}

#[test]
fn pruning_follows_the_signs_of_life() {
    let mut manager = TunnelManager::new("openrok.test");
    for name in ["quiet", "lively"] {
        let created = manager
            .reserve_at(name, 3000, "token".to_string(), 0)
            .expect("tunnel should create");
        let (sender, _receiver) = unbounded_channel();
        manager
            .register_client_at(created.tunnel_id, created.local_addr, "token".to_string(), manager.link(sender), 0)
            .expect("registration should succeed");
    }
    assert!(manager.record_heartbeat_at("tnl_lively", 50 * SECOND));
    manager.prune_stale_sessions_at(90 * SECOND, 90 * SECOND);
    assert_eq!(manager.session_count(), 2);
    manager.prune_stale_sessions_at(90 * SECOND, 90 * SECOND + 1);
    assert_eq!(manager.session_count(), 1);
    assert!(manager.client_addr("tnl_lively").is_some());
    assert!(!manager.host_in_use("quiet.openrok.test"));
    manager.prune_stale_sessions_at(90 * SECOND, 141 * SECOND);
    assert_eq!(manager.session_count(), 0);
}

#[test]
fn pruning_by_the_clock_keeps_fresh_tunnels() {
    let mut manager = TunnelManager::new("openrok.test");
    let (_created, _receiver) = live(&mut manager, "demo");
    manager.prune_stale_sessions(90 * SECOND);
    assert_eq!(manager.session_count(), 1);
    let reserved = manager.create_tunnel(ask(1, Some("other"))).expect("tunnel should create");
    manager.prune_stale_reservations();
    let (sender, _rx) = unbounded_channel();
    assert_eq!(
        manager.register_client(
            reserved.tunnel_id,
            reserved.local_addr,
            reserved.registration_token,
            manager.link(sender)
        ),
        Ok(())
    );
}

#[test]
fn expired_reservations_are_pruned() {
    let mut manager = TunnelManager::new("openrok.test");
    manager
        .reserve_at("demo", 3000, "token".to_string(), 0)
        .expect("tunnel should create");
    manager.prune_stale_reservations_at(60 * SECOND - 1);
    assert!(manager.host_in_use("demo.openrok.test"));
    manager.prune_stale_reservations_at(60 * SECOND);
    assert!(!manager.host_in_use("demo.openrok.test"));
}

#[test]
fn dispatch_without_tunnel_is_refused() {
    let mut manager = TunnelManager::new("openrok.test");
    let refused = manager.dispatch_request("tnl_demo", "req_1".to_string(), beat("tnl_demo"));
    assert!(matches!(refused, Err(DispatchError::NoSession)));
    assert_eq!(DispatchError::NoSession.message(), "no active tunnel session found");
    assert!(manager.take_waiting("req_1").is_none());
}

#[test]
fn failed_dispatch_leaves_nobody_waiting() {
    let mut manager = TunnelManager::new("openrok.test");
    let (created, receiver) = live(&mut manager, "demo");
    drop(receiver);
    let refused = manager.dispatch_request(&created.tunnel_id, "req_1".to_string(), beat("x"));
    assert!(matches!(refused, Err(DispatchError::SendFailed)));
    assert_eq!(
        DispatchError::SendFailed.message(),
        "failed to send forwarded request to client"
    );
    assert!(!manager.resolve_response(answer("req_1", 200)));
}

#[test]
fn dispatch_sends_the_message_to_its_own_client() {
    let mut manager = TunnelManager::new("openrok.test");
    let (one, mut to_one) = live(&mut manager, "one");
    let (_two, mut to_two) = live(&mut manager, "two");
    let _waiting = manager
        .dispatch_request(&one.tunnel_id, "req_1".to_string(), beat("hello"))
        .expect("request should dispatch");
    assert_eq!(to_one.try_recv(), Ok(beat("hello")));
    assert!(to_one.try_recv().is_err());
    assert!(to_two.try_recv().is_err());
}

#[test]
fn answers_find_the_request_that_waits_for_them() {
    let mut manager = TunnelManager::new("openrok.test");
    let (created, _receiver) = live(&mut manager, "demo");
    let mut first = manager
        .dispatch_request(&created.tunnel_id, "req_1".to_string(), beat("a"))
        .expect("request should dispatch");
    let mut second = manager
        .dispatch_request(&created.tunnel_id, "req_2".to_string(), beat("b"))
        .expect("request should dispatch");
    assert!(manager.resolve_response(answer("req_2", 202)));
    assert!(manager.resolve_response(answer("req_1", 201)));
    assert!(!manager.resolve_response(answer("req_1", 200)));
    assert!(!manager.resolve_response(answer("req_3", 200)));
    assert_eq!(first.try_recv().expect("answer").status, 201);
    assert_eq!(second.try_recv().expect("answer").status, 202);
}

#[test]
fn answer_to_a_request_that_gave_up_is_not_delivered() {
    let mut manager = TunnelManager::new("openrok.test");
    let (created, _receiver) = live(&mut manager, "demo");
    let waiting = manager
        .dispatch_request(&created.tunnel_id, "req_1".to_string(), beat("a"))
        .expect("request should dispatch");
    drop(waiting);
    assert!(!manager.resolve_response(answer("req_1", 200)));
}

#[test]
fn steps_of_a_dispatch_can_be_taken_one_by_one() {
    let mut manager = TunnelManager::new("openrok.test");
    let (created, mut receiver) = live(&mut manager, "demo");
    let (sender, mut other) = unbounded_channel();
    let link = manager.link(sender);
    assert!(manager.tell(&link, beat("hello")));
    assert_eq!(other.try_recv(), Ok(beat("hello")));
    drop(other);
    assert!(!manager.tell(&link, beat("hello")));
    assert!(receiver.try_recv().is_err());
    assert!(manager.client_addr(&created.tunnel_id).is_some());
    let (reply, waiting) = oneshot::channel();
    manager.await_answer("req_1".to_string(), reply);
    let mut waiting = manager.settle_dispatch("req_1", waiting, true).expect("sent");
    assert!(manager.resolve_response(answer("req_1", 204)));
    assert_eq!(waiting.try_recv().expect("answer").status, 204);
    let (reply, waiting) = oneshot::channel();
    manager.await_answer("req_2".to_string(), reply);
    assert!(matches!(
        manager.settle_dispatch("req_2", waiting, false),
        Err(DispatchError::SendFailed)
    ));
    assert!(manager.take_waiting("req_2").is_none());
}

#[test]
fn relay_clock_does_not_run_backwards() {
    let manager = TunnelManager::new("openrok.test");
    let first = manager.now();
    let second = manager.now();
    assert!(first <= second);
}
