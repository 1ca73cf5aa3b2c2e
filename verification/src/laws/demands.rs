//! Laws on what is asked of a caller: a relay whose books are sound takes whatever comes.
use crate::channel::Link;
use crate::client::{local_answer, plan_local_request, reply_message, LocalAnswer, ProxyError};
use crate::connection::ControlConnection;
use crate::protocol::{
    body_fits, decode_body, encode_body, ControlMessage, CreateTunnelRequest, ForwardRequest,
    ForwardResponse, Incoming,
};
use crate::relay::{
    build_proxy_response, reap, reap_at, wait_response, AppState, PublicRequest, Target,
    WaitOutcome,
};
use crate::tunnel_manager::TunnelManager;
use axum::http::{HeaderMap, HeaderValue};
use vstd::prelude::*;

verus! {

/// A relay whose books are sound takes every request for a tunnel and every public request, whoever
/// sends it and whatever it asks for.
pub proof fn relay_takes_every_request(
    state: &mut AppState,
    counter: &mut u64,
    ip: &str,
    request: CreateTunnelRequest,
    host: Option<String>,
    target: &Target,
    public: PublicRequest,
    path: Option<String>,
    given: &HeaderMap<HeaderValue>,
    body: Option<Vec<u8>>,
)
    requires
        old(state).wf(),
    ensures
        call_requires(AppState::create_tunnel, (state, ip, request)),
        call_requires(
            AppState::forward_request,
            (state, counter, target, public, path, given, body),
        ),
{
}

/// Every public request is led somewhere or refused, and every answer is passed on or refused.
pub proof fn relay_answers_everything(
    state: &AppState,
    host: Option<String>,
    given: &HeaderMap<HeaderValue>,
    response: ForwardResponse,
    outcome: WaitOutcome,
)
    ensures
        call_requires(AppState::resolve_target, (state, host, given)),
        call_requires(build_proxy_response, (response,)),
        call_requires(wait_response, (outcome,)),
{
}

/// A relay whose books are sound takes every frame that comes in on a link of its own, at every
/// time.
pub proof fn relay_takes_every_frame(
    connection: &mut ControlConnection,
    manager: &mut TunnelManager,
    link: &Link,
    message: ControlMessage,
    frame: Incoming,
    now: u128,
)
    requires
        old(manager).wf(),
        link@.outbox == old(manager)@.outbox,
    ensures
        call_requires(
            ControlConnection::handle_message_at,
            (connection, manager, link, message, now),
        ),
        call_requires(ControlConnection::handle_message, (connection, manager, link, message)),
        call_requires(ControlConnection::handle_frame, (connection, manager, link, frame)),
{
}

/// A relay whose books are sound can be cleaned at every time, and takes the end of every
/// connection and every answer.
pub proof fn relay_can_be_cleaned(
    manager: &mut TunnelManager,
    connection: ControlConnection,
    response: ForwardResponse,
    now: u128,
    max_age: u128,
    id: &str,
)
    requires
        old(manager).wf(),
    ensures
        call_requires(reap_at, (manager, now)),
        call_requires(reap, (manager,)),
        call_requires(TunnelManager::prune_stale_sessions_at, (manager, max_age, now)),
        call_requires(TunnelManager::prune_stale_reservations_at, (manager, now)),
        call_requires(TunnelManager::record_heartbeat_at, (manager, id, now)),
        call_requires(TunnelManager::remove_client, (manager, id)),
        call_requires(TunnelManager::resolve_response, (manager, response)),
        call_requires(ControlConnection::close, (connection, manager)),
{
}

/// A client takes every forwarded request, and every body that can be encoded.
pub proof fn client_takes_every_request(
    local_addr: &str,
    request: ForwardRequest,
    text: &str,
    len: usize,
    error: ProxyError,
    request_id: String,
)
    ensures
        call_requires(plan_local_request, (local_addr, request)),
        call_requires(decode_body, (text,)),
        call_requires(body_fits, (len,)),
        call_requires(reply_message, (request_id, Err::<LocalAnswer, ProxyError>(error))),
{
}

/// A local answer whose body is found to fit can be sent.
pub proof fn fitting_body_can_be_sent(
    request_id: String,
    answer: LocalAnswer,
    len: usize,
    bytes: &[u8],
)
    requires
        len == answer.body@.len(),
        call_ensures(body_fits, (len,), true),
        bytes@ == answer.body@,
    ensures
        call_requires(encode_body, (bytes,)),
        call_requires(
            local_answer,
            (request_id, answer.status, &answer.headers, &answer.body),
        ),
        call_requires(reply_message, (request_id, Ok::<LocalAnswer, ProxyError>(answer))),
{
}

} // verus!
