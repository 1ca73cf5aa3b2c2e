//! Laws on the client: how it comes by its tunnel, and what it does with what comes in.
use crate::client::{
    banner_lines, claim_message, creation_request, ensure_registered, parse_created_message,
    plan_local_request, ChannelAction, ChannelEvent, ClientError, ControlChannel, LocalRequest,
    Phase, ProxyError,
};
use crate::http_rules;
use crate::protocol;
use crate::protocol::{
    ControlMessage, CreateTunnelRequest, ForwardRequest, Header, Incoming, TunnelCreated,
    TunnelProtocol,
};
use crate::text::without_trailing_char;
use crate::urls::{local_browser_url, local_request_url, public_host};
use vstd::prelude::*;

verus! {

/// A client asks for an HTTP tunnel to its port, under the name that it was given, as it was given.
pub proof fn request_names_port_and_name(
    port: u16,
    subdomain: Option<String>,
    request: CreateTunnelRequest,
)
    requires
        call_ensures(creation_request, (port, subdomain), request),
    ensures
        request.protocol == TunnelProtocol::Http,
        request.port == port,
        match subdomain {
            Some(name) => request.subdomain is Some && request.subdomain->Some_0@ == name@,
            None => request.subdomain is None,
        },
{
}

/// A client takes the tunnel that the relay reserved, as it is, and objects to every other message,
/// each in its own way.
pub proof fn only_a_tunnel_answers_a_request(
    message: ControlMessage,
    created: Result<TunnelCreated, ClientError>,
)
    requires
        call_ensures(parse_created_message, (message,), created),
    ensures
        match message {
            ControlMessage::TunnelCreated(given) => {
                &&& created is Ok
                &&& created->Ok_0.tunnel_id@ == given.tunnel_id@
                &&& created->Ok_0.url@ == given.url@
                &&& created->Ok_0.local_addr@ == given.local_addr@
                &&& created->Ok_0.registration_token@ == given.registration_token@
            },
            ControlMessage::CreateTunnel(_) => created == Err::<TunnelCreated, _>(
                ClientError::UnexpectedMessage,
            ),
            ControlMessage::ClientRegistered(_) => created == Err::<TunnelCreated, _>(
                ClientError::UnexpectedRegistration,
            ),
            ControlMessage::RegisterClient(_) => created == Err::<TunnelCreated, _>(
                ClientError::RequestEcho,
            ),
            ControlMessage::Heartbeat(_) => created == Err::<TunnelCreated, _>(
                ClientError::EarlyHeartbeat,
            ),
            ControlMessage::ForwardRequest(_) => created == Err::<TunnelCreated, _>(
                ClientError::EarlyForwarding,
            ),
            ControlMessage::ForwardResponse(_) => created == Err::<TunnelCreated, _>(
                ClientError::EarlyForwarding,
            ),
        },
{
}

/// A claim is confirmed by the registration of its own tunnel, and by nothing else.
pub proof fn own_registration_confirms_a_claim(
    message: ControlMessage,
    tunnel_id: &str,
    confirmed: Result<(), ClientError>,
)
    requires
        call_ensures(ensure_registered, (message, tunnel_id), confirmed),
    ensures
        confirmed is Ok <==> {
            &&& message is ClientRegistered
            &&& message->ClientRegistered_0.tunnel_id@ == tunnel_id@
        },
        confirmed is Err ==> confirmed->Err_0 == ClientError::NotConfirmed,
{
}

/// A client claims the tunnel that it was given, with the address and the token that it was given.
pub proof fn claim_repeats_what_was_given(created: &TunnelCreated, message: ControlMessage)
    requires
        call_ensures(claim_message, (created,), message),
    ensures
        message is RegisterClient,
        message->RegisterClient_0.tunnel_id@ == created.tunnel_id@,
        message->RegisterClient_0.local_addr@ == created.local_addr@,
        message->RegisterClient_0.registration_token@ == created.registration_token@,
{
}

/// The client shows the id and the public URL of its tunnel, the local address behind it, its
/// preview URL, and a command that reaches it through the relay.
pub proof fn banner_shows_the_tunnel(
    server: &str,
    created: &TunnelCreated,
    url: &str,
    base: &str,
    preview: String,
    host: String,
    lines: Vec<String>,
)
    requires
        url@ == created.url@,
        call_ensures(without_trailing_char, (server, '/'), base),
        call_ensures(local_browser_url, (server, url), preview),
        call_ensures(public_host, (url,), host),
        call_ensures(banner_lines, (server, created), lines),
    ensures
        lines@.len() == 13,
        lines@[0]@ == "OpenRok v0.1.0"@,
        lines@[1]@ == ""@,
        lines@[2]@ == "Session Status: Online"@,
        lines@[3]@ == ""@,
        lines@[4]@ == "Tunnel ID: "@ + created.tunnel_id@,
        lines@[5]@ == "Forwarding"@,
        lines@[6]@ == created.url@ + " -> "@ + created.local_addr@,
        lines@[7]@ == "Local browser"@,
        lines@[8]@ == preview@,
        lines@[9]@ == "Local test"@,
        lines@[10]@ == "curl -H 'Host: "@ + host@ + "' "@ + base@ + "/"@,
        lines@[11]@ == "Note"@,
        lines@[12]@ == "The public URL needs DNS/TLS to work directly in a browser."@,
{
    let shown = crate::client::lines_view(lines@);
    assert(shown.len() == 13);
    assert forall|i: int| 0 <= i < 13 implies (#[trigger] lines@[i])@ == shown[i] by {}
}

/// A channel starts with a claim that is not confirmed yet.
pub proof fn channel_starts_unconfirmed(tunnel_id: &str, channel: ControlChannel)
    requires
        call_ensures(ControlChannel::new, (tunnel_id,), channel),
    ensures
        channel.tunnel_id@ == tunnel_id@,
        channel.phase == Phase::Registering,
{
}

/// As long as its claim is not confirmed, the client takes the registration of its own tunnel for
/// the confirmation, and is live from then on; it gives up on any other message. It sends nothing
/// and forwards nothing.
pub proof fn client_waits_for_its_confirmation(
    channel: &mut ControlChannel,
    event: ChannelEvent,
    action: ChannelAction,
)
    requires
        call_ensures(ControlChannel::step, (channel, event), action),
        old(channel).phase == Phase::Registering,
    ensures
        final(channel).tunnel_id@ == old(channel).tunnel_id@,
        final(channel).phase == Phase::Live <==> {
            &&& event matches ChannelEvent::Incoming(
                Incoming::Control(ControlMessage::ClientRegistered(registered)),
            )
            &&& registered.tunnel_id@ == old(channel).tunnel_id@
        },
        final(channel).phase == Phase::Live ==> action is Wait,
        final(channel).phase == Phase::Registering && (event matches ChannelEvent::Incoming(
            Incoming::Control(_),
        )) ==> action == ChannelAction::Fail(ClientError::NotConfirmed),
        event is Tick ==> action is Wait,
        action !is Send,
        action !is Forward,
{
}

/// While its tunnel is live, the client gives a sign of life of that tunnel whenever the time for
/// one has come.
pub proof fn live_client_gives_signs_of_life(channel: &mut ControlChannel, action: ChannelAction)
    requires
        call_ensures(ControlChannel::step, (channel, ChannelEvent::Tick), action),
        old(channel).phase == Phase::Live,
    ensures
        final(channel).phase == Phase::Live,
        final(channel).tunnel_id@ == old(channel).tunnel_id@,
        action is Send,
        action->Send_0 is Heartbeat,
        action->Send_0->Heartbeat_0.tunnel_id@ == old(channel).tunnel_id@,
{
}

/// While its tunnel is live, the client forwards every request as it is.
pub proof fn live_client_forwards_requests(
    channel: &mut ControlChannel,
    request: ForwardRequest,
    action: ChannelAction,
)
    requires
        call_ensures(
            ControlChannel::step,
            (
                channel,
                ChannelEvent::Incoming(Incoming::Control(ControlMessage::ForwardRequest(request))),
            ),
            action,
        ),
        old(channel).phase == Phase::Live,
    ensures
        final(channel).phase == Phase::Live,
        final(channel).tunnel_id@ == old(channel).tunnel_id@,
        action is Forward,
        ({
            let forwarded = action->Forward_0;
            &&& forwarded.tunnel_id@ == request.tunnel_id@
            &&& forwarded.request_id@ == request.request_id@
            &&& forwarded.method@ == request.method@
            &&& forwarded.path@ == request.path@
            &&& request.query matches Some(query) ==> forwarded.query is Some
                && forwarded.query->Some_0@ == query@
            &&& request.query is None ==> forwarded.query is None
            &&& forwarded.headers@.len() == request.headers@.len()
            &&& forall|i: int|
                0 <= i < request.headers@.len() ==> {
                    &&& (#[trigger] forwarded.headers@[i]).name@ == request.headers@[i].name@
                    &&& forwarded.headers@[i].value@ == request.headers@[i].value@
                }
            &&& forwarded.body_base64@ == request.body_base64@
        }),
{
    let forwarded = action->Forward_0;
    lemma_same_headers(forwarded.headers@, request.headers@);
}

/// While its tunnel is live, the client passes over every other message, and stays live.
pub proof fn live_client_passes_over_the_rest(
    channel: &mut ControlChannel,
    message: ControlMessage,
    action: ChannelAction,
)
    requires
        call_ensures(
            ControlChannel::step,
            (channel, ChannelEvent::Incoming(Incoming::Control(message))),
            action,
        ),
        old(channel).phase == Phase::Live,
        message !is ForwardRequest,
    ensures
        final(channel).phase == Phase::Live,
        final(channel).tunnel_id@ == old(channel).tunnel_id@,
        action is Wait,
{
}

/// Whatever its phase, and without changing it, the client stops when the user wants it, gives up
/// when the channel ends or a text on it makes no sense, and passes over frames that are not text.
pub proof fn client_stops_and_gives_up(
    channel: &mut ControlChannel,
    event: ChannelEvent,
    action: ChannelAction,
)
    requires
        call_ensures(ControlChannel::step, (channel, event), action),
        !(event matches ChannelEvent::Incoming(Incoming::Control(_))),
        event !is Tick,
    ensures
        final(channel).phase == old(channel).phase,
        final(channel).tunnel_id@ == old(channel).tunnel_id@,
        match event {
            ChannelEvent::Interrupt => action is Stop,
            ChannelEvent::Incoming(Incoming::Undecodable) => action == ChannelAction::Fail(
                ClientError::UndecodableMessage,
            ),
            ChannelEvent::Incoming(Incoming::Closed) => action == ChannelAction::Fail(
                ClientError::ChannelClosed,
            ),
            _ => action is Wait,
        },
{
}

proof fn lemma_same_headers(a: Seq<Header>, b: Seq<Header>)
    requires
        protocol::headers_view(a) == protocol::headers_view(b),
    ensures
        a.len() == b.len(),
        forall|i: int|
            0 <= i < a.len() ==> (#[trigger] a[i]).name@ == b[i].name@ && a[i].value@
                == b[i].value@,
{
    let left = protocol::headers_view(a);
    let right = protocol::headers_view(b);
    assert(left.len() == a.len());
    assert(right.len() == b.len());
    assert forall|i: int| 0 <= i < a.len() implies (#[trigger] a[i]).name@ == b[i].name@
        && a[i].value@ == b[i].value@ by {
        assert(left[i] == a[i]@);
        assert(right[i] == b[i]@);
    }
}

/// The local service gets the method, the headers and the body of the public request as they are,
/// at the local URL of its path and query. A body that cannot be decoded is complained of first,
/// and then a method that is none.
pub proof fn forwarded_request_is_made_locally(
    local_addr: &str,
    request: ForwardRequest,
    path: &str,
    query: Option<&str>,
    url: String,
    planned: Result<LocalRequest, ProxyError>,
)
    requires
        path@ == request.path@,
        match request.query {
            Some(given) => query is Some && query->Some_0@ == given@,
            None => query is None,
        },
        call_ensures(local_request_url, (local_addr, path, query), url),
        call_ensures(plan_local_request, (local_addr, request), planned),
    ensures
        ({
            let decoded = protocol::standard_decoded(request.body_base64@);
            match planned {
                Ok(local) => {
                    &&& decoded == Ok::<_, protocol::DecodeBodyError>(local.body@)
                    &&& http_rules::is_http_token(request.method@)
                    &&& local.method@ == request.method@
                    &&& local.url@ == url@
                    &&& local.headers@.len() == request.headers@.len()
                    &&& forall|i: int|
                        0 <= i < request.headers@.len() ==> {
                            &&& (#[trigger] local.headers@[i]).name@ == request.headers@[i].name@
                            &&& local.headers@[i].value@ == request.headers@[i].value@
                        }
                },
                Err(ProxyError::UndecodableBody) => decoded is Err,
                Err(ProxyError::InvalidMethod) => decoded is Ok && !http_rules::is_http_token(
                    request.method@,
                ),
                Err(_) => false,
            }
        }),
{
    if let Ok(local) = planned {
        lemma_same_headers(local.headers@, request.headers@);
    }
}

} // verus!
