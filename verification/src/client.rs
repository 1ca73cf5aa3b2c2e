//! The client: how it claims a tunnel, and how it answers forwarded requests.
use crate::books;
use crate::headers;
use crate::headers::answered_headers;
use crate::http_rules;
use crate::http_rules::accepts_method;
use crate::protocol;
use crate::protocol::{
    decode_body, encode_body, ControlMessage, CreateTunnelRequest, ForwardRequest, ForwardResponse,
    Header, Heartbeat, Incoming, RegisterClient, TunnelCreated, TunnelProtocol,
};
use crate::subdomain;
use crate::text;
use crate::text::{join2, join3, same_text, without_trailing_char};
use crate::tunnel_manager::RegisterError;
use crate::urls;
use crate::urls::{local_browser_url, local_request_url, public_host};
use axum::http::{HeaderMap, HeaderValue};
use vstd::prelude::*;

verus! {

/// The time between two signs of life: fifteen seconds.
pub const HEARTBEAT_INTERVAL: u128 = 15_000_000_000;

/// Why the client gives up.
#[derive(Debug, Clone, Copy, PartialEq, Eq, Structural)]
pub enum ClientError {
    /// The relay answered a request for a tunnel with such a request.
    UnexpectedMessage,
    /// The relay answered a request for a tunnel with a confirmation.
    UnexpectedRegistration,
    /// The relay answered a request for a tunnel with a claim.
    RequestEcho,
    /// The relay answered a request for a tunnel with a sign of life.
    EarlyHeartbeat,
    /// The relay answered a request for a tunnel with a forwarded message.
    EarlyForwarding,
    /// The relay did not confirm the claim.
    NotConfirmed,
    /// The control channel went away.
    ChannelClosed,
    /// A message on the control channel made no sense.
    UndecodableMessage,
}

/// What a [`ClientError`] says.
pub open spec fn client_error_text(error: ClientError) -> Seq<char> {
    match error {
        ClientError::UnexpectedMessage => "relay server returned an unexpected message"@,
        ClientError::UnexpectedRegistration =>
            "relay server returned an unexpected registration message"@,
        ClientError::RequestEcho => "relay server returned an invalid request echo"@,
        ClientError::EarlyHeartbeat => "relay server returned a heartbeat before registration"@,
        ClientError::EarlyForwarding =>
            "relay server returned a forwarding message before registration"@,
        ClientError::NotConfirmed => "relay server failed to confirm client registration"@,
        ClientError::ChannelClosed => "control channel closed unexpectedly"@,
        ClientError::UndecodableMessage => "failed to decode control message"@,
    }
}

impl ClientError {
    /// Computes [`client_error_text`].
    pub fn message(&self) -> (message: &'static str)
        ensures
            message@ == client_error_text(*self),
    {
        match self {
            ClientError::UnexpectedMessage => "relay server returned an unexpected message",
            ClientError::UnexpectedRegistration =>
                "relay server returned an unexpected registration message",
            ClientError::RequestEcho => "relay server returned an invalid request echo",
            ClientError::EarlyHeartbeat => "relay server returned a heartbeat before registration",
            ClientError::EarlyForwarding =>
                "relay server returned a forwarding message before registration",
            ClientError::NotConfirmed => "relay server failed to confirm client registration",
            ClientError::ChannelClosed => "control channel closed unexpectedly",
            ClientError::UndecodableMessage => "failed to decode control message",
        }
    }
}

/// Why a message is not the answer to a request for a tunnel.
pub open spec fn creation_objection(message: protocol::ControlMessageView) -> Option<ClientError> {
    match message {
        protocol::ControlMessageView::TunnelCreated(_) => None,
        protocol::ControlMessageView::CreateTunnel(_) => Some(ClientError::UnexpectedMessage),
        protocol::ControlMessageView::ClientRegistered(_) => Some(
            ClientError::UnexpectedRegistration,
        ),
        protocol::ControlMessageView::RegisterClient(_) => Some(ClientError::RequestEcho),
        protocol::ControlMessageView::Heartbeat(_) => Some(ClientError::EarlyHeartbeat),
        protocol::ControlMessageView::ForwardRequest(_) => Some(ClientError::EarlyForwarding),
        protocol::ControlMessageView::ForwardResponse(_) => Some(ClientError::EarlyForwarding),
    }
}

/// The message by which a client asks for a tunnel to a port, under a name where it gives one.
pub fn creation_request(port: u16, subdomain: Option<String>) -> (request: CreateTunnelRequest)
    ensures
        request@ == (protocol::CreateTunnelRequestView {
            protocol: TunnelProtocol::Http,
            port,
            subdomain: protocol::text_of(subdomain),
        }),
{
    CreateTunnelRequest { protocol: TunnelProtocol::Http, port, subdomain }
}

/// Reads the relay's answer to a request for a tunnel.
pub fn parse_created_message(message: ControlMessage) -> (created: Result<
    TunnelCreated,
    ClientError,
>)
    ensures
        match created {
            Ok(created) => message@ == protocol::ControlMessageView::TunnelCreated(created@),
            Err(error) => creation_objection(message@) == Some(error),
        },
{
    match message {
        ControlMessage::TunnelCreated(created) => Ok(created),
        ControlMessage::CreateTunnel(_) => Err(ClientError::UnexpectedMessage),
        ControlMessage::ClientRegistered(_) => Err(ClientError::UnexpectedRegistration),
        ControlMessage::RegisterClient(_) => Err(ClientError::RequestEcho),
        ControlMessage::Heartbeat(_) => Err(ClientError::EarlyHeartbeat),
        ControlMessage::ForwardRequest(_) => Err(ClientError::EarlyForwarding),
        ControlMessage::ForwardResponse(_) => Err(ClientError::EarlyForwarding),
    }
}

/// The message confirms the claim of this tunnel.
pub open spec fn confirms(message: protocol::ControlMessageView, tunnel_id: Seq<char>) -> bool {
    message == protocol::ControlMessageView::ClientRegistered(tunnel_id)
}

/// Reads the relay's answer to a claim.
pub fn ensure_registered(message: ControlMessage, tunnel_id: &str) -> (confirmed: Result<
    (),
    ClientError,
>)
    ensures
        confirmed == (if confirms(message@, tunnel_id@) {
            Ok(())
        } else {
            Err(ClientError::NotConfirmed)
        }),
{
    match message {
        ControlMessage::ClientRegistered(registered) => {
            if same_text(registered.tunnel_id.as_str(), tunnel_id) {
                Ok(())
            } else {
                Err(ClientError::NotConfirmed)
            }
        },
        _ => Err(ClientError::NotConfirmed),
    }
}

/// The message by which a client claims the tunnel that was reserved for it.
pub open spec fn claim_of(created: protocol::TunnelCreatedView) -> protocol::ControlMessageView {
    protocol::ControlMessageView::RegisterClient(
        protocol::RegisterClientView {
            tunnel_id: created.tunnel_id,
            local_addr: created.local_addr,
            registration_token: created.registration_token,
        },
    )
}

/// Computes [`claim_of`].
pub fn claim_message(created: &TunnelCreated) -> (message: ControlMessage)
    ensures
        message@ == claim_of(created@),
{
    ControlMessage::RegisterClient(
        RegisterClient {
            tunnel_id: created.tunnel_id.clone(),
            local_addr: created.local_addr.clone(),
            registration_token: created.registration_token.clone(),
        },
    )
}

/// The lines of some text.
pub open spec fn lines_view(lines: Seq<String>) -> Seq<Seq<char>> {
    lines.map_values(|line: String| line@)
}

/// What the client prints when its tunnel is reserved.
pub open spec fn banner(server: Seq<char>, created: protocol::TunnelCreatedView) -> Seq<Seq<char>> {
    seq![
        "OpenRok v0.1.0"@,
        ""@,
        "Session Status: Online"@,
        ""@,
        "Tunnel ID: "@ + created.tunnel_id,
        "Forwarding"@,
        created.url + " -> "@ + created.local_addr,
        "Local browser"@,
        urls::preview_url(server, created.url),
        "Local test"@,
        "curl -H 'Host: "@ + urls::host_in(created.url) + "' "@ + urls::base_url(server) + "/"@,
        "Note"@,
        "The public URL needs DNS/TLS to work directly in a browser."@,
    ]
}

/// Computes [`banner`].
pub fn banner_lines(server: &str, created: &TunnelCreated) -> (lines: Vec<String>)
    ensures
        lines_view(lines@) == banner(server@, created@),
{
    let mut lines: Vec<String> = Vec::new();
    lines.push("OpenRok v0.1.0".to_owned());
    lines.push("".to_owned());
    lines.push("Session Status: Online".to_owned());
    lines.push("".to_owned());
    lines.push(join2("Tunnel ID: ", created.tunnel_id.as_str()));
    lines.push("Forwarding".to_owned());
    lines.push(join3(created.url.as_str(), " -> ", created.local_addr.as_str()));
    lines.push("Local browser".to_owned());
    lines.push(local_browser_url(server, created.url.as_str()));
    lines.push("Local test".to_owned());
    let mut command = join3("curl -H 'Host: ", public_host(created.url.as_str()).as_str(), "' ");
    command.append(without_trailing_char(server, '/'));
    command.append("/");
    lines.push(command);
    lines.push("Note".to_owned());
    lines.push("The public URL needs DNS/TLS to work directly in a browser.".to_owned());
    assert(lines_view(lines@) =~= banner(server@, created@));
    lines
}

/// How far the client's end of the control channel is.
#[derive(Debug, Clone, Copy, PartialEq, Eq, Structural)]
pub enum Phase {
    /// The claim was sent, and its confirmation is awaited.
    Registering,
    /// The tunnel is live.
    Live,
}

/// What happens to the client's end of the control channel.
#[derive(Debug, Clone, PartialEq, Eq)]
pub enum ChannelEvent {
    Incoming(Incoming),
    /// The time for a sign of life has come.
    Tick,
    /// The user wants to stop.
    Interrupt,
}

/// What the client does next.
#[derive(Debug, Clone, PartialEq, Eq)]
pub enum ChannelAction {
    Wait,
    Send(ControlMessage),
    /// Pass the request on to the local service, and send its answer.
    Forward(ForwardRequest),
    Stop,
    Fail(ClientError),
}

/// What a [`ChannelAction`] says.
#[verifier::ext_equal]
pub ghost enum ActionView {
    Wait,
    Send(protocol::ControlMessageView),
    Forward(protocol::ForwardRequestView),
    Stop,
    Fail(ClientError),
}

impl View for ChannelAction {
    type V = ActionView;

    open spec fn view(&self) -> ActionView {
        match *self {
            ChannelAction::Wait => ActionView::Wait,
            ChannelAction::Send(message) => ActionView::Send(message@),
            ChannelAction::Forward(request) => ActionView::Forward(request@),
            ChannelAction::Stop => ActionView::Stop,
            ChannelAction::Fail(error) => ActionView::Fail(error),
        }
    }
}

/// What the client does while it waits for the confirmation of its claim.
pub open spec fn registering_step(tunnel_id: Seq<char>, event: ChannelEvent) -> (
    Phase,
    ActionView,
) {
    match event {
        ChannelEvent::Incoming(Incoming::Control(message)) => if confirms(message@, tunnel_id) {
            (Phase::Live, ActionView::Wait)
        } else {
            (Phase::Registering, ActionView::Fail(ClientError::NotConfirmed))
        },
        ChannelEvent::Incoming(Incoming::Undecodable) => (
            Phase::Registering,
            ActionView::Fail(ClientError::UndecodableMessage),
        ),
        ChannelEvent::Incoming(Incoming::OtherFrame) => (Phase::Registering, ActionView::Wait),
        ChannelEvent::Incoming(Incoming::Closed) => (
            Phase::Registering,
            ActionView::Fail(ClientError::ChannelClosed),
        ),
        ChannelEvent::Tick => (Phase::Registering, ActionView::Wait),
        ChannelEvent::Interrupt => (Phase::Registering, ActionView::Stop),
    }
}

/// What the client does while its tunnel is live.
pub open spec fn live_action(tunnel_id: Seq<char>, event: ChannelEvent) -> ActionView {
    match event {
        ChannelEvent::Incoming(Incoming::Control(ControlMessage::ForwardRequest(request))) =>
            ActionView::Forward(request@),
        ChannelEvent::Incoming(Incoming::Control(_)) => ActionView::Wait,
        ChannelEvent::Incoming(Incoming::Undecodable) => ActionView::Fail(
            ClientError::UndecodableMessage,
        ),
        ChannelEvent::Incoming(Incoming::OtherFrame) => ActionView::Wait,
        ChannelEvent::Incoming(Incoming::Closed) => ActionView::Fail(ClientError::ChannelClosed),
        ChannelEvent::Tick => ActionView::Send(protocol::ControlMessageView::Heartbeat(tunnel_id)),
        ChannelEvent::Interrupt => ActionView::Stop,
    }
}

/// What an event on the control channel leads to.
pub open spec fn channel_step(tunnel_id: Seq<char>, phase: Phase, event: ChannelEvent) -> (
    Phase,
    ActionView,
) {
    match phase {
        Phase::Registering => registering_step(tunnel_id, event),
        Phase::Live => (Phase::Live, live_action(tunnel_id, event)),
    }
}

/// The client's end of the control channel of a tunnel.
#[derive(Debug, Clone, PartialEq, Eq)]
pub struct ControlChannel {
    pub tunnel_id: String,
    pub phase: Phase,
}

impl ControlChannel {
    /// A channel on which the claim of the tunnel was sent.
    pub fn new(tunnel_id: &str) -> (channel: Self)
        ensures
            channel.tunnel_id@ == tunnel_id@,
            channel.phase == Phase::Registering,
    {
        ControlChannel { tunnel_id: tunnel_id.to_owned(), phase: Phase::Registering }
    }

    /// Takes an event, and tells what to do next.
    pub fn step(&mut self, event: ChannelEvent) -> (action: ChannelAction)
        ensures
            final(self).tunnel_id == old(self).tunnel_id,
            (final(self).phase, action@) == channel_step(
                old(self).tunnel_id@,
                old(self).phase,
                event,
            ),
    {
        match event {
            ChannelEvent::Incoming(incoming) => self.handle_incoming(incoming),
            ChannelEvent::Tick => match self.phase {
                Phase::Registering => ChannelAction::Wait,
                Phase::Live => ChannelAction::Send(
                    ControlMessage::Heartbeat(Heartbeat { tunnel_id: self.tunnel_id.clone() }),
                ),
            },
            ChannelEvent::Interrupt => ChannelAction::Stop,
        }
    }

    fn handle_incoming(&mut self, incoming: Incoming) -> (action: ChannelAction)
        ensures
            final(self).tunnel_id == old(self).tunnel_id,
            (final(self).phase, action@) == channel_step(
                old(self).tunnel_id@,
                old(self).phase,
                ChannelEvent::Incoming(incoming),
            ),
    {
        let message = match incoming {
            Incoming::Control(message) => message,
            Incoming::Undecodable => {
                return ChannelAction::Fail(ClientError::UndecodableMessage);
            },
            Incoming::OtherFrame => {
                return ChannelAction::Wait;
            },
            Incoming::Closed => {
                return ChannelAction::Fail(ClientError::ChannelClosed);
            },
        };
        match self.phase {
            Phase::Registering => match ensure_registered(message, self.tunnel_id.as_str()) {
                Ok(()) => {
                    self.phase = Phase::Live;
                    ChannelAction::Wait
                },
                Err(error) => ChannelAction::Fail(error),
            },
            Phase::Live => match message {
                ControlMessage::ForwardRequest(request) => ChannelAction::Forward(request),
                _ => ChannelAction::Wait,
            },
        }
    }
}

/// Why a forwarded request got no answer from the local service.
#[derive(Debug, Clone, Copy, PartialEq, Eq, Structural)]
pub enum ProxyError {
    UndecodableBody,
    InvalidMethod,
    Unreachable,
    UnreadableAnswer,
}

/// What a [`ProxyError`] says.
pub open spec fn proxy_error_text(error: ProxyError) -> Seq<char> {
    match error {
        ProxyError::UndecodableBody => "failed to decode forwarded body"@,
        ProxyError::InvalidMethod => "failed to parse forwarded method"@,
        ProxyError::Unreachable => "failed to proxy request to localhost"@,
        ProxyError::UnreadableAnswer => "failed to read local response body"@,
    }
}

impl ProxyError {
    /// Computes [`proxy_error_text`].
    pub fn message(&self) -> (message: &'static str)
        ensures
            message@ == proxy_error_text(*self),
    {
        match self {
            ProxyError::UndecodableBody => "failed to decode forwarded body",
            ProxyError::InvalidMethod => "failed to parse forwarded method",
            ProxyError::Unreachable => "failed to proxy request to localhost",
            ProxyError::UnreadableAnswer => "failed to read local response body",
        }
    }
}

/// A request to the local service.
#[derive(Debug, Clone, PartialEq, Eq)]
pub struct LocalRequest {
    pub method: String,
    pub url: String,
    pub headers: Vec<Header>,
    pub body: Vec<u8>,
}

/// What a [`LocalRequest`] says.
#[verifier::ext_equal]
pub ghost struct LocalRequestView {
    pub method: Seq<char>,
    pub url: Seq<char>,
    pub headers: Seq<protocol::HeaderView>,
    pub body: Seq<u8>,
}

impl View for LocalRequest {
    type V = LocalRequestView;

    open spec fn view(&self) -> LocalRequestView {
        LocalRequestView {
            method: self.method@,
            url: self.url@,
            headers: protocol::headers_view(self.headers@),
            body: self.body@,
        }
    }
}

/// The request to the local service at `local_addr` by which a forwarded request is answered. Of a
/// body that cannot be decoded and a method that is none, the body is complained of first.
pub open spec fn local_request(
    local_addr: Seq<char>,
    request: protocol::ForwardRequestView,
) -> Result<LocalRequestView, ProxyError> {
    match protocol::standard_decoded(request.body_base64) {
        Err(_) => Err(ProxyError::UndecodableBody),
        Ok(body) => if !http_rules::is_http_token(request.method) {
            Err(ProxyError::InvalidMethod)
        } else {
            Ok(
                LocalRequestView {
                    method: request.method,
                    url: urls::local_url(local_addr, request.path, request.query),
                    headers: request.headers,
                    body,
                },
            )
        },
    }
}

/// Computes [`local_request`].
pub fn plan_local_request(local_addr: &str, request: ForwardRequest) -> (planned: Result<
    LocalRequest,
    ProxyError,
>)
    ensures
        match planned {
            Ok(planned) => local_request(local_addr@, request@) == Ok::<_, ProxyError>(planned@),
            Err(error) => local_request(local_addr@, request@) == Err::<LocalRequestView, _>(error),
        },
{
    let body: Vec<u8> = match decode_body(request.body_base64.as_str()) {
        Ok(body) => body,
        Err(_) => {
            return Err(ProxyError::UndecodableBody);
        },
    };
    if !accepts_method(request.method.as_str()) {
        return Err(ProxyError::InvalidMethod);
    }
    let query = match &request.query {
        Some(query) => Some(query.as_str()),
        None => None,
    };
    let url = local_request_url(local_addr, request.path.as_str(), query);
    Ok(LocalRequest { method: request.method, url, headers: request.headers, body })
}

/// What the local service answered.
#[derive(Debug)]
pub struct LocalAnswer {
    pub status: u16,
    pub headers: HeaderMap<HeaderValue>,
    pub body: Vec<u8>,
}

/// The answer to a forwarded request that the local service answered so.
pub open spec fn answered_view(
    request_id: Seq<char>,
    status: u16,
    headers: Seq<(Seq<char>, Seq<u8>)>,
    body: Seq<u8>,
) -> protocol::ForwardResponseView {
    protocol::ForwardResponseView {
        request_id,
        status,
        headers: headers::carried(headers),
        body_base64: protocol::standard_encoded(body),
    }
}

/// Computes [`answered_view`].
pub fn local_answer(
    request_id: String,
    status: u16,
    headers: &HeaderMap<HeaderValue>,
    body: &Vec<u8>,
) -> (response: ForwardResponse)
    requires
        protocol::fits_base64(body@.len()),
    ensures
        response@ == answered_view(
            request_id@,
            status,
            headers::header_entries(*headers),
            body@,
        ),
        protocol::standard_decoded(response.body_base64@) is Ok,
        protocol::standard_decoded(response.body_base64@)->Ok_0 == body@,
{
    ForwardResponse {
        request_id,
        status,
        headers: answered_headers(headers),
        body_base64: encode_body(body.as_slice()),
    }
}

/// The text that stands in for the answer of the local service where there is none.
pub open spec fn apology(error: ProxyError) -> Seq<char> {
    "proxy error: "@ + proxy_error_text(error)
}

/// What the answer to a failed request says.
pub open spec fn failed_view(
    request_id: Seq<char>,
    error: ProxyError,
) -> protocol::ForwardResponseView {
    protocol::ForwardResponseView {
        request_id,
        status: 502,
        headers: seq![protocol::HeaderView { name: "content-type"@, value: "text/plain"@ }],
        body_base64: protocol::standard_encoded(vstd::utf8::encode_utf8(apology(error))),
    }
}

/// The answer to a forwarded request that got no answer from the local service.
pub fn failed_answer(request_id: String, error: ProxyError) -> (response: ForwardResponse)
    ensures
        response@ == failed_view(request_id@, error),
        protocol::standard_decoded(response.body_base64@) is Ok,
        protocol::standard_decoded(response.body_base64@)->Ok_0 == vstd::utf8::encode_utf8(
            apology(error),
        ),
{
    let text = join2("proxy error: ", error.message());
    proof {
        reveal_strlit("proxy error: ");
        reveal_strlit("failed to decode forwarded body");
        reveal_strlit("failed to parse forwarded method");
        reveal_strlit("failed to proxy request to localhost");
        reveal_strlit("failed to read local response body");
        text::utf8_takes_four_bytes_at_most(text@);
    }
    let mut headers: Vec<Header> = Vec::new();
    headers.push(Header { name: "content-type".to_owned(), value: "text/plain".to_owned() });
    let response = ForwardResponse {
        request_id,
        status: 502,
        headers,
        body_base64: encode_body(text.as_str().as_bytes()),
    };
    assert(response@.headers =~= seq![
        protocol::HeaderView { name: "content-type"@, value: "text/plain"@ },
    ]);
    response
}

/// The message that answers the forwarded request with this id: the answer of the local service, or
/// an apology. Either carries the id of the request.
pub open spec fn reply_view(
    request_id: Seq<char>,
    outcome: Result<LocalAnswer, ProxyError>,
) -> protocol::ForwardResponseView {
    match outcome {
        Ok(answer) => answered_view(
            request_id,
            answer.status,
            headers::header_entries(answer.headers),
            answer.body@,
        ),
        Err(error) => failed_view(request_id, error),
    }
}

/// Computes [`reply_view`].
pub fn reply_message(request_id: String, outcome: Result<LocalAnswer, ProxyError>) -> (message:
    ControlMessage)
    requires
        outcome matches Ok(answer) ==> protocol::fits_base64(answer.body@.len()),
    ensures
        message@ == protocol::ControlMessageView::ForwardResponse(reply_view(request_id@, outcome)),
        reply_view(request_id@, outcome).request_id == request_id@,
        protocol::standard_decoded(reply_view(request_id@, outcome).body_base64) is Ok,
        protocol::standard_decoded(reply_view(request_id@, outcome).body_base64)->Ok_0 == (
        match outcome {
            Ok(answer) => answer.body@,
            Err(error) => vstd::utf8::encode_utf8(apology(error)),
        }),
{
    match outcome {
        Ok(answer) => ControlMessage::ForwardResponse(
            local_answer(request_id, answer.status, &answer.headers, &answer.body),
        ),
        Err(error) => ControlMessage::ForwardResponse(failed_answer(request_id, error)),
    }
}

/// The relay's confirmation of a claim takes the client live.
pub proof fn confirmation_takes_the_client_live(tunnel_id: Seq<char>, message: ControlMessage)
    requires
        message@ == protocol::ControlMessageView::ClientRegistered(tunnel_id),
    ensures
        channel_step(
            tunnel_id,
            Phase::Registering,
            ChannelEvent::Incoming(Incoming::Control(message)),
        ) == (Phase::Live, ActionView::Wait),
{
}

/// As long as its claim is not confirmed, the client sends nothing and forwards nothing.
pub proof fn nothing_is_sent_before_the_confirmation(tunnel_id: Seq<char>, event: ChannelEvent)
    ensures
        channel_step(tunnel_id, Phase::Registering, event).1 !is Send,
        channel_step(tunnel_id, Phase::Registering, event).1 !is Forward,
{
}

/// A client goes live by the confirmation of its own tunnel alone.
pub proof fn only_its_own_confirmation_takes_the_client_live(
    tunnel_id: Seq<char>,
    event: ChannelEvent,
)
    requires
        channel_step(tunnel_id, Phase::Registering, event).0 == Phase::Live,
    ensures
        event matches ChannelEvent::Incoming(Incoming::Control(message)) && message@
            == protocol::ControlMessageView::ClientRegistered(tunnel_id),
{
}

/// A live channel stays live: what comes in never takes it back, and a message that is no
/// forwarded request has no effect.
pub proof fn live_channel_stays_live(tunnel_id: Seq<char>, event: ChannelEvent)
    ensures
        channel_step(tunnel_id, Phase::Live, event).0 == Phase::Live,
        (event matches ChannelEvent::Incoming(Incoming::Control(message)) && message
            !is ForwardRequest) ==> channel_step(tunnel_id, Phase::Live, event).1
            == ActionView::Wait,
{
}

/// The claim that a client makes of the tunnel that it was given is granted, where it comes in
/// time.
pub proof fn own_claim_is_granted(
    books: books::Books,
    name: Seq<char>,
    port: u16,
    token: Seq<char>,
    reserved_at: u128,
    claimed_at: u128,
)
    requires
        books.consistent(),
        subdomain::valid_subdomain(name),
        books.free(name),
        claimed_at <= reserved_at + books::RESERVATION_TTL <= u128::MAX,
    ensures
        books.reserve_answer(name, port, token) matches Ok(created) && claim_of(created)
            matches protocol::ControlMessageView::RegisterClient(claim) && books.reserved(
            name,
            port,
            token,
            reserved_at,
        ).register_answer(
            claim.tunnel_id,
            claim.local_addr,
            claim.registration_token,
            claimed_at,
        ) == Ok::<(), RegisterError>(()),
{
}

/// The local service gets the body, the method and the headers of the public request, under the
/// same path and query at its own address.
pub proof fn forwarded_request_reaches_the_local_service(
    local_addr: Seq<char>,
    request: protocol::ForwardRequestView,
    body: Seq<u8>,
)
    requires
        protocol::standard_decoded(request.body_base64) == Ok::<Seq<u8>, protocol::DecodeBodyError>(
            body,
        ),
        http_rules::is_http_token(request.method),
    ensures
        local_request(local_addr, request) == Ok::<_, ProxyError>(
            LocalRequestView {
                method: request.method,
                url: urls::local_url(local_addr, request.path, request.query),
                headers: request.headers,
                body,
            },
        ),
{
}

} // verus!
