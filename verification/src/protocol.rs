//! The control protocol that the relay and its clients speak.
use base64::engine::general_purpose::STANDARD;
use base64::Engine;
use vstd::prelude::*;

verus! {

/// What a tunnel carries.
#[derive(Debug, Clone, Copy, PartialEq, Eq, Structural)]
pub enum TunnelProtocol {
    Http,
}

/// A client asks the relay for a tunnel to one of its local ports.
#[derive(Debug, Clone, PartialEq, Eq)]
pub struct CreateTunnelRequest {
    pub protocol: TunnelProtocol,
    pub port: u16,
    pub subdomain: Option<String>,
}

/// The relay has reserved a tunnel.
#[derive(Debug, Clone, PartialEq, Eq)]
pub struct TunnelCreated {
    pub tunnel_id: String,
    pub url: String,
    pub local_addr: String,
    pub registration_token: String,
}

/// A client claims a reserved tunnel.
#[derive(Debug, Clone, PartialEq, Eq)]
pub struct RegisterClient {
    pub tunnel_id: String,
    pub local_addr: String,
    pub registration_token: String,
}

/// The relay confirms a claim.
#[derive(Debug, Clone, PartialEq, Eq)]
pub struct ClientRegistered {
    pub tunnel_id: String,
}

/// A sign of life for a tunnel.
#[derive(Debug, Clone, PartialEq, Eq)]
pub struct Heartbeat {
    pub tunnel_id: String,
}

/// One HTTP header.
#[derive(Debug, Clone, PartialEq, Eq)]
pub struct Header {
    pub name: String,
    pub value: String,
}

/// A public request on its way to the client.
#[derive(Debug, Clone, PartialEq, Eq)]
pub struct ForwardRequest {
    pub tunnel_id: String,
    pub request_id: String,
    pub method: String,
    pub path: String,
    pub query: Option<String>,
    pub headers: Vec<Header>,
    pub body_base64: String,
}

/// The client's answer to a forwarded request.
#[derive(Debug, Clone, PartialEq, Eq)]
pub struct ForwardResponse {
    pub request_id: String,
    pub status: u16,
    pub headers: Vec<Header>,
    pub body_base64: String,
}

/// Every message of the control protocol.
#[derive(Debug, Clone, PartialEq, Eq)]
pub enum ControlMessage {
    CreateTunnel(CreateTunnelRequest),
    TunnelCreated(TunnelCreated),
    RegisterClient(RegisterClient),
    ClientRegistered(ClientRegistered),
    Heartbeat(Heartbeat),
    ForwardRequest(ForwardRequest),
    ForwardResponse(ForwardResponse),
}

/// What comes in on a control channel.
#[derive(Debug, Clone, PartialEq, Eq)]
pub enum Incoming {
    Control(ControlMessage),
    /// A text that is no control message.
    Undecodable,
    /// A frame that is not text.
    OtherFrame,
    /// The channel has ended or failed.
    Closed,
}

/// The text of an optional string.
pub open spec fn text_of(s: Option<String>) -> Option<Seq<char>> {
    match s {
        Some(s) => Some(s@),
        None => None,
    }
}

/// What a [`CreateTunnelRequest`] says.
#[verifier::ext_equal]
pub ghost struct CreateTunnelRequestView {
    pub protocol: TunnelProtocol,
    pub port: u16,
    pub subdomain: Option<Seq<char>>,
}

impl View for CreateTunnelRequest {
    type V = CreateTunnelRequestView;

    open spec fn view(&self) -> CreateTunnelRequestView {
        CreateTunnelRequestView {
            protocol: self.protocol,
            port: self.port,
            subdomain: text_of(self.subdomain),
        }
    }
}

/// What a [`TunnelCreated`] says.
#[verifier::ext_equal]
pub ghost struct TunnelCreatedView {
    pub tunnel_id: Seq<char>,
    pub url: Seq<char>,
    pub local_addr: Seq<char>,
    pub registration_token: Seq<char>,
}

impl View for TunnelCreated {
    type V = TunnelCreatedView;

    open spec fn view(&self) -> TunnelCreatedView {
        TunnelCreatedView {
            tunnel_id: self.tunnel_id@,
            url: self.url@,
            local_addr: self.local_addr@,
            registration_token: self.registration_token@,
        }
    }
}

/// What a [`RegisterClient`] says.
#[verifier::ext_equal]
pub ghost struct RegisterClientView {
    pub tunnel_id: Seq<char>,
    pub local_addr: Seq<char>,
    pub registration_token: Seq<char>,
}

impl View for RegisterClient {
    type V = RegisterClientView;

    open spec fn view(&self) -> RegisterClientView {
        RegisterClientView {
            tunnel_id: self.tunnel_id@,
            local_addr: self.local_addr@,
            registration_token: self.registration_token@,
        }
    }
}

/// What a [`Header`] says.
#[verifier::ext_equal]
pub ghost struct HeaderView {
    pub name: Seq<char>,
    pub value: Seq<char>,
}

impl View for Header {
    type V = HeaderView;

    open spec fn view(&self) -> HeaderView {
        HeaderView { name: self.name@, value: self.value@ }
    }
}

/// What a list of headers says, in order.
pub open spec fn headers_view(headers: Seq<Header>) -> Seq<HeaderView> {
    headers.map_values(|h: Header| h@)
}

/// What a [`ForwardRequest`] says.
#[verifier::ext_equal]
pub ghost struct ForwardRequestView {
    pub tunnel_id: Seq<char>,
    pub request_id: Seq<char>,
    pub method: Seq<char>,
    pub path: Seq<char>,
    pub query: Option<Seq<char>>,
    pub headers: Seq<HeaderView>,
    pub body_base64: Seq<char>,
}

impl View for ForwardRequest {
    type V = ForwardRequestView;

    open spec fn view(&self) -> ForwardRequestView {
        ForwardRequestView {
            tunnel_id: self.tunnel_id@,
            request_id: self.request_id@,
            method: self.method@,
            path: self.path@,
            query: text_of(self.query),
            headers: headers_view(self.headers@),
            body_base64: self.body_base64@,
        }
    }
}

/// What a [`ForwardResponse`] says.
#[verifier::ext_equal]
pub ghost struct ForwardResponseView {
    pub request_id: Seq<char>,
    pub status: u16,
    pub headers: Seq<HeaderView>,
    pub body_base64: Seq<char>,
}

impl View for ForwardResponse {
    type V = ForwardResponseView;

    open spec fn view(&self) -> ForwardResponseView {
        ForwardResponseView {
            request_id: self.request_id@,
            status: self.status,
            headers: headers_view(self.headers@),
            body_base64: self.body_base64@,
        }
    }
}

/// What a [`ControlMessage`] says.
#[verifier::ext_equal]
pub ghost enum ControlMessageView {
    CreateTunnel(CreateTunnelRequestView),
    TunnelCreated(TunnelCreatedView),
    RegisterClient(RegisterClientView),
    ClientRegistered(Seq<char>),
    Heartbeat(Seq<char>),
    ForwardRequest(ForwardRequestView),
    ForwardResponse(ForwardResponseView),
}

impl View for ControlMessage {
    type V = ControlMessageView;

    open spec fn view(&self) -> ControlMessageView {
        match *self {
            ControlMessage::CreateTunnel(m) => ControlMessageView::CreateTunnel(m@),
            ControlMessage::TunnelCreated(m) => ControlMessageView::TunnelCreated(m@),
            ControlMessage::RegisterClient(m) => ControlMessageView::RegisterClient(m@),
            ControlMessage::ClientRegistered(m) => ControlMessageView::ClientRegistered(
                m.tunnel_id@,
            ),
            ControlMessage::Heartbeat(m) => ControlMessageView::Heartbeat(m.tunnel_id@),
            ControlMessage::ForwardRequest(m) => ControlMessageView::ForwardRequest(m@),
            ControlMessage::ForwardResponse(m) => ControlMessageView::ForwardResponse(m@),
        }
    }
}

/// Why a text is not the standard base64 form of any bytes.
#[derive(Debug, Clone, Copy, PartialEq, Eq, Structural)]
pub enum DecodeBodyError {
    /// A byte that has no place at this offset.
    InvalidByte(usize, u8),
    /// The number of symbols leaves a single symbol over.
    InvalidLength(usize),
    /// The last symbol, at this offset, carries bits that belong to no byte.
    InvalidLastSymbol(usize, u8),
    /// The padding is missing or is not the one that belongs there.
    InvalidPadding,
}

/// The text that base64's `STANDARD` engine gives for some bytes.
pub uninterp spec fn standard_encoded(bytes: Seq<u8>) -> Seq<char>;

/// What base64's `STANDARD` engine makes of a text.
pub uninterp spec fn standard_decoded(text: Seq<char>) -> Result<Seq<u8>, DecodeBodyError>;

/// The base64 form of a body of this length can be held in memory.
pub open spec fn fits_base64(len: nat) -> bool {
    (len + 2) / 3 * 4 <= isize::MAX
}

/// Calls `Engine::encode` of base64's `STANDARD` engine. Its result depends on the bytes alone,
/// and the same engine decodes it to these bytes again. It allocates the whole result at once,
/// which panics where the result would be longer than a vector can be.
#[verifier::external_body]
fn encode_standard(bytes: &[u8]) -> (text: String)
    requires
        fits_base64(bytes@.len()),
    ensures
        text@ == standard_encoded(bytes@),
        standard_decoded(text@) is Ok,
        standard_decoded(text@)->Ok_0 == bytes@,
{
    STANDARD.encode(bytes)
}

/// Calls `Engine::decode` of base64's `STANDARD` engine. Its result depends on the text alone.
/// The engine wants canonical padding and no stray bits in the last symbol, so that it decodes no
/// text but the one that it gives for the decoded bytes.
#[verifier::external_body]
fn decode_standard(text: &str) -> (bytes: Result<Vec<u8>, DecodeBodyError>)
    ensures
        match bytes {
            Ok(bytes) => standard_decoded(text@) is Ok && standard_decoded(text@)->Ok_0 == bytes@
                && text@ == standard_encoded(bytes@),
            Err(error) => standard_decoded(text@) is Err && standard_decoded(text@)->Err_0 == error,
        },
{
    STANDARD.decode(text).map_err(|error| match error {
        base64::DecodeError::InvalidByte(at, byte) => DecodeBodyError::InvalidByte(at, byte),
        base64::DecodeError::InvalidLength(len) => DecodeBodyError::InvalidLength(len),
        base64::DecodeError::InvalidLastSymbol(at, byte) => {
            DecodeBodyError::InvalidLastSymbol(at, byte)
        },
        base64::DecodeError::InvalidPadding => DecodeBodyError::InvalidPadding,
    })
}

/// Whether a body of this length can be encoded: tells [`fits_base64`].
pub fn body_fits(len: usize) -> (fits: bool)
    ensures
        fits == fits_base64(len as nat),
{
    let quads: usize = len / 3 + if len % 3 == 0 {
        0
    } else {
        1
    };
    quads <= isize::MAX as usize / 4
}

/// The form in which a body travels in a control message.
pub fn encode_body(body: &[u8]) -> (text: String)
    requires
        fits_base64(body@.len()),
    ensures
        text@ == standard_encoded(body@),
        standard_decoded(text@) is Ok,
        standard_decoded(text@)->Ok_0 == body@,
{
    encode_standard(body)
}

/// The body that travelled in a control message.
pub fn decode_body(body_base64: &str) -> (body: Result<Vec<u8>, DecodeBodyError>)
    ensures
        match body {
            Ok(body) => standard_decoded(body_base64@) is Ok && standard_decoded(
                body_base64@,
            )->Ok_0 == body@ && body_base64@ == standard_encoded(body@),
            Err(error) => standard_decoded(body_base64@) is Err && standard_decoded(
                body_base64@,
            )->Err_0 == error,
        },
{
    decode_standard(body_base64)
}

/// A message that asks for a tunnel to port 3000 under a name of the relay's choosing.
pub fn _protocol_example() -> (message: ControlMessage)
    ensures
        message@ == ControlMessageView::CreateTunnel(
            CreateTunnelRequestView {
                protocol: TunnelProtocol::Http,
                port: 3000,
                subdomain: None,
            },
        ),
{
    ControlMessage::CreateTunnel(
        CreateTunnelRequest { protocol: TunnelProtocol::Http, port: 3000, subdomain: None },
    )
}

} // verus!
