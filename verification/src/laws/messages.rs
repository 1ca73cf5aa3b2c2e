//! Laws on what is said: bodies on the wire, and the texts of errors and replies.
use crate::books::RESERVATION_TTL;
use crate::client::{ClientError, ProxyError, HEARTBEAT_INTERVAL};
use crate::clock::SECOND;
use crate::protocol;
use crate::protocol::{
    _protocol_example, body_fits, decode_body, encode_body, ControlMessage, DecodeBodyError,
    TunnelProtocol,
};
use crate::relay::{
    health, text_response, Reply, ANSWER_TIMEOUT, BODY_LIMIT, CREATE_WINDOW, REAP_INTERVAL,
    SESSION_MAX_AGE,
};
use crate::tunnel_manager::{DispatchError, RegisterError};
use crate::urls::FIRST_REQUEST;
use vstd::prelude::*;

verus! {

/// A body comes out as it went in.
pub proof fn body_comes_out_as_it_went_in(
    body: &[u8],
    sent: String,
    received: &str,
    decoded: Result<Vec<u8>, DecodeBodyError>,
)
    requires
        call_ensures(encode_body, (body,), sent),
        received@ == sent@,
        call_ensures(decode_body, (received,), decoded),
    ensures
        decoded is Ok,
        decoded->Ok_0@ == body@,
{
}

/// A text that can be decoded is the one that its bytes are encoded to.
pub proof fn text_goes_out_as_it_came_in(
    received: &str,
    body: Vec<u8>,
    bytes: &[u8],
    sent: String,
)
    requires
        call_ensures(decode_body, (received,), Ok::<Vec<u8>, DecodeBodyError>(body)),
        bytes@ == body@,
        call_ensures(encode_body, (bytes,), sent),
    ensures
        sent@ == received@,
{
}

/// A text that cannot be decoded is refused for the reason that the engine gives.
pub proof fn undecodable_text_is_refused(received: &str, error: DecodeBodyError)
    requires
        call_ensures(decode_body, (received,), Err::<Vec<u8>, DecodeBodyError>(error)),
    ensures
        protocol::standard_decoded(received@) == Err::<Seq<u8>, _>(error),
{
}

/// A body fits where four characters for every three bytes, the last group filled up, can be held
/// in memory.
pub proof fn body_grows_by_a_third(len: usize, fits: bool)
    requires
        call_ensures(body_fits, (len,), fits),
    ensures
        fits <==> 4 * ((len + 2) / 3) <= isize::MAX,
{
}

/// The relay tells that it is up.
pub proof fn relay_tells_that_it_is_up(answer: &'static str)
    requires
        call_ensures(health, (), answer),
    ensures
        answer@ == "ok"@,
{
}

/// A text is replied as it is, under the status that was given.
pub proof fn text_is_replied_as_it_is(status: u16, line: &str, reply: Reply)
    requires
        call_ensures(text_response, (status, line), reply),
    ensures
        reply matches Reply::Text { status: shown, text } && shown == status && text@ == line@,
{
}

/// The example asks for an HTTP tunnel to port 3000, under no name.
pub proof fn example_asks_for_a_tunnel(message: ControlMessage)
    requires
        call_ensures(_protocol_example, (), message),
    ensures
        message is CreateTunnel,
        message->CreateTunnel_0.protocol == TunnelProtocol::Http,
        message->CreateTunnel_0.port == 3000,
        message->CreateTunnel_0.subdomain is None,
{
}

/// Each reason to refuse a claim is told in its own words.
pub proof fn refused_claims_are_explained(error: &RegisterError, message: &'static str)
    requires
        call_ensures(RegisterError::message, (error,), message),
    ensures
        match *error {
            RegisterError::NoReservation => message@ == "no pending tunnel reservation found"@,
            RegisterError::InvalidToken => message@ == "invalid registration token"@,
            RegisterError::ReservationExpired => message@ == "tunnel reservation expired"@,
            RegisterError::AddressMismatch => message@
                == "local address does not match reserved tunnel"@,
        },
{
}

/// Each reason why a request was not handed to a client is told in its own words.
pub proof fn failed_dispatches_are_explained(error: &DispatchError, message: &'static str)
    requires
        call_ensures(DispatchError::message, (error,), message),
    ensures
        match *error {
            DispatchError::NoSession => message@ == "no active tunnel session found"@,
            DispatchError::SendFailed => message@ == "failed to send forwarded request to client"@,
        },
{
}

/// Each reason why the local service gave no answer is told in its own words.
pub proof fn missing_answers_are_explained(error: &ProxyError, message: &'static str)
    requires
        call_ensures(ProxyError::message, (error,), message),
    ensures
        match *error {
            ProxyError::UndecodableBody => message@ == "failed to decode forwarded body"@,
            ProxyError::InvalidMethod => message@ == "failed to parse forwarded method"@,
            ProxyError::Unreachable => message@ == "failed to proxy request to localhost"@,
            ProxyError::UnreadableAnswer => message@ == "failed to read local response body"@,
        },
{
}

/// Each reason why the client gives up is told in its own words.
pub proof fn client_tells_why_it_gives_up(error: &ClientError, message: &'static str)
    requires
        call_ensures(ClientError::message, (error,), message),
    ensures
        match *error {
            ClientError::UnexpectedMessage => message@
                == "relay server returned an unexpected message"@,
            ClientError::UnexpectedRegistration => message@
                == "relay server returned an unexpected registration message"@,
            ClientError::RequestEcho => message@
                == "relay server returned an invalid request echo"@,
            ClientError::EarlyHeartbeat => message@
                == "relay server returned a heartbeat before registration"@,
            ClientError::EarlyForwarding => message@
                == "relay server returned a forwarding message before registration"@,
            ClientError::NotConfirmed => message@
                == "relay server failed to confirm client registration"@,
            ClientError::ChannelClosed => message@ == "control channel closed unexpectedly"@,
            ClientError::UndecodableMessage => message@ == "failed to decode control message"@,
        },
{
}

/// The times and sizes that are agreed on: a sign of life every fifteen seconds, and a client that
/// gives none is gone after six of them; a round of the reaper every half minute; ten seconds for
/// an answer; a minute for a claim; a minute for counting requests; bodies of up to a mebibyte.
pub proof fn times_and_sizes_are_agreed_on()
    ensures
        HEARTBEAT_INTERVAL == 15 * 1_000_000_000,
        SESSION_MAX_AGE == 6 * HEARTBEAT_INTERVAL,
        REAP_INTERVAL == 30 * 1_000_000_000,
        ANSWER_TIMEOUT == 10 * 1_000_000_000,
        RESERVATION_TTL == 60 * 1_000_000_000,
        CREATE_WINDOW == 60 * 1_000_000_000,
        BODY_LIMIT == 1024 * 1024,
        FIRST_REQUEST == 1,
        SECOND == 1_000_000_000,
{
}

} // verus!
