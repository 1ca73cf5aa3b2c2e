//! Laws on forwarding: what the client gets of a public request, and what the public is told where
//! it gets nothing.
use crate::books;
use crate::channel;
use crate::headers;
use crate::laws;
use crate::protocol;
use crate::protocol::{ControlMessage, ForwardResponse};
use crate::relay;
use crate::relay::{AppState, PublicRequest, Reply, Target};
use crate::text;
use crate::tunnel_manager::DispatchError;
use crate::urls;
use axum::http::{HeaderMap, HeaderValue};
use tokio::sync::oneshot;
use vstd::prelude::*;

verus! {

spec fn wanted_view(
    number: u64,
    target: Target,
    request: PublicRequest,
    path_override: Option<String>,
    given: HeaderMap<HeaderValue>,
    body: Seq<u8>,
) -> protocol::ForwardRequestView {
    relay::forward_message(
        target.tunnel_id@,
        urls::request_id_of(number),
        request.method@,
        relay::forwarded_path(protocol::text_of(path_override), request.path@),
        protocol::text_of(request.query),
        headers::forwarded(headers::header_entries(given), target.host@),
        body,
    )
}

proof fn lemma_forwarded(
    before: books::Books,
    after: books::Books,
    view: protocol::ForwardRequestView,
    forwarded: Result<oneshot::Receiver<ForwardResponse>, Reply>,
)
    requires
        exists|
            message: ControlMessage,
            outcome: Result<oneshot::Receiver<ForwardResponse>, DispatchError>,
        | #[trigger]
            relay::forwards(before, view, message, outcome, after, forwarded),
    ensures
        before.sessions.contains_key(view.tunnel_id) ==> {
            &&& after.sent.len() == before.sent.len() + 1
            &&& after.sent.drop_last() == before.sent
            &&& after.sent.last().channel == before.sessions[view.tunnel_id].link.channel
            &&& after.sent.last().delivered == (forwarded is Ok)
            &&& after.sent.last().message@ == protocol::ControlMessageView::ForwardRequest(view)
            &&& after == (books::Books { pending: after.pending, sent: after.sent, ..before })
            &&& forwarded matches Ok(waiting) ==> {
                &&& after.pending.contains_key(view.request_id)
                &&& after.pending == before.pending.insert(
                    view.request_id,
                    after.pending[view.request_id],
                )
                &&& channel::one_channel(after.pending[view.request_id], waiting)
            }
            &&& forwarded matches Err(reply) ==> {
                &&& after.pending == before.pending.remove(view.request_id)
                &&& reply@ == relay::undispatched_reply(DispatchError::SendFailed)
            }
        },
        !before.sessions.contains_key(view.tunnel_id) ==> {
            &&& after == before
            &&& forwarded is Err
            &&& forwarded->Err_0@ == relay::undispatched_reply(DispatchError::NoSession)
        },
{
    let (message, outcome) = choose|
        message: ControlMessage,
        outcome: Result<oneshot::Receiver<ForwardResponse>, DispatchError>,
    | #[trigger]
        relay::forwards(before, view, message, outcome, after, forwarded);
    if before.sessions.contains_key(view.tunnel_id) {
        assert(after.sent.drop_last() =~= before.sent);
    }
}

/// A public request to a live tunnel, with a body of at most a mebibyte, is sent once, to the
/// client of that tunnel and to no one else. What is sent says the tunnel that it is for; the
/// number of the request, as its id; the method and the query as they are; the path of the preview
/// path where there is one, and the path of the request where there is none; and the body, whatever
/// they are.
pub proof fn forwarded_request_says_what_was_asked(
    state: &mut AppState,
    counter: &mut u64,
    target: &Target,
    request: PublicRequest,
    path_override: Option<String>,
    given: &HeaderMap<HeaderValue>,
    body: Vec<u8>,
    forwarded: Result<oneshot::Receiver<ForwardResponse>, Reply>,
)
    requires
        call_ensures(
            AppState::forward_request,
            (state, counter, target, request, path_override, given, Some(body)),
            forwarded,
        ),
        body@.len() <= 1_048_576,
        old(state).tunnel_manager@.sessions.contains_key(target.tunnel_id@),
    ensures
        ({
            let before = old(state).tunnel_manager@;
            let after = final(state).tunnel_manager@;
            let sent = after.sent.last();
            let message = sent.message->ForwardRequest_0;
            &&& after.sent.len() == before.sent.len() + 1
            &&& after.sent.drop_last() == before.sent
            &&& sent.channel == before.sessions[target.tunnel_id@].link.channel
            &&& sent.message is ForwardRequest
            &&& message.tunnel_id@ == target.tunnel_id@
            &&& message.request_id@ == "req_"@ + text::decimal(*old(counter) as nat)
            &&& message.method@ == request.method@
            &&& path_override matches Some(path) ==> message.path@ == path@
            &&& path_override is None ==> message.path@ == request.path@
            &&& request.query matches Some(query) ==> message.query is Some
                && message.query->Some_0@ == query@
            &&& request.query is None ==> message.query is None
            &&& message.body_base64@ == protocol::standard_encoded(body@)
            &&& protocol::standard_decoded(message.body_base64@) == Ok::<
                _,
                protocol::DecodeBodyError,
            >(body@)
        }),
{
    lemma_forwarded(
        old(state).tunnel_manager@,
        final(state).tunnel_manager@,
        wanted_view(*old(counter), *target, request, path_override, *given, body@),
        forwarded,
    );
}

/// Whoever forwards a request gets the end of a channel on which the answer will come exactly where
/// the client took the request. The other end waits under the id of the request, and nobody else is
/// concerned. Where the client did not take the request, nobody waits under its id, and the public
/// is told so. The number after the request's own is taken for the next, and nothing else changes.
pub proof fn forwarded_request_is_waited_for(
    state: &mut AppState,
    counter: &mut u64,
    target: &Target,
    request: PublicRequest,
    path_override: Option<String>,
    given: &HeaderMap<HeaderValue>,
    body: Vec<u8>,
    forwarded: Result<oneshot::Receiver<ForwardResponse>, Reply>,
)
    requires
        call_ensures(
            AppState::forward_request,
            (state, counter, target, request, path_override, given, Some(body)),
            forwarded,
        ),
        body@.len() <= 1_048_576,
        old(state).tunnel_manager@.sessions.contains_key(target.tunnel_id@),
    ensures
        ({
            let before = old(state).tunnel_manager@;
            let after = final(state).tunnel_manager@;
            let id = "req_"@ + text::decimal(*old(counter) as nat);
            &&& forwarded is Ok == after.sent.last().delivered
            &&& match forwarded {
                Ok(waiting) => {
                    &&& after.pending.contains_key(id)
                    &&& after.pending == before.pending.insert(id, after.pending[id])
                    &&& channel::one_channel(after.pending[id], waiting)
                },
                Err(reply) => {
                    &&& after.pending == before.pending.remove(id)
                    &&& reply matches Reply::Text { status, text }
                    &&& status == 404
                    &&& text@ == "failed to send forwarded request to client"@
                },
            }
            &&& after == (books::Books { pending: after.pending, sent: after.sent, ..before })
        }),
        final(state).create_limiter == old(state).create_limiter,
        *old(counter) < u64::MAX ==> *final(counter) == *old(counter) + 1,
        *old(counter) == u64::MAX ==> *final(counter) == 0,
{
    lemma_forwarded(
        old(state).tunnel_manager@,
        final(state).tunnel_manager@,
        wanted_view(*old(counter), *target, request, path_override, *given, body@),
        forwarded,
    );
}

/// What is sent carries every header of the public request whose value is text, under its name and
/// with the characters of its value, unless it is `host` or `connection`.
pub proof fn forwarded_request_carries_its_headers(
    state: &mut AppState,
    counter: &mut u64,
    target: &Target,
    request: PublicRequest,
    path_override: Option<String>,
    given: &HeaderMap<HeaderValue>,
    body: Vec<u8>,
    forwarded: Result<oneshot::Receiver<ForwardResponse>, Reply>,
    k: int,
)
    requires
        call_ensures(
            AppState::forward_request,
            (state, counter, target, request, path_override, given, Some(body)),
            forwarded,
        ),
        body@.len() <= 1_048_576,
        old(state).tunnel_manager@.sessions.contains_key(target.tunnel_id@),
        0 <= k < headers::header_entries(*given).len(),
        headers::header_entries(*given)[k].0 != "host"@,
        headers::header_entries(*given)[k].0 != "connection"@,
        ({
            let value = headers::header_entries(*given)[k].1;
            forall|b: int| 0 <= b < value.len() ==> 32 <= #[trigger] value[b] < 127 || value[b] == 9
        }),
    ensures
        ({
            let sent = final(state).tunnel_manager@.sent.last();
            let list = sent.message->ForwardRequest_0.headers@;
            let entry = headers::header_entries(*given)[k];
            exists|i: int|
                {
                    &&& 0 <= i < list.len()
                    &&& (#[trigger] list[i]).name@ == entry.0
                    &&& list[i].value@ == Seq::new(entry.1.len(), |b: int| entry.1[b] as char)
                }
        }),
{
    lemma_forwarded(
        old(state).tunnel_manager@,
        final(state).tunnel_manager@,
        wanted_view(*old(counter), *target, request, path_override, *given, body@),
        forwarded,
    );
    laws::headers::lemma_forwarded_header_is_in(
        headers::header_entries(*given),
        target.host@,
        final(state).tunnel_manager@.sent.last().message->ForwardRequest_0.headers@,
        k,
    );
}

/// What is sent carries no other headers of the public request, and those that it carries once
/// each, in their order; behind them it tells the host that the request was sent to, the scheme,
/// and the address that it is said to come from.
pub proof fn forwarded_request_carries_no_other_headers(
    state: &mut AppState,
    counter: &mut u64,
    target: &Target,
    request: PublicRequest,
    path_override: Option<String>,
    given: &HeaderMap<HeaderValue>,
    body: Vec<u8>,
    forwarded: Result<oneshot::Receiver<ForwardResponse>, Reply>,
)
    requires
        call_ensures(
            AppState::forward_request,
            (state, counter, target, request, path_override, given, Some(body)),
            forwarded,
        ),
        body@.len() <= 1_048_576,
        old(state).tunnel_manager@.sessions.contains_key(target.tunnel_id@),
    ensures
        ({
            let sent = final(state).tunnel_manager@.sent.last();
            let list = sent.message->ForwardRequest_0.headers@;
            let entries = headers::header_entries(*given);
            let n = list.len() - 3;
            &&& n >= 0
            &&& exists|places: Seq<int>|
                {
                    &&& #[trigger] places.len() == n
                    &&& forall|i: int, j: int|
                        0 <= i < j < n ==> (#[trigger] places[i]) < (#[trigger] places[j])
                    &&& forall|i: int|
                        0 <= i < n ==> {
                            let entry = entries[places[i]];
                            &&& 0 <= #[trigger] places[i] < entries.len()
                            &&& entry.0 != "host"@
                            &&& entry.0 != "connection"@
                            &&& laws::headers::is_text(entry.1)
                            &&& list[i].name@ == entry.0
                            &&& list[i].value@ == laws::headers::text_in(entry.1)
                        }
                    &&& forall|k: int|
                        0 <= k < entries.len() && laws::headers::is_text(
                            (#[trigger] entries[k]).1,
                        ) && entries[k].0 != "host"@ && entries[k].0 != "connection"@
                            ==> places.contains(k)
                }
            &&& list[n].name@ == "x-forwarded-host"@
            &&& list[n].value@ == target.host@
            &&& list[n + 1].name@ == "x-forwarded-proto"@
            &&& list[n + 1].value@ == "http"@
            &&& list[n + 2].name@ == "x-forwarded-for"@
            &&& list[n + 2].value@ == "127.0.0.1"@
        }),
{
    lemma_forwarded(
        old(state).tunnel_manager@,
        final(state).tunnel_manager@,
        wanted_view(*old(counter), *target, request, path_override, *given, body@),
        forwarded,
    );
    lemma_places(
        headers::header_entries(*given),
        target.host@,
        final(state).tunnel_manager@.sent.last().message->ForwardRequest_0.headers@,
    );
}

proof fn lemma_places(
    entries: Seq<(Seq<char>, Seq<u8>)>,
    host: Seq<char>,
    list: Seq<protocol::Header>,
)
    requires
        protocol::headers_view(list) == headers::forwarded(entries, host),
    ensures
        ({
            let n = list.len() - 3;
            &&& n >= 0
            &&& exists|places: Seq<int>|
                {
                    &&& #[trigger] places.len() == n
                    &&& forall|i: int, j: int|
                        0 <= i < j < n ==> (#[trigger] places[i]) < (#[trigger] places[j])
                    &&& forall|i: int|
                        0 <= i < n ==> {
                            let entry = entries[places[i]];
                            &&& 0 <= #[trigger] places[i] < entries.len()
                            &&& entry.0 != "host"@
                            &&& entry.0 != "connection"@
                            &&& laws::headers::is_text(entry.1)
                            &&& list[i].name@ == entry.0
                            &&& list[i].value@ == laws::headers::text_in(entry.1)
                        }
                    &&& forall|k: int|
                        0 <= k < entries.len() && laws::headers::is_text(
                            (#[trigger] entries[k]).1,
                        ) && entries[k].0 != "host"@ && entries[k].0 != "connection"@
                            ==> places.contains(k)
                }
            &&& list[n].name@ == "x-forwarded-host"@
            &&& list[n].value@ == host
            &&& list[n + 1].name@ == "x-forwarded-proto"@
            &&& list[n + 1].value@ == "http"@
            &&& list[n + 2].name@ == "x-forwarded-for"@
            &&& list[n + 2].value@ == "127.0.0.1"@
        }),
{
    let n = list.len() - 3;
    let places = laws::headers::lemma_forwarded_list(entries, host, list);
    assert forall|i: int| 0 <= i < n implies {
        let entry = entries[places[i]];
        &&& 0 <= #[trigger] places[i] < entries.len()
        &&& entry.0 != "host"@
        &&& entry.0 != "connection"@
        &&& laws::headers::is_text(entry.1)
        &&& list[i].name@ == entry.0
        &&& list[i].value@ == laws::headers::text_in(entry.1)
    } by {
        assert(laws::headers::is_handed_on(entries[places[i]]));
        assert(list[i].name@ == entries[places[i]].0);
    }
    let wanted = |k: int| laws::headers::is_handed_on(entries[k]);
    assert forall|k: int| 0 <= k < entries.len() && laws::headers::is_text(
        (#[trigger] entries[k]).1,
    ) && entries[k].0 != "host"@ && entries[k].0 != "connection"@ implies places.contains(k) by {
        assert(wanted(k));
    }
    assert(places.len() == n);
}

/// A public request to a tunnel that is not live is refused: nothing is sent, and nobody waits.
pub proof fn request_to_no_tunnel_is_refused(
    state: &mut AppState,
    counter: &mut u64,
    target: &Target,
    request: PublicRequest,
    path_override: Option<String>,
    given: &HeaderMap<HeaderValue>,
    body: Vec<u8>,
    forwarded: Result<oneshot::Receiver<ForwardResponse>, Reply>,
)
    requires
        call_ensures(
            AppState::forward_request,
            (state, counter, target, request, path_override, given, Some(body)),
            forwarded,
        ),
        body@.len() <= 1_048_576,
        !old(state).tunnel_manager@.sessions.contains_key(target.tunnel_id@),
    ensures
        final(state).tunnel_manager@ == old(state).tunnel_manager@,
        final(state).create_limiter == old(state).create_limiter,
        *old(counter) < u64::MAX ==> *final(counter) == *old(counter) + 1,
        *old(counter) == u64::MAX ==> *final(counter) == 0,
        forwarded matches Err(Reply::Text { status, text }) && status == 404 && text@
            == "no active tunnel session found"@,
{
    lemma_forwarded(
        old(state).tunnel_manager@,
        final(state).tunnel_manager@,
        wanted_view(*old(counter), *target, request, path_override, *given, body@),
        forwarded,
    );
}

/// A public request whose body could not be read, or is longer than a mebibyte, is refused,
/// whatever its tunnel; it changes nothing, and takes no number.
pub proof fn request_without_a_body_is_refused(
    state: &mut AppState,
    counter: &mut u64,
    target: &Target,
    request: PublicRequest,
    path_override: Option<String>,
    given: &HeaderMap<HeaderValue>,
    body: Option<Vec<u8>>,
    forwarded: Result<oneshot::Receiver<ForwardResponse>, Reply>,
)
    requires
        call_ensures(
            AppState::forward_request,
            (state, counter, target, request, path_override, given, body),
            forwarded,
        ),
        body matches Some(body) ==> body@.len() > 1_048_576,
    ensures
        final(state).tunnel_manager@ == old(state).tunnel_manager@,
        final(state).create_limiter == old(state).create_limiter,
        *final(counter) == *old(counter),
        forwarded matches Err(Reply::Text { status, text }) && status == 400 && text@
            == "failed to read request body"@,
{
}

} // verus!
