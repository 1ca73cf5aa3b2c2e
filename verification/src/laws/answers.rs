//! Laws on answers: what the client makes of the answer of the local service, and what the public
//! gets of it.
use crate::client::{failed_answer, local_answer, reply_message, LocalAnswer, ProxyError};
use crate::headers;
use crate::http_rules;
use crate::laws;
use crate::protocol;
use crate::protocol::{ControlMessage, ForwardResponse, Header};
use crate::relay;
use crate::relay::{build_proxy_response, wait_response, Reply, WaitOutcome};
use crate::text;
use vstd::prelude::*;

verus! {

spec fn is_valid(header: Header) -> bool {
    http_rules::valid_header_name(header.name@) && http_rules::valid_header_value(header.value@)
}

proof fn lemma_accepted(given: Seq<Header>) -> (places: Seq<int>)
    ensures
        laws::headers::picked(given.len() as int, |k: int| is_valid(given[k]), places),
        relay::accepted_headers(protocol::headers_view(given)).len() == places.len(),
        forall|i: int|
            0 <= i < places.len() ==> {
                let header = #[trigger] relay::accepted_headers(protocol::headers_view(given))[i];
                &&& header.name == text::ascii_lower(given[places[i]].name@)
                &&& header.value == given[places[i]].value@
            },
    decreases given.len(),
{
    let wanted = |k: int| is_valid(given[k]);
    let views = protocol::headers_view(given);
    if given.len() == 0 {
        Seq::empty()
    } else {
        let init = given.drop_last();
        let n = init.len() as int;
        let before = lemma_accepted(init);
        assert(views.drop_last() =~= protocol::headers_view(init));
        assert(views.last() == given.last()@);
        laws::headers::lemma_pick_same(n, |k: int| is_valid(init[k]), wanted, before);
        laws::headers::lemma_pick_next(n, wanted, before);
        if is_valid(given.last()) {
            before.push(n)
        } else {
            before
        }
    }
}

proof fn lemma_proxied(response: ForwardResponse, reply: Reply) -> (places: Seq<int>)
    requires
        relay::answered(response@, reply@),
        reply is Proxied,
    ensures
        laws::headers::picked(
            response.headers@.len() as int,
            |k: int| is_valid(response.headers@[k]),
            places,
        ),
        reply->headers@.len() == places.len(),
        forall|i: int|
            0 <= i < places.len() ==> {
                &&& (#[trigger] reply->headers@[i]).name@ == text::ascii_lower(
                    response.headers@[places[i]].name@,
                )
                &&& reply->headers@[i].value@ == response.headers@[places[i]].value@
            },
{
    let given = response.headers@;
    let places = lemma_accepted(given);
    let accepted = relay::accepted_headers(response@.headers);
    let shown = reply->headers@;
    assert forall|i: int| 0 <= i < places.len() implies {
        &&& (#[trigger] shown[i]).name@ == text::ascii_lower(given[places[i]].name@)
        &&& shown[i].value@ == given[places[i]].value@
    } by {
        assert(protocol::headers_view(shown)[i] == shown[i]@);
        assert(accepted[i].name == text::ascii_lower(given[places[i]].name@));
    }
    places
}

/// The public gets a client's answer where its status is one of HTTP's and its valid headers fit
/// into a header map, which up to 6554 do. It gets the status as it is, and the body; a body that
/// cannot be decoded counts as empty. Otherwise it is told that the answer is invalid.
pub proof fn answer_keeps_its_status_and_its_body(response: ForwardResponse, reply: Reply)
    requires
        call_ensures(build_proxy_response, (response,), reply) || call_ensures(
            wait_response,
            (WaitOutcome::Answered(response),),
            reply,
        ),
    ensures
        match reply {
            Reply::Proxied { status, headers, body } => {
                &&& 100 <= response.status <= 999
                &&& status == response.status
                &&& headers@.len() <= response.headers@.len()
                &&& match protocol::standard_decoded(response.body_base64@) {
                    Ok(bytes) => body@ == bytes,
                    Err(_) => body@.len() == 0,
                }
            },
            Reply::Text { status, text } => {
                &&& status == 502
                &&& text@ == "invalid client response"@
                &&& !(100 <= response.status <= 999) || response.headers@.len() > 6554
            },
            Reply::Created(_) => false,
        },
{
    lemma_few_accepted(response@.headers);
}

proof fn lemma_few_accepted(given: Seq<protocol::HeaderView>)
    ensures
        relay::accepted_headers(given).len() <= given.len(),
    decreases given.len(),
{
    if given.len() > 0 {
        lemma_few_accepted(given.drop_last());
    }
}

/// A client's answer of which at most 6554 headers are valid is not refused for its headers,
/// however many there are: `valid` is where these headers stand.
pub proof fn invalid_headers_do_not_count(
    response: ForwardResponse,
    reply: Reply,
    valid: Seq<int>,
)
    requires
        call_ensures(build_proxy_response, (response,), reply) || call_ensures(
            wait_response,
            (WaitOutcome::Answered(response),),
            reply,
        ),
        forall|k: int|
            0 <= k < response.headers@.len() && http_rules::valid_header_name(
                (#[trigger] response.headers@[k]).name@,
            ) && http_rules::valid_header_value(response.headers@[k].value@) ==> valid.contains(k),
        valid.len() <= 6554,
        100 <= response.status <= 999,
    ensures
        reply is Proxied,
{
    let places = lemma_accepted(response.headers@);
    assert forall|i: int, j: int| 0 <= i < places.len() && 0 <= j < places.len() && i != j implies
        places[i] != places[j] by {
        if i < j {
            assert(places[i] < places[j]);
        } else {
            assert(places[j] < places[i]);
        }
    }
    places.unique_seq_to_set();
    valid.lemma_cardinality_of_set();
    assert(places.to_set().subset_of(valid.to_set())) by {
        assert forall|k: int| places.to_set().contains(k) implies valid.to_set().contains(k) by {
            let i = choose|i: int| 0 <= i < places.len() && places[i] == k;
            assert(is_valid(response.headers@[places[i]]));
        }
    }
    vstd::set_lib::lemma_len_subset(places.to_set(), valid.to_set());
}

/// A client's answer with more than 24576 valid headers, no two of the same name, is refused.
pub proof fn too_many_names_are_refused(response: ForwardResponse, reply: Reply)
    requires
        call_ensures(build_proxy_response, (response,), reply) || call_ensures(
            wait_response,
            (WaitOutcome::Answered(response),),
            reply,
        ),
        response.headers@.len() > 24576,
        forall|k: int|
            0 <= k < response.headers@.len() ==> {
                &&& http_rules::valid_header_name((#[trigger] response.headers@[k]).name@)
                &&& http_rules::valid_header_value(response.headers@[k].value@)
            },
        forall|i: int, j: int|
            0 <= i < j < response.headers@.len() ==> text::ascii_lower(
                (#[trigger] response.headers@[i]).name@,
            ) != text::ascii_lower((#[trigger] response.headers@[j]).name@),
    ensures
        reply is Text,
{
    let given = response.headers@;
    let accepted = relay::accepted_headers(response@.headers);
    lemma_all_accepted(given);
    let names = accepted.drop_last().map_values(
        |header: protocol::HeaderView| text::ascii_lower(header.name),
    );
    assert forall|i: int, j: int| 0 <= i < names.len() && 0 <= j < names.len() && i
        != j implies names[i] != names[j] by {
        assert(names[i] == text::ascii_lower(text::ascii_lower(given[i].name@)));
        assert(names[j] == text::ascii_lower(text::ascii_lower(given[j].name@)));
        lemma_lower_twice(given[i].name@);
        lemma_lower_twice(given[j].name@);
    }
    names.unique_seq_to_set();
    assert(headers::crowded(accepted));
}

proof fn lemma_all_accepted(given: Seq<Header>)
    requires
        forall|k: int| 0 <= k < given.len() ==> is_valid(#[trigger] given[k]),
    ensures
        relay::accepted_headers(protocol::headers_view(given)) == given.map_values(
            |header: Header|
                protocol::HeaderView {
                    name: text::ascii_lower(header.name@),
                    value: header.value@,
                },
        ),
    decreases given.len(),
{
    let lowered = given.map_values(
        |header: Header|
            protocol::HeaderView { name: text::ascii_lower(header.name@), value: header.value@ },
    );
    if given.len() > 0 {
        let init = given.drop_last();
        assert forall|k: int| 0 <= k < init.len() implies is_valid(#[trigger] init[k]) by {
            assert(is_valid(given[k]));
        }
        lemma_all_accepted(init);
        assert(protocol::headers_view(given).drop_last() =~= protocol::headers_view(init));
        assert(is_valid(given[given.len() - 1]));
    }
    assert(relay::accepted_headers(protocol::headers_view(given)) =~= lowered);
}

proof fn lemma_lower_twice(s: Seq<char>)
    ensures
        text::ascii_lower(text::ascii_lower(s)) == text::ascii_lower(s),
{
    assert(text::ascii_lower(text::ascii_lower(s)) =~= text::ascii_lower(s));
}

/// A header of a client's answer that HTTP accepts reaches the public, with its name in lower case
/// and its value unchanged, whatever else the answer holds.
pub proof fn valid_header_reaches_the_public(
    response: ForwardResponse,
    reply: Reply,
    k: int,
) -> (i: int)
    requires
        call_ensures(build_proxy_response, (response,), reply) || call_ensures(
            wait_response,
            (WaitOutcome::Answered(response),),
            reply,
        ),
        reply is Proxied,
        0 <= k < response.headers@.len(),
        http_rules::valid_header_name(response.headers@[k].name@),
        http_rules::valid_header_value(response.headers@[k].value@),
    ensures
        0 <= i < reply->headers@.len(),
        reply->headers@[i].name@ == text::ascii_lower(response.headers@[k].name@),
        reply->headers@[i].value@ == response.headers@[k].value@,
{
    let given = response.headers@;
    let places = lemma_proxied(response, reply);
    let wanted = |k: int| is_valid(given[k]);
    assert(wanted(k));
    assert(places.contains(k));
    let i = choose|i: int| 0 <= i < places.len() && places[i] == k;
    assert(reply->headers@[i].name@ == text::ascii_lower(given[places[i]].name@));
    i
}

/// Of the headers of a client's answer, exactly those that HTTP accepts reach the public, each
/// once, in order, each with its name in lower case and its value unchanged: the header at `i`
/// comes from the one at `places[i]`.
pub proof fn valid_headers_alone_reach_the_public(
    response: ForwardResponse,
    reply: Reply,
) -> (places: Seq<int>)
    requires
        call_ensures(build_proxy_response, (response,), reply) || call_ensures(
            wait_response,
            (WaitOutcome::Answered(response),),
            reply,
        ),
        reply is Proxied,
    ensures
        places.len() == reply->headers@.len(),
        forall|i: int, j: int|
            0 <= i < j < places.len() ==> (#[trigger] places[i]) < (#[trigger] places[j]),
        forall|i: int|
            0 <= i < places.len() ==> {
                let header = response.headers@[places[i]];
                &&& 0 <= #[trigger] places[i] < response.headers@.len()
                &&& http_rules::valid_header_name(header.name@)
                &&& http_rules::valid_header_value(header.value@)
                &&& reply->headers@[i].name@ == text::ascii_lower(header.name@)
                &&& reply->headers@[i].value@ == header.value@
            },
        forall|k: int|
            0 <= k < response.headers@.len() && http_rules::valid_header_name(
                (#[trigger] response.headers@[k]).name@,
            ) && http_rules::valid_header_value(response.headers@[k].value@) ==> places.contains(k),
{
    let given = response.headers@;
    let wanted = |k: int| is_valid(given[k]);
    let places = lemma_proxied(response, reply);
    assert forall|i: int| 0 <= i < places.len() implies {
        let header = given[places[i]];
        &&& 0 <= #[trigger] places[i] < given.len()
        &&& http_rules::valid_header_name(header.name@)
        &&& http_rules::valid_header_value(header.value@)
        &&& reply->headers@[i].name@ == text::ascii_lower(header.name@)
        &&& reply->headers@[i].value@ == header.value@
    } by {
        assert(wanted(places[i]));
        assert(reply->headers@[i].name@ == text::ascii_lower(given[places[i]].name@));
    }
    assert forall|k: int| 0 <= k < given.len() && http_rules::valid_header_name(
        (#[trigger] given[k]).name@,
    ) && http_rules::valid_header_value(given[k].value@) implies places.contains(k) by {
        assert(wanted(k));
    }
    places
}

/// A public request whose client has gone, or whose time is up, is told so.
pub proof fn wait_without_an_answer_is_told(outcome: WaitOutcome, reply: Reply)
    requires
        call_ensures(wait_response, (outcome,), reply),
    ensures
        outcome is Disconnected ==> (reply matches Reply::Text { status, text } && status == 502
            && text@ == "client disconnected"@),
        outcome is TimedOut ==> (reply matches Reply::Text { status, text } && status == 504
            && text@ == "tunnel request timed out"@),
{
}

/// The message that answers a forwarded request is always an answer.
pub proof fn every_request_is_answered(
    request_id: String,
    outcome: Result<LocalAnswer, ProxyError>,
    message: ControlMessage,
)
    requires
        call_ensures(reply_message, (request_id, outcome), message),
    ensures
        message is ForwardResponse,
        message->ForwardResponse_0.request_id@ == request_id@,
{
}

/// What the client sends of the answer of the local service carries the id of the request, and the
/// status and the body as they are.
pub proof fn local_answer_keeps_its_status_and_its_body(
    request_id: String,
    answer: LocalAnswer,
    response: ForwardResponse,
)
    requires
        call_ensures(
            reply_message,
            (request_id, Ok::<LocalAnswer, ProxyError>(answer)),
            ControlMessage::ForwardResponse(response),
        ) || call_ensures(
            local_answer,
            (request_id, answer.status, &answer.headers, &answer.body),
            response,
        ),
    ensures
        response.request_id@ == request_id@,
        response.status == answer.status,
        response.body_base64@ == protocol::standard_encoded(answer.body@),
        protocol::standard_decoded(response.body_base64@) == Ok::<_, protocol::DecodeBodyError>(
            answer.body@,
        ),
{
}

/// A header of the local answer whose value is text is in what the client sends, under its name and
/// with the characters of its value, whatever the status and the body.
pub proof fn text_header_comes_back(
    request_id: String,
    answer: LocalAnswer,
    response: ForwardResponse,
    k: int,
) -> (i: int)
    requires
        call_ensures(
            reply_message,
            (request_id, Ok::<LocalAnswer, ProxyError>(answer)),
            ControlMessage::ForwardResponse(response),
        ) || call_ensures(
            local_answer,
            (request_id, answer.status, &answer.headers, &answer.body),
            response,
        ),
        0 <= k < headers::header_entries(answer.headers).len(),
        ({
            let value = headers::header_entries(answer.headers)[k].1;
            forall|b: int| 0 <= b < value.len() ==> 32 <= #[trigger] value[b] < 127 || value[b] == 9
        }),
    ensures
        0 <= i < response.headers@.len(),
        response.headers@[i].name@ == headers::header_entries(answer.headers)[k].0,
        ({
            let value = headers::header_entries(answer.headers)[k].1;
            &&& response.headers@[i].value@.len() == value.len()
            &&& forall|b: int|
                0 <= b < value.len() ==> #[trigger] response.headers@[i].value@[b]
                    == value[b] as char
        }),
{
    laws::headers::lemma_text_header_is_in(
        headers::header_entries(answer.headers),
        response.headers@,
        k,
    )
}

/// Of the headers of the local answer, exactly those whose value is text are in what the client
/// sends, each once, in order, whatever the status and the body: the header at `i` comes from the
/// one at `places[i]`.
pub proof fn text_headers_alone_come_back(
    request_id: String,
    answer: LocalAnswer,
    response: ForwardResponse,
) -> (places: Seq<int>)
    requires
        call_ensures(
            reply_message,
            (request_id, Ok::<LocalAnswer, ProxyError>(answer)),
            ControlMessage::ForwardResponse(response),
        ) || call_ensures(
            local_answer,
            (request_id, answer.status, &answer.headers, &answer.body),
            response,
        ),
    ensures
        ({
            let entries = headers::header_entries(answer.headers);
            &&& places.len() == response.headers@.len()
            &&& forall|i: int, j: int|
                0 <= i < j < places.len() ==> (#[trigger] places[i]) < (#[trigger] places[j])
            &&& forall|i: int|
                0 <= i < places.len() ==> {
                    let entry = entries[places[i]];
                    &&& 0 <= #[trigger] places[i] < entries.len()
                    &&& laws::headers::is_text(entry.1)
                    &&& response.headers@[i].name@ == entry.0
                    &&& response.headers@[i].value@ == laws::headers::text_in(entry.1)
                }
            &&& forall|k: int|
                0 <= k < entries.len() && laws::headers::is_text((#[trigger] entries[k]).1)
                    ==> places.contains(k)
        }),
{
    let entries = headers::header_entries(answer.headers);
    let wanted = |k: int| laws::headers::is_text(entries[k].1);
    let places = laws::headers::lemma_carried_list(entries, response.headers@);
    assert forall|i: int| 0 <= i < places.len() implies {
        let entry = entries[places[i]];
        &&& 0 <= #[trigger] places[i] < entries.len()
        &&& laws::headers::is_text(entry.1)
        &&& response.headers@[i].name@ == entry.0
        &&& response.headers@[i].value@ == laws::headers::text_in(entry.1)
    } by {
        assert(wanted(places[i]));
        assert(response.headers@[i].name@ == entries[places[i]].0);
    }
    assert forall|k: int| 0 <= k < entries.len() && laws::headers::is_text(
        (#[trigger] entries[k]).1,
    ) implies places.contains(k) by {
        assert(wanted(k));
    }
    places
}

/// Where the local service did not answer, the client sends an apology in its place, that tells the
/// reason.
pub proof fn failure_is_apologised_for(
    request_id: String,
    error: ProxyError,
    response: ForwardResponse,
)
    requires
        call_ensures(
            reply_message,
            (request_id, Err::<LocalAnswer, ProxyError>(error)),
            ControlMessage::ForwardResponse(response),
        ) || call_ensures(failed_answer, (request_id, error), response),
    ensures
        response.request_id@ == request_id@,
        response.status == 502,
        response.headers@.len() == 1,
        response.headers@[0].name@ == "content-type"@,
        response.headers@[0].value@ == "text/plain"@,
        ({
            let reason = match error {
                ProxyError::UndecodableBody => "failed to decode forwarded body"@,
                ProxyError::InvalidMethod => "failed to parse forwarded method"@,
                ProxyError::Unreachable => "failed to proxy request to localhost"@,
                ProxyError::UnreadableAnswer => "failed to read local response body"@,
            };
            protocol::standard_decoded(response.body_base64@) == Ok::<_, protocol::DecodeBodyError>(
                vstd::utf8::encode_utf8("proxy error: "@ + reason),
            )
        }),
{
    assert(response@.headers.len() == 1);
    assert(response@.headers[0] == response.headers@[0]@);
}

} // verus!
