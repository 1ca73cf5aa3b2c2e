//! The relay: how it answers the public, and how it keeps its books clean.
use crate::books;
use crate::client::HEARTBEAT_INTERVAL;
use crate::headers;
use crate::headers::{fits_header_map, forwarded_headers, host_from_headers, SURE_HEADERS};
use crate::http_rules;
use crate::http_rules::{accepts_header_value, accepts_status, parse_header_name};
use crate::protocol;
use crate::protocol::{
    decode_body, encode_body, ControlMessage, CreateTunnelRequest,
    ForwardRequest, ForwardResponse, Header, TunnelCreated,
};
use crate::rate_limiter;
use crate::rate_limiter::CreateRateLimiter;
use crate::subdomain;
use crate::text;
use crate::tunnel_manager;
use crate::tunnel_manager::{CreateTunnelError, DispatchError, TunnelManager};
use crate::urls;
use crate::urls::next_request_id;
use axum::http::{HeaderMap, HeaderValue};
use tokio::sync::oneshot;
use vstd::prelude::*;

verus! {

/// The time in which the creations of one client are counted: one minute.
pub const CREATE_WINDOW: u128 = 60_000_000_000;

/// A client that was not heard of for longer than this is gone: a minute and a half.
pub const SESSION_MAX_AGE: u128 = 90_000_000_000;

/// How long a public request waits for its answer: ten seconds.
pub const ANSWER_TIMEOUT: u128 = 10_000_000_000;

/// The time between two rounds of the reaper: half a minute.
pub const REAP_INTERVAL: u128 = 30_000_000_000;

/// The longest body that the relay forwards, in bytes: one mebibyte.
pub const BODY_LIMIT: usize = 1_048_576;

/// What the relay answers over HTTP.
#[derive(Debug, Clone, PartialEq, Eq)]
pub enum Reply {
    /// A status with a line of plain text.
    Text { status: u16, text: String },
    /// The status 201, with the reserved tunnel as a control message.
    Created(TunnelCreated),
    /// What the local service answered.
    Proxied { status: u16, headers: Vec<Header>, body: Vec<u8> },
}

/// What a [`Reply`] says.
#[verifier::ext_equal]
pub ghost enum ReplyView {
    Text(u16, Seq<char>),
    Created(protocol::TunnelCreatedView),
    Proxied(u16, Seq<protocol::HeaderView>, Seq<u8>),
}

impl View for Reply {
    type V = ReplyView;

    open spec fn view(&self) -> ReplyView {
        match *self {
            Reply::Text { status, text } => ReplyView::Text(status, text@),
            Reply::Created(created) => ReplyView::Created(created@),
            Reply::Proxied { status, headers, body } => ReplyView::Proxied(
                status,
                protocol::headers_view(headers@),
                body@,
            ),
        }
    }
}

/// Tells that the relay is up.
pub fn health() -> (answer: &'static str)
    ensures
        answer@ == "ok"@,
{
    "ok"
}

/// A reply of plain text.
pub fn text_response(status: u16, text: &str) -> (reply: Reply)
    ensures
        reply@ == ReplyView::Text(status, text@),
{
    Reply::Text { status, text: text.to_owned() }
}

/// The answer to a creation that ended so.
pub open spec fn creation_reply(
    outcome: Result<protocol::TunnelCreatedView, CreateTunnelError>,
) -> ReplyView {
    match outcome {
        Ok(created) => ReplyView::Created(created),
        Err(CreateTunnelError::InvalidSubdomain) => ReplyView::Text(400, "invalid subdomain"@),
        Err(CreateTunnelError::SubdomainUnavailable) => ReplyView::Text(
            409,
            "subdomain unavailable"@,
        ),
    }
}

/// The answer to a client that asks too often.
pub open spec fn limited_reply() -> ReplyView {
    ReplyView::Text(429, "tunnel creation rate limit exceeded"@)
}

/// Computes [`creation_reply`].
pub fn created_response(outcome: Result<TunnelCreated, CreateTunnelError>) -> (reply: Reply)
    ensures
        reply@ == creation_reply(books::created_view(outcome)),
{
    match outcome {
        Ok(created) => Reply::Created(created),
        Err(CreateTunnelError::InvalidSubdomain) => text_response(400, "invalid subdomain"),
        Err(CreateTunnelError::SubdomainUnavailable) => text_response(409, "subdomain unavailable"),
    }
}

/// The headers of an answer that HTTP accepts, in order, each with its name in lower case.
pub open spec fn accepted_headers(headers: Seq<protocol::HeaderView>) -> Seq<protocol::HeaderView>
    decreases headers.len(),
{
    if headers.len() == 0 {
        Seq::empty()
    } else {
        let before = accepted_headers(headers.drop_last());
        let last = headers.last();
        if http_rules::valid_header_name(last.name) && http_rules::valid_header_value(last.value) {
            before.push(
                protocol::HeaderView { name: text::ascii_lower(last.name), value: last.value },
            )
        } else {
            before
        }
    }
}

/// The body of an answer; an undecodable one counts as empty.
pub open spec fn answer_body(body_base64: Seq<char>) -> Seq<u8> {
    match protocol::standard_decoded(body_base64) {
        Ok(body) => body,
        Err(_) => Seq::empty(),
    }
}

/// What the public gets of a client's answer, where a header map takes the headers that HTTP
/// accepts, and where it does not.
pub open spec fn proxied(response: protocol::ForwardResponseView, taken: bool) -> ReplyView {
    if http_rules::valid_status(response.status) && taken {
        ReplyView::Proxied(
            response.status,
            accepted_headers(response.headers),
            answer_body(response.body_base64),
        )
    } else {
        ReplyView::Text(502, "invalid client response"@)
    }
}

/// What the public gets of a client's answer: as [`proxied`] says, by what a header map makes of
/// the headers.
pub open spec fn answered(response: protocol::ForwardResponseView, reply: ReplyView) -> bool {
    exists|accepted: Seq<Header>, map: HeaderMap<HeaderValue>, taken: bool|
        {
            &&& protocol::headers_view(accepted) == accepted_headers(response.headers)
            &&& #[trigger] headers::map_filled(accepted, map, taken)
            &&& reply == proxied(response, taken)
        }
}

fn accept_headers(headers: &Vec<Header>) -> (accepted: Vec<Header>)
    ensures
        protocol::headers_view(accepted@) == accepted_headers(protocol::headers_view(headers@)),
{
    let ghost views = protocol::headers_view(headers@);
    let mut accepted: Vec<Header> = Vec::new();
    let mut i: usize = 0;
    assert(protocol::headers_view(accepted@) =~= accepted_headers(views.take(0)));
    while i < headers.len()
        invariant
            views == protocol::headers_view(headers@),
            i <= headers.len(),
            protocol::headers_view(accepted@) == accepted_headers(views.take(i as int)),
        decreases headers.len() - i,
    {
        assert(views.take(i + 1).drop_last() == views.take(i as int));
        assert(views.take(i + 1).last() == headers@[i as int]@);
        let ghost before = accepted@;
        let name = parse_header_name(headers[i].name.as_str());
        let accepts = accepts_header_value(headers[i].value.as_str());
        if let Some(name) = name {
            if accepts {
                let header = Header { name, value: headers[i].value.clone() };
                accepted.push(header);
                assert(protocol::headers_view(accepted@) =~= protocol::headers_view(before).push(
                    header@,
                ));
            }
        }
        i = i + 1;
    }
    assert(views.take(views.len() as int) == views);
    accepted
}

/// Makes a reply of a client's answer. A header map takes the headers where they are few, and does
/// not where they have too many names.
pub fn build_proxy_response(response: ForwardResponse) -> (reply: Reply)
    ensures
        answered(response@, reply@),
        accepted_headers(response@.headers).len() <= SURE_HEADERS ==> reply@ == proxied(
            response@,
            true,
        ),
        headers::crowded(accepted_headers(response@.headers)) ==> reply@ == proxied(
            response@,
            false,
        ),
{
    let body: Vec<u8> = match decode_body(response.body_base64.as_str()) {
        Ok(body) => body,
        Err(_) => Vec::new(),
    };
    let headers = accept_headers(&response.headers);
    assert forall|i: int| 0 <= i < headers@.len() implies {
        &&& http_rules::valid_header_name((#[trigger] headers@[i]).name@)
        &&& http_rules::valid_header_value(headers@[i].value@)
    } by {
        proxied_headers_are_valid(response@.headers, i);
        assert(protocol::headers_view(headers@)[i] == headers@[i]@);
    }
    let taken = fits_header_map(&headers);
    let ghost accepted = headers@;
    let ghost map = choose|map: HeaderMap<HeaderValue>| headers::map_filled(accepted, map, taken);
    assert(headers::map_filled(accepted, map, taken));
    if !accepts_status(response.status) || !taken {
        return text_response(502, "invalid client response");
    }
    Reply::Proxied { status: response.status, headers, body }
}

/// How the wait for a client's answer ended.
#[derive(Debug, Clone, PartialEq, Eq)]
pub enum WaitOutcome {
    Answered(ForwardResponse),
    /// The client's connection went away.
    Disconnected,
    /// The time was up.
    TimedOut,
}

/// Makes the reply to a public request whose wait ended so.
pub fn wait_response(outcome: WaitOutcome) -> (reply: Reply)
    ensures
        match outcome {
            WaitOutcome::Answered(response) => {
                &&& answered(response@, reply@)
                &&& accepted_headers(response@.headers).len() <= SURE_HEADERS ==> reply@ == proxied(
                    response@,
                    true,
                )
                &&& headers::crowded(accepted_headers(response@.headers)) ==> reply@ == proxied(
                    response@,
                    false,
                )
            },
            WaitOutcome::Disconnected => reply@ == ReplyView::Text(502, "client disconnected"@),
            WaitOutcome::TimedOut => reply@ == ReplyView::Text(504, "tunnel request timed out"@),
        },
{
    match outcome {
        WaitOutcome::Answered(response) => build_proxy_response(response),
        WaitOutcome::Disconnected => text_response(502, "client disconnected"),
        WaitOutcome::TimedOut => text_response(504, "tunnel request timed out"),
    }
}

/// Where a public request goes: the host that it names and the tunnel behind it.
#[derive(Debug, Clone, PartialEq, Eq)]
pub struct Target {
    pub host: String,
    pub tunnel_id: String,
}

/// The line of a public request.
#[derive(Debug, Clone, PartialEq, Eq)]
pub struct PublicRequest {
    pub method: String,
    pub path: String,
    pub query: Option<String>,
}

/// The host that a public request means: the one in its preview path, or else the one that its
/// headers name.
pub open spec fn meant_host(
    host_override: Option<Seq<char>>,
    headers: Seq<(Seq<char>, Seq<u8>)>,
) -> Option<Seq<char>> {
    match host_override {
        Some(given) => Some(given),
        None => headers::named_host(headers),
    }
}

/// The answer to a public request that leads to no tunnel.
pub open spec fn no_target_reply() -> ReplyView {
    ReplyView::Text(400, "missing or invalid host header"@)
}

/// The answer to a public request whose body cannot be forwarded.
pub open spec fn bad_body_reply() -> ReplyView {
    ReplyView::Text(400, "failed to read request body"@)
}

/// The answer to a public request that could not be handed to a client.
pub open spec fn undispatched_reply(error: DispatchError) -> ReplyView {
    ReplyView::Text(404, tunnel_manager::dispatch_error_text(error))
}

/// The path under which a public request is forwarded: the one in its preview path, or else its
/// own.
pub open spec fn forwarded_path(path_override: Option<Seq<char>>, path: Seq<char>) -> Seq<char> {
    match path_override {
        Some(given) => given,
        None => path,
    }
}

/// The message in which a public request is forwarded.
pub open spec fn forward_message(
    tunnel_id: Seq<char>,
    request_id: Seq<char>,
    method: Seq<char>,
    path: Seq<char>,
    query: Option<Seq<char>>,
    headers: Seq<protocol::HeaderView>,
    body: Seq<u8>,
) -> protocol::ForwardRequestView {
    protocol::ForwardRequestView {
        tunnel_id,
        request_id,
        method,
        path,
        query,
        headers,
        body_base64: protocol::standard_encoded(body),
    }
}

/// The relay's state.
pub struct AppState {
    pub tunnel_manager: TunnelManager,
    pub create_limiter: CreateRateLimiter,
}

/// A request for a tunnel from the client at `ip`, at a time that the clock may read, leaves the
/// books `after_books` and the limits `after_limits`, and is answered `reply`; `outcome` is how
/// the creation ended, where the client did not ask too often.
pub open spec fn creation(
    books: books::Books,
    limits: rate_limiter::Limits,
    ip: Seq<char>,
    request: protocol::CreateTunnelRequestView,
    now: u128,
    outcome: Result<protocol::TunnelCreatedView, CreateTunnelError>,
    after_books: books::Books,
    after_limits: rate_limiter::Limits,
    reply: ReplyView,
) -> bool {
    &&& limits.clock.reads(now)
    &&& after_limits == limits.after(ip, now)
    &&& if limits.allows(ip, now) {
        books.created(request, after_books, outcome) && reply == creation_reply(outcome)
    } else {
        after_books == books && reply == limited_reply()
    }
}

/// A dispatch of `message` that ended with `outcome` forwards a public request as `view` says, and
/// is answered `result`.
pub open spec fn forwards(
    books: books::Books,
    view: protocol::ForwardRequestView,
    message: ControlMessage,
    outcome: Result<oneshot::Receiver<ForwardResponse>, DispatchError>,
    after: books::Books,
    result: Result<oneshot::Receiver<ForwardResponse>, Reply>,
) -> bool {
    &&& message@ == protocol::ControlMessageView::ForwardRequest(view)
    &&& books.dispatched(view.tunnel_id, view.request_id, message, after, outcome)
    &&& match outcome {
        Ok(waiting) => result == Ok::<_, Reply>(waiting),
        Err(error) => result is Err && result->Err_0@ == undispatched_reply(error),
    }
}

impl AppState {
    /// The books and the limits are sound.
    pub open spec fn wf(&self) -> bool {
        self.tunnel_manager.wf() && self.create_limiter.wf()
    }

    /// The state of a relay for the hosts under `domain`, on which each client may create
    /// `create_limit` tunnels a minute.
    pub fn new(domain: &str, create_limit: usize) -> (state: Self)
        ensures
            state.wf(),
            state.tunnel_manager@.clock.started(),
            state.tunnel_manager@ == (books::Books {
                domain: domain@,
                clock: state.tunnel_manager@.clock,
                sessions: Map::empty(),
                reservations: Map::empty(),
                pending: Map::empty(),
                outbox: state.tunnel_manager@.outbox,
                sent: Seq::empty(),
            }),
            state.create_limiter@.clock.started(),
            state.create_limiter@ == (rate_limiter::Limits {
                clock: state.create_limiter@.clock,
                limit: create_limit as nat,
                window: CREATE_WINDOW,
                entries: Map::empty(),
            }),
    {
        AppState {
            tunnel_manager: TunnelManager::new(domain),
            create_limiter: CreateRateLimiter::new(create_limit, CREATE_WINDOW),
        }
    }

    /// Answers a request for a tunnel from the client at `remote_ip`.
    pub fn create_tunnel(&mut self, remote_ip: &str, request: CreateTunnelRequest) -> (reply: Reply)
        requires
            old(self).wf(),
        ensures
            final(self).wf(),
            exists|now: u128, outcome: Result<protocol::TunnelCreatedView, CreateTunnelError>|
                #[trigger] creation(
                    old(self).tunnel_manager@,
                    old(self).create_limiter@,
                    remote_ip@,
                    request@,
                    now,
                    outcome,
                    final(self).tunnel_manager@,
                    final(self).create_limiter@,
                    reply@,
                ),
    {
        let ghost books = self.tunnel_manager@;
        let ghost limits = self.create_limiter@;
        let ghost asked = request@;
        let allowed = self.create_limiter.allow(remote_ip);
        let ghost now = choose|now: u128|
            {
                &&& limits.clock.reads(now)
                &&& allowed == limits.allows(remote_ip@, now)
                &&& self.create_limiter@ == #[trigger] limits.after(remote_ip@, now)
            };
        if !allowed {
            let reply = text_response(429, "tunnel creation rate limit exceeded");
            proof {
                let none: Result<protocol::TunnelCreatedView, CreateTunnelError> = Err(
                    CreateTunnelError::InvalidSubdomain,
                );
                assert(creation(
                    books,
                    limits,
                    remote_ip@,
                    asked,
                    now,
                    none,
                    self.tunnel_manager@,
                    self.create_limiter@,
                    reply@,
                ));
            }
            return reply;
        }
        let outcome = self.tunnel_manager.create_tunnel(request);
        let ghost ended = books::created_view(outcome);
        let reply = created_response(outcome);
        assert(creation(
            books,
            limits,
            remote_ip@,
            asked,
            now,
            ended,
            self.tunnel_manager@,
            self.create_limiter@,
            reply@,
        ));
        reply
    }

    /// Finds the tunnel that a public request goes to.
    pub fn resolve_target(
        &self,
        host_override: Option<String>,
        headers: &HeaderMap<HeaderValue>,
    ) -> (target: Result<Target, Reply>)
        ensures
            ({
                let host = meant_host(
                    protocol::text_of(host_override),
                    headers::header_entries(*headers),
                );
                match target {
                    Ok(target) => host == Some(target.host@) && subdomain::route(
                        self.tunnel_manager@.domain,
                        target.host@,
                    ) == Some(target.tunnel_id@),
                    Err(reply) => reply@ == no_target_reply() && (host matches Some(host)
                        ==> subdomain::route(self.tunnel_manager@.domain, host) is None),
                }
            }),
    {
        let host = match host_override {
            Some(host) => Some(host),
            None => host_from_headers(headers),
        };
        let host = match host {
            Some(host) => host,
            None => {
                return Err(text_response(400, "missing or invalid host header"));
            },
        };
        match self.tunnel_manager.tunnel_id_for_host(host.as_str()) {
            Some(tunnel_id) => Ok(Target { host, tunnel_id }),
            None => Err(text_response(400, "missing or invalid host header")),
        }
    }

    /// Forwards a public request to the client of its tunnel, and returns the end of the channel
    /// on which the answer will come. `counter` numbers the requests of all relays in a process,
    /// from [`urls::FIRST_REQUEST`] on. There is no `body` where the body could not be read.
    pub fn forward_request(
        &mut self,
        counter: &mut u64,
        target: &Target,
        request: PublicRequest,
        path_override: Option<String>,
        headers: &HeaderMap<HeaderValue>,
        body: Option<Vec<u8>>,
    ) -> (forwarded: Result<oneshot::Receiver<ForwardResponse>, Reply>)
        requires
            old(self).wf(),
        ensures
            final(self).wf(),
            final(self).create_limiter == old(self).create_limiter,
            match body {
                Some(body) if body@.len() <= BODY_LIMIT => {
                    let view = forward_message(
                        target.tunnel_id@,
                        urls::request_id_of(*old(counter)),
                        request.method@,
                        forwarded_path(protocol::text_of(path_override), request.path@),
                        protocol::text_of(request.query),
                        headers::forwarded(headers::header_entries(*headers), target.host@),
                        body@,
                    );
                    &&& *final(counter) == urls::next_number(*old(counter))
                    &&& protocol::standard_decoded(view.body_base64) is Ok
                    &&& protocol::standard_decoded(view.body_base64)->Ok_0 == body@
                    &&& exists|
                        message: ControlMessage,
                        outcome: Result<oneshot::Receiver<ForwardResponse>, DispatchError>,
                    | #[trigger]
                        forwards(
                            old(self).tunnel_manager@,
                            view,
                            message,
                            outcome,
                            final(self).tunnel_manager@,
                            forwarded,
                        )
                },
                _ => {
                    &&& final(self).tunnel_manager@ == old(self).tunnel_manager@
                    &&& *final(counter) == *old(counter)
                    &&& forwarded is Err
                    &&& forwarded->Err_0@ == bad_body_reply()
                },
            },
    {
        let body: Vec<u8> = match body {
            Some(body) => body,
            None => {
                return Err(text_response(400, "failed to read request body"));
            },
        };
        if body.len() > BODY_LIMIT {
            return Err(text_response(400, "failed to read request body"));
        }
        let path = match path_override {
            Some(path) => path,
            None => request.path,
        };
        let request_id = next_request_id(counter);
        let forward = ForwardRequest {
            tunnel_id: target.tunnel_id.clone(),
            request_id: request_id.clone(),
            method: request.method,
            path,
            query: request.query,
            headers: forwarded_headers(headers, target.host.as_str()),
            body_base64: encode_body(body.as_slice()),
        };
        let ghost view = forward@;
        let message = ControlMessage::ForwardRequest(forward);
        let ghost books = self.tunnel_manager@;
        let ghost sent = message;
        let outcome = self.tunnel_manager.dispatch_request(
            target.tunnel_id.as_str(),
            request_id,
            message,
        );
        let ghost ended = outcome;
        let forwarded = match outcome {
            Ok(waiting) => Ok(waiting),
            Err(error) => Err(text_response(404, error.message())),
        };
        assert(forwards(books, view, sent, ended, self.tunnel_manager@, forwarded));
        forwarded
    }
}

/// Drops the clients that were not heard of for too long, and the reservations that have run out,
/// at the time `now`.
pub fn reap_at(manager: &mut TunnelManager, now: u128)
    requires
        old(manager).wf(),
    ensures
        final(manager).wf(),
        final(manager)@ == old(manager)@.with_fresh_sessions(
            SESSION_MAX_AGE,
            now,
        ).with_valid_reservations(now),
{
    manager.prune_stale_sessions_at(SESSION_MAX_AGE, now);
    manager.prune_stale_reservations_at(now);
}

/// Drops the clients that were not heard of for too long, and the reservations that have run out.
pub fn reap(manager: &mut TunnelManager)
    requires
        old(manager).wf(),
    ensures
        final(manager).wf(),
        exists|now: u128|
            old(manager).clock_reads(now) && final(manager)@ == (#[trigger] old(
                manager,
            )@.with_fresh_sessions(SESSION_MAX_AGE, now)).with_valid_reservations(now),
{
    let now: u128 = manager.now();
    reap_at(manager, now);
}

/// A client that was heard of within the longest age outlives the reaper, and a client gives its
/// signs of life more often than that.
pub proof fn beating_client_outlives_the_reaper(
    books: books::Books,
    id: Seq<char>,
    seen_at: u128,
    now: u128,
)
    requires
        books.sessions.contains_key(id),
        now - seen_at <= SESSION_MAX_AGE,
    ensures
        HEARTBEAT_INTERVAL < SESSION_MAX_AGE,
        ({
            let after = books.seen(id, seen_at).with_fresh_sessions(
                SESSION_MAX_AGE,
                now,
            ).with_valid_reservations(now);
            after.sessions.contains_key(id) && after.sessions[id].link == books.sessions[id].link
        }),
{
    books::heartbeat_keeps_a_tunnel_alive(books, id, seen_at, SESSION_MAX_AGE, now);
}

/// A request that is forwarded is sent once, to the client of its tunnel alone; where the tunnel
/// is not live, nothing is sent.
pub proof fn forwarded_request_is_sent_once(
    books: books::Books,
    view: protocol::ForwardRequestView,
    message: ControlMessage,
    outcome: Result<oneshot::Receiver<ForwardResponse>, DispatchError>,
    after: books::Books,
    result: Result<oneshot::Receiver<ForwardResponse>, Reply>,
)
    requires
        forwards(books, view, message, outcome, after, result),
    ensures
        if books.sessions.contains_key(view.tunnel_id) {
            &&& after.sent.len() == books.sent.len() + 1
            &&& after.sent.drop_last() == books.sent
            &&& after.sent.last().channel == books.sessions[view.tunnel_id].link.channel
            &&& after.sent.last().message@ == protocol::ControlMessageView::ForwardRequest(view)
            &&& after.sent.last().delivered == (result is Ok)
        } else {
            after.sent == books.sent
        },
{
    if books.sessions.contains_key(view.tunnel_id) {
        assert(after.sent.drop_last() =~= books.sent);
    }
}

proof fn lemma_lower_name_is_valid(name: Seq<char>)
    requires
        http_rules::valid_header_name(name),
    ensures
        http_rules::valid_header_name(text::ascii_lower(name)),
{
    let lower = text::ascii_lower(name);
    assert forall|i: int| 0 <= i < lower.len() implies http_rules::is_token_char(
        #[trigger] lower[i],
    ) by {
        assert(http_rules::is_token_char(name[i]));
        assert(lower[i] == text::ascii_lower_char(name[i]));
    }
}

/// Every header of a proxied reply has a name and a value that HTTP accepts.
pub proof fn proxied_headers_are_valid(headers: Seq<protocol::HeaderView>, i: int)
    requires
        0 <= i < accepted_headers(headers).len(),
    ensures
        http_rules::valid_header_name(accepted_headers(headers)[i].name),
        http_rules::valid_header_value(accepted_headers(headers)[i].value),
    decreases headers.len(),
{
    let before = accepted_headers(headers.drop_last());
    if i < before.len() {
        proxied_headers_are_valid(headers.drop_last(), i);
        assert(accepted_headers(headers)[i] == before[i]);
    } else {
        lemma_lower_name_is_valid(headers.last().name);
    }
}

/// The public gets the status and the body that the client put into its answer, byte for byte, and
/// those of its headers that HTTP accepts, wherever the status is one of HTTP's and the headers
/// are not too many.
pub proof fn answer_comes_out_whole(
    response: protocol::ForwardResponseView,
    reply: ReplyView,
    body: Seq<u8>,
)
    requires
        answered(response, reply),
        protocol::standard_decoded(response.body_base64) == Ok::<_, protocol::DecodeBodyError>(
            body,
        ),
    ensures
        reply is Proxied ==> reply == ReplyView::Proxied(
            response.status,
            accepted_headers(response.headers),
            body,
        ),
        http_rules::valid_status(response.status) && accepted_headers(response.headers).len()
            <= SURE_HEADERS ==> reply is Proxied,
        reply !is Proxied ==> reply == ReplyView::Text(502, "invalid client response"@),
{
    let (accepted, map, taken) = choose|
        accepted: Seq<Header>,
        map: HeaderMap<HeaderValue>,
        taken: bool,
    |
        {
            &&& protocol::headers_view(accepted) == accepted_headers(response.headers)
            &&& #[trigger] headers::map_filled(accepted, map, taken)
            &&& reply == proxied(response, taken)
        };
    headers::few_headers_fit(accepted, map, taken);
    assert(protocol::headers_view(accepted).len() == accepted.len());
}

} // verus!
