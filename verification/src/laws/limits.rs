//! Laws on requests for tunnels: how often a client may ask, and what it is answered.
use crate::books;
use crate::laws;
use crate::protocol;
use crate::protocol::{CreateTunnelRequest, TunnelCreated};
use crate::rate_limiter;
use crate::rate_limiter::CreateRateLimiter;
use crate::relay;
use crate::relay::{created_response, AppState, Reply};
use crate::text;
use crate::token;
use crate::tunnel_manager::CreateTunnelError;
use vstd::prelude::*;

verus! {

/// A relay starts without tunnels and without grants, and lets each client ask `create_limit` times
/// a minute.
pub proof fn new_relay_counts_from_nothing(domain: &str, create_limit: usize, state: AppState)
    requires
        call_ensures(AppState::new, (domain, create_limit), state),
    ensures
        state.wf(),
        state.tunnel_manager@.domain == domain@,
        forall|id: Seq<char>| !(#[trigger] state.tunnel_manager@.sessions.contains_key(id)),
        forall|id: Seq<char>| !(#[trigger] state.tunnel_manager@.reservations.contains_key(id)),
        forall|id: Seq<char>| !(#[trigger] state.tunnel_manager@.pending.contains_key(id)),
        state.tunnel_manager@.sent.len() == 0,
        state.create_limiter@.limit == create_limit,
        state.create_limiter@.window == 60_000_000_000,
        state.create_limiter@.entries == Map::<Seq<char>, Seq<u128>>::empty(),
{
}

/// A time lies less than `window` back at the time `now`.
pub open spec fn is_recent(stamp: u128, window: u128, now: u128) -> bool {
    if stamp <= now {
        now - stamp < window
    } else {
        0 < window
    }
}

proof fn lemma_recent(stamps: Seq<u128>, window: u128, now: u128)
    ensures
        rate_limiter::recent(stamps, window, now) == stamps.filter(
            |stamp: u128| is_recent(stamp, window, now),
        ),
    decreases stamps.len(),
{
    reveal(Seq::filter);
    if stamps.len() > 0 {
        lemma_recent(stamps.drop_last(), window, now);
    }
}

/// A call is granted where fewer than `limit` of the times that are noted for its key are recent.
/// The recent times stay noted, in order, and a call that is granted is noted behind them. Other
/// keys are not concerned.
pub proof fn call_is_counted(
    limiter: &mut CreateRateLimiter,
    key: &str,
    now: u128,
    allowed: bool,
)
    requires
        call_ensures(CreateRateLimiter::allow_at, (limiter, key, now), allowed),
    ensures
        ({
            let before = old(limiter)@;
            let after = final(limiter)@;
            let noted = if before.entries.contains_key(key@) {
                before.entries[key@]
            } else {
                Seq::empty()
            };
            let kept = noted.filter(|stamp: u128| is_recent(stamp, before.window, now));
            &&& allowed == (kept.len() < before.limit)
            &&& after.entries == before.entries.insert(
                key@,
                if allowed {
                    kept.push(now)
                } else {
                    kept
                },
            )
            &&& after.limit == before.limit
            &&& after.window == before.window
            &&& after.clock == before.clock
        }),
{
    let before = old(limiter)@;
    lemma_recent(before.stamps(key@), before.window, now);
}

/// A limiter starts without grants, with the limit and the window that it is given.
pub proof fn new_limiter_counts_from_nothing(
    limit: usize,
    window: u128,
    limiter: CreateRateLimiter,
)
    requires
        call_ensures(CreateRateLimiter::new, (limit, window), limiter),
    ensures
        limiter.wf(),
        limiter@.clock.started(),
        limiter@.limit == limit,
        limiter@.window == window,
        limiter@.entries == Map::<Seq<char>, Seq<u128>>::empty(),
{
}

proof fn lemma_allowed(
    before: rate_limiter::Limits,
    after: rate_limiter::Limits,
    key: Seq<char>,
    allowed: bool,
)
    requires
        exists|now: u128|
            {
                &&& before.clock.reads(now)
                &&& allowed == before.allows(key, now)
                &&& after == #[trigger] before.after(key, now)
            },
    ensures
        exists|now: u128| #[trigger]
            before.clock.reads(now) && {
                let noted = if before.entries.contains_key(key) {
                    before.entries[key]
                } else {
                    Seq::empty()
                };
                let kept = noted.filter(|stamp: u128| is_recent(stamp, before.window, now));
                &&& allowed == (kept.len() < before.limit)
                &&& after.entries == before.entries.insert(
                    key,
                    if allowed {
                        kept.push(now)
                    } else {
                        kept
                    },
                )
            },
        after == (rate_limiter::Limits { entries: after.entries, ..before }),
{
    let now = choose|now: u128|
        {
            &&& before.clock.reads(now)
            &&& allowed == before.allows(key, now)
            &&& after == #[trigger] before.after(key, now)
        };
    lemma_recent(before.stamps(key), before.window, now);
    assert(before.clock.reads(now));
}

/// A call is counted at a time that the clock may read.
pub proof fn call_is_counted_by_the_clock(
    limiter: &mut CreateRateLimiter,
    key: &str,
    allowed: bool,
)
    requires
        call_ensures(CreateRateLimiter::allow, (limiter, key), allowed),
    ensures
        exists|now: u128| #[trigger]
            old(limiter)@.clock.reads(now) && {
                let before = old(limiter)@;
                let noted = if before.entries.contains_key(key@) {
                    before.entries[key@]
                } else {
                    Seq::empty()
                };
                let kept = noted.filter(|stamp: u128| is_recent(stamp, before.window, now));
                &&& allowed == (kept.len() < before.limit)
                &&& final(limiter)@.entries == before.entries.insert(
                    key@,
                    if allowed {
                        kept.push(now)
                    } else {
                        kept
                    },
                )
            },
        final(limiter)@ == (rate_limiter::Limits {
            entries: final(limiter)@.entries,
            ..old(limiter)@
        }),
{
    lemma_allowed(old(limiter)@, final(limiter)@, key@, allowed);
}

/// A request for a tunnel: the client that asked, what it asked for, when, and what it was
/// answered.
pub ghost struct Asked {
    pub ip: Seq<char>,
    pub request: protocol::CreateTunnelRequestView,
    pub now: u128,
    pub reply: Reply,
}

spec fn is_limited(reply: Reply) -> bool {
    reply matches Reply::Text { status, .. } && status == 429
}

/// The request takes the books from `books` to `after_books`, and the limits from `limits` to
/// `after_limits`.
pub open spec fn is_asked(
    asked: Asked,
    books: books::Books,
    limits: rate_limiter::Limits,
    after_books: books::Books,
    after_limits: rate_limiter::Limits,
) -> bool {
    exists|outcome: Result<protocol::TunnelCreatedView, CreateTunnelError>| #[trigger]
        relay::creation(
            books,
            limits,
            asked.ip,
            asked.request,
            asked.now,
            outcome,
            after_books,
            after_limits,
            asked.reply@,
        )
}

/// A sequence of requests, in the order of their times, takes the books through `states` and the
/// limits through `limits`.
pub open spec fn are_asked(
    calls: Seq<Asked>,
    states: Seq<books::Books>,
    limits: Seq<rate_limiter::Limits>,
) -> bool {
    &&& states.len() == calls.len() + 1
    &&& limits.len() == calls.len() + 1
    &&& forall|i: int|
        0 <= i < calls.len() ==> is_asked(
            #[trigger] calls[i],
            states[i],
            limits[i],
            states[i + 1],
            limits[i + 1],
        )
    &&& forall|i: int, j: int|
        0 <= i <= j < calls.len() ==> (#[trigger] calls[i]).now <= (#[trigger] calls[j]).now
}

proof fn lemma_asked(
    books: books::Books,
    limits: rate_limiter::Limits,
    after_books: books::Books,
    after_limits: rate_limiter::Limits,
    ip: Seq<char>,
    request: protocol::CreateTunnelRequestView,
    reply: Reply,
)
    requires
        exists|
            now: u128,
            outcome: Result<protocol::TunnelCreatedView, CreateTunnelError>,
        | #[trigger]
            relay::creation(
                books,
                limits,
                ip,
                request,
                now,
                outcome,
                after_books,
                after_limits,
                reply@,
            ),
    ensures
        exists|now: u128|
            limits.clock.reads(now) && is_asked(
                (#[trigger] asked_at(ip, request, now, reply)),
                books,
                limits,
                after_books,
                after_limits,
            ),
{
    let (now, outcome) = choose|
        now: u128,
        outcome: Result<protocol::TunnelCreatedView, CreateTunnelError>,
    | #[trigger]
        relay::creation(
            books,
            limits,
            ip,
            request,
            now,
            outcome,
            after_books,
            after_limits,
            reply@,
        );
    let call = asked_at(ip, request, now, reply);
    assert(relay::creation(
        books,
        limits,
        call.ip,
        call.request,
        call.now,
        outcome,
        after_books,
        after_limits,
        call.reply@,
    ));
    assert(is_asked(call, books, limits, after_books, after_limits));
}

/// The request of a client at a time.
pub open spec fn asked_at(
    ip: Seq<char>,
    request: protocol::CreateTunnelRequestView,
    now: u128,
    reply: Reply,
) -> Asked {
    Asked { ip, request, now, reply }
}

/// A call of `create_tunnel` is a request in the sense of [`is_asked`], at a time that the clock
/// may read.
pub proof fn call_is_a_request(
    state: &mut AppState,
    ip: &str,
    request: CreateTunnelRequest,
    reply: Reply,
)
    requires
        call_ensures(AppState::create_tunnel, (state, ip, request), reply),
    ensures
        exists|now: u128|
            old(state).create_limiter@.clock.reads(now) && is_asked(
                (#[trigger] asked_at(ip@, request@, now, reply)),
                old(state).tunnel_manager@,
                old(state).create_limiter@,
                final(state).tunnel_manager@,
                final(state).create_limiter@,
            ),
{
    lemma_asked(
        old(state).tunnel_manager@,
        old(state).create_limiter@,
        final(state).tunnel_manager@,
        final(state).create_limiter@,
        ip@,
        request@,
        reply,
    );
}

proof fn lemma_longer_sequence(
    calls: Seq<Asked>,
    states: Seq<books::Books>,
    limits: Seq<rate_limiter::Limits>,
    ip: Seq<char>,
    request: protocol::CreateTunnelRequestView,
    reply: Reply,
    after_books: books::Books,
    after_limits: rate_limiter::Limits,
)
    requires
        are_asked(calls, states, limits),
        exists|now: u128|
            limits.last().clock.reads(now) && is_asked(
                (#[trigger] asked_at(ip, request, now, reply)),
                states.last(),
                limits.last(),
                after_books,
                after_limits,
            ),
    ensures
        exists|now: u128|
            {
                let call = #[trigger] asked_at(ip, request, now, reply);
                &&& limits.last().clock.reads(now)
                &&& calls.len() == 0 || calls.last().now <= now ==> are_asked(
                    calls.push(call),
                    states.push(after_books),
                    limits.push(after_limits),
                )
            },
{
    let now = choose|now: u128|
        limits.last().clock.reads(now) && is_asked(
            (#[trigger] asked_at(ip, request, now, reply)),
            states.last(),
            limits.last(),
            after_books,
            after_limits,
        );
    let call = asked_at(ip, request, now, reply);
    let more = calls.push(call);
    let more_states = states.push(after_books);
    let more_limits = limits.push(after_limits);
    assert forall|i: int| 0 <= i < more.len() implies is_asked(
        #[trigger] more[i],
        more_states[i],
        more_limits[i],
        more_states[i + 1],
        more_limits[i + 1],
    ) by {
        if i < calls.len() {
            assert(more[i] == calls[i]);
        }
    }
    if calls.len() == 0 || calls.last().now <= now {
        assert forall|i: int, j: int| 0 <= i <= j < more.len() implies (#[trigger] more[i]).now <= (
        #[trigger] more[j]).now by {
            if j < calls.len() {
                assert(calls[i].now <= calls[j].now);
            } else if i < calls.len() {
                assert(calls[i].now <= calls[calls.len() - 1].now);
            }
        }
        assert(are_asked(more, more_states, more_limits));
    }
}

/// A call of `create_tunnel` after a sequence of requests makes the sequence longer by one, where
/// its time is not before theirs.
pub proof fn call_makes_a_sequence_longer(
    calls: Seq<Asked>,
    states: Seq<books::Books>,
    limits: Seq<rate_limiter::Limits>,
    state: &mut AppState,
    ip: &str,
    request: CreateTunnelRequest,
    reply: Reply,
)
    requires
        are_asked(calls, states, limits),
        old(state).tunnel_manager@ == states.last(),
        old(state).create_limiter@ == limits.last(),
        call_ensures(AppState::create_tunnel, (state, ip, request), reply),
    ensures
        exists|now: u128|
            {
                let call = #[trigger] asked_at(ip@, request@, now, reply);
                &&& limits.last().clock.reads(now)
                &&& calls.len() == 0 || calls.last().now <= now ==> are_asked(
                    calls.push(call),
                    states.push(final(state).tunnel_manager@),
                    limits.push(final(state).create_limiter@),
                )
            },
{
    call_is_a_request(state, ip, request, reply);
    lemma_longer_sequence(
        calls,
        states,
        limits,
        ip@,
        request@,
        reply,
        final(state).tunnel_manager@,
        final(state).create_limiter@,
    );
}

spec fn stamped(calls: Seq<Asked>) -> Seq<(Seq<char>, u128)> {
    calls.map_values(|call: Asked| (call.ip, call.now))
}

spec fn served(ip: Seq<char>, moment: u128) -> spec_fn(Asked) -> bool {
    |call: Asked|
        {
            &&& call.ip == ip
            &&& !is_limited(call.reply)
            &&& call.now <= moment
            &&& moment - call.now < 60_000_000_000
        }
}

spec fn served_within_the_minute(calls: Seq<Asked>, ip: Seq<char>, moment: u128) -> Seq<Asked> {
    calls.filter(served(ip, moment))
}

proof fn lemma_reply(
    asked: Asked,
    books: books::Books,
    limits: rate_limiter::Limits,
    after_books: books::Books,
    after_limits: rate_limiter::Limits,
)
    requires
        is_asked(asked, books, limits, after_books, after_limits),
    ensures
        after_limits == limits.after(asked.ip, asked.now),
        is_limited(asked.reply) == !limits.allows(asked.ip, asked.now),
{
}

proof fn lemma_calls(
    calls: Seq<Asked>,
    states: Seq<books::Books>,
    limits: Seq<rate_limiter::Limits>,
    ip: Seq<char>,
    moment: u128,
)
    requires
        are_asked(calls, states, limits),
        limits[0].window == 60_000_000_000,
    ensures
        limits.last() == limits[0].after_calls(stamped(calls)),
        rate_limiter::in_order(stamped(calls)),
        rate_limiter::within(
            limits[0].grants(stamped(calls), ip),
            limits[0].window,
            moment,
        ) == served_within_the_minute(calls, ip, moment).len(),
        (calls.len() == 0 || calls.last().now <= moment) ==> rate_limiter::recent(
            limits[0].grants(stamped(calls), ip),
            limits[0].window,
            moment,
        ).len() == served_within_the_minute(calls, ip, moment).len(),
    decreases calls.len(),
{
    reveal(Seq::filter);
    let start = limits[0];
    let pairs = stamped(calls);
    if calls.len() > 0 {
        let init = calls.drop_last();
        let call = calls.last();
        let n = init.len() as int;
        let earlier = states.drop_last();
        let counted = limits.drop_last();
        assert forall|i: int| 0 <= i < init.len() implies is_asked(
            #[trigger] init[i],
            earlier[i],
            counted[i],
            earlier[i + 1],
            counted[i + 1],
        ) by {
            assert(calls[i] == init[i]);
        }
        assert forall|i: int, j: int| 0 <= i <= j < init.len() implies (#[trigger] init[i]).now <= (
        #[trigger] init[j]).now by {
            assert(calls[i].now <= calls[j].now);
        }
        lemma_calls(init, earlier, counted, ip, moment);
        assert(pairs.drop_last() =~= stamped(init));
        assert(calls[n] == call);
        lemma_reply(call, states[n], limits[n], states[n + 1], limits[n + 1]);
        assert(counted.last() == limits[n]);
        if n > 0 {
            assert(calls[n - 1].now <= calls[n].now);
        }
        let before = start.grants(stamped(init), ip);
        assert(before.push(call.now).drop_last() =~= before);
        assert forall|i: int, j: int| 0 <= i <= j < pairs.len() implies (#[trigger] pairs[i]).1 <= (
        #[trigger] pairs[j]).1 by {
            assert(calls[i].now <= calls[j].now);
        }
    }
}

/// A relay that starts begins a sequence of requests.
pub proof fn new_relay_begins_a_sequence(domain: &str, create_limit: usize, state: AppState)
    requires
        call_ensures(AppState::new, (domain, create_limit), state),
    ensures
        are_asked(
            Seq::empty(),
            seq![state.tunnel_manager@],
            seq![state.create_limiter@],
        ),
{
}

/// Whatever requests come in, in the order of their times, and whatever they ask for: of the
/// requests of one client that fall into one minute, at most `limit` are answered otherwise than
/// by 429.
pub proof fn no_minute_serves_more_than_the_limit(
    calls: Seq<Asked>,
    states: Seq<books::Books>,
    limits: Seq<rate_limiter::Limits>,
    ip: Seq<char>,
    moment: u128,
)
    requires
        are_asked(calls, states, limits),
        limits[0].window == 60_000_000_000,
        limits[0].entries == Map::<Seq<char>, Seq<u128>>::empty(),
    ensures
        calls.filter(
            |call: Asked|
                {
                    &&& call.ip == ip
                    &&& !(call.reply matches Reply::Text { status, .. } && status == 429)
                    &&& call.now <= moment
                    &&& moment - call.now < 60_000_000_000
                },
        ).len() <= limits[0].limit,
{
    lemma_calls(calls, states, limits, ip, moment);
    rate_limiter::no_window_holds_more_than_the_limit(limits[0], stamped(calls), ip, moment);
    assert((|call: Asked|
        {
            &&& call.ip == ip
            &&& !(call.reply matches Reply::Text { status, .. } && status == 429)
            &&& call.now <= moment
            &&& moment - call.now < 60_000_000_000
        }) =~= served(ip, moment));
}

/// A request is answered by 429 exactly where `limit` requests of the same client within the minute
/// before it were answered otherwise. What it asks for makes no difference.
pub proof fn request_is_served_below_the_limit(
    calls: Seq<Asked>,
    states: Seq<books::Books>,
    limits: Seq<rate_limiter::Limits>,
    k: int,
)
    requires
        are_asked(calls, states, limits),
        limits[0].window == 60_000_000_000,
        limits[0].entries == Map::<Seq<char>, Seq<u128>>::empty(),
        0 <= k < calls.len(),
    ensures
        (calls[k].reply matches Reply::Text { status, .. } && status == 429) <==> calls.take(
            k,
        ).filter(
            |call: Asked|
                {
                    &&& call.ip == calls[k].ip
                    &&& !(call.reply matches Reply::Text { status, .. } && status == 429)
                    &&& call.now <= calls[k].now
                    &&& calls[k].now - call.now < 60_000_000_000
                },
        ).len() >= limits[0].limit,
{
    let earlier = calls.take(k);
    let through = states.take(k + 1);
    let counted = limits.take(k + 1);
    assert forall|i: int| 0 <= i < earlier.len() implies is_asked(
        #[trigger] earlier[i],
        through[i],
        counted[i],
        through[i + 1],
        counted[i + 1],
    ) by {
        assert(calls[i] == earlier[i]);
    }
    assert forall|i: int, j: int| 0 <= i <= j < earlier.len() implies (
    #[trigger] earlier[i]).now <= (#[trigger] earlier[j]).now by {
        assert(calls[i].now <= calls[j].now);
    }
    if k > 0 {
        assert(calls[k - 1].now <= calls[k].now);
        assert(earlier.last() == calls[k - 1]);
    }
    lemma_calls(earlier, through, counted, calls[k].ip, calls[k].now);
    rate_limiter::call_is_granted_below_the_limit(
        limits[0],
        stamped(earlier),
        calls[k].ip,
        calls[k].now,
    );
    assert(counted.last() == limits[k]);
    lemma_reply(calls[k], states[k], limits[k], states[k + 1], limits[k + 1]);
    assert((|call: Asked|
        {
            &&& call.ip == calls[k].ip
            &&& !(call.reply matches Reply::Text { status, .. } && status == 429)
            &&& call.now <= calls[k].now
            &&& calls[k].now - call.now < 60_000_000_000
        }) =~= served(calls[k].ip, calls[k].now));
}

/// A creation that ended so is answered so: with the tunnel, or with what was wrong.
pub proof fn creation_is_answered(
    outcome: Result<TunnelCreated, CreateTunnelError>,
    reply: Reply,
)
    requires
        call_ensures(created_response, (outcome,), reply),
    ensures
        match outcome {
            Ok(created) => {
                &&& reply is Created
                &&& reply->Created_0.tunnel_id@ == created.tunnel_id@
                &&& reply->Created_0.url@ == created.url@
                &&& reply->Created_0.local_addr@ == created.local_addr@
                &&& reply->Created_0.registration_token@ == created.registration_token@
            },
            Err(CreateTunnelError::InvalidSubdomain) => {
                reply matches Reply::Text { status, text } && status == 400 && text@
                    == "invalid subdomain"@
            },
            Err(CreateTunnelError::SubdomainUnavailable) => {
                reply matches Reply::Text { status, text } && status == 409 && text@
                    == "subdomain unavailable"@
            },
        },
{
}

/// A request for a tunnel is answered: with the tunnel that was reserved, as
/// [`laws::tunnels::is_created`] says; with 400 or 409 where that says so; or with 429, and then
/// nothing was reserved.
pub open spec fn is_answered(
    before: books::Books,
    after: books::Books,
    request: CreateTunnelRequest,
    reply: Reply,
) -> bool {
    match reply {
        Reply::Created(created) => laws::tunnels::is_created(before, after, request, Ok(created)),
        Reply::Text { status, text } => {
            ||| {
                &&& status == 400
                &&& text@ == "invalid subdomain"@
                &&& laws::tunnels::is_created(
                    before,
                    after,
                    request,
                    Err(CreateTunnelError::InvalidSubdomain),
                )
            }
            ||| {
                &&& status == 409
                &&& text@ == "subdomain unavailable"@
                &&& laws::tunnels::is_created(
                    before,
                    after,
                    request,
                    Err(CreateTunnelError::SubdomainUnavailable),
                )
            }
            ||| {
                &&& status == 429
                &&& text@ == "tunnel creation rate limit exceeded"@
                &&& after == before
            }
        },
        Reply::Proxied { .. } => false,
    }
}

proof fn lemma_answered(
    books: books::Books,
    limits: rate_limiter::Limits,
    after_books: books::Books,
    after_limits: rate_limiter::Limits,
    ip: Seq<char>,
    request: CreateTunnelRequest,
    reply: Reply,
)
    requires
        exists|
            now: u128,
            outcome: Result<protocol::TunnelCreatedView, CreateTunnelError>,
        | #[trigger]
            relay::creation(
                books,
                limits,
                ip,
                request@,
                now,
                outcome,
                after_books,
                after_limits,
                reply@,
            ),
    ensures
        is_answered(books, after_books, request, reply),
{
    let (now, outcome) = choose|
        now: u128,
        outcome: Result<protocol::TunnelCreatedView, CreateTunnelError>,
    | #[trigger]
        relay::creation(
            books,
            limits,
            ip,
            request@,
            now,
            outcome,
            after_books,
            after_limits,
            reply@,
        );
    if limits.allows(ip, now) {
        let created = match reply {
            Reply::Created(created) => Ok(created),
            Reply::Text { status, .. } => if status == 400 {
                Err(CreateTunnelError::InvalidSubdomain)
            } else {
                Err(CreateTunnelError::SubdomainUnavailable)
            },
            Reply::Proxied { .. } => Err(CreateTunnelError::InvalidSubdomain),
        };
        assert(books::created_view(created) == outcome);
        laws::tunnels::lemma_created(books, after_books, request, created);
    }
}

/// A client that is given a tunnel is given one that is reserved under the id that it is given, for
/// a minute from a time that the clock may read, with the port that it asked for and a token of 24
/// letters and digits out of a draw. Nothing else changes.
pub proof fn served_request_reserves_a_tunnel(
    state: &mut AppState,
    ip: &str,
    request: CreateTunnelRequest,
    created: TunnelCreated,
)
    requires
        call_ensures(AppState::create_tunnel, (state, ip, request), Reply::Created(created)),
    ensures
        ({
            let before = old(state).tunnel_manager@;
            let after = final(state).tunnel_manager@;
            let id = created.tunnel_id@;
            let token = created.registration_token@;
            let reservation = after.reservations[id];
            &&& created.local_addr@ == "http://127.0.0.1:"@ + text::decimal(request.port as nat)
            &&& token::drawn(token)
            &&& token.len() == 24
            &&& forall|i: int|
                0 <= i < 24 ==> 'a' <= #[trigger] token[i] <= 'z' || 'A' <= token[i] <= 'Z' || '0'
                    <= token[i] <= '9'
            &&& after.reservations.contains_key(id)
            &&& after.reservations == before.reservations.insert(id, reservation)
            &&& "https://"@ + reservation.public_host == created.url@
            &&& exists|name: Seq<char>|
                id == #[trigger] laws::tunnels::id_for(name) && reservation.public_host == name
                    + "."@ + before.domain
            &&& reservation.local_addr == created.local_addr@
            &&& reservation.registration_token == token
            &&& reservation.expires_at >= 60_000_000_000
            &&& before.clock.reads((reservation.expires_at - 60_000_000_000) as u128)
            &&& after == (books::Books { reservations: after.reservations, ..before })
        }),
{
    request_is_answered(state, ip, request, Reply::Created(created));
}

/// A client that asks for a name is given that name, without white space around it and in lower
/// case, or told that it is no name, or that it is taken, or that the client asks too often; and
/// only where that is so.
pub proof fn asked_name_is_answered(
    state: &mut AppState,
    ip: &str,
    request: CreateTunnelRequest,
    asked: &str,
    inner: &str,
    name: String,
    reply: Reply,
)
    requires
        call_ensures(AppState::create_tunnel, (state, ip, request), reply),
        request.subdomain is Some,
        request.subdomain->Some_0@ == asked@,
        call_ensures(text::trimmed, (asked,), inner),
        call_ensures(text::to_ascii_lower, (inner,), name),
    ensures
        ({
            let valid = {
                &&& 3 <= name@.len() <= 63
                &&& name@[0] != '-'
                &&& name@[name@.len() - 1] != '-'
                &&& forall|i: int|
                    0 <= i < name@.len() ==> 'a' <= #[trigger] name@[i] <= 'z' || '0' <= name@[i]
                        <= '9' || name@[i] == '-'
            };
            let before = old(state).tunnel_manager@;
            let host = name@ + "."@ + before.domain;
            let taken = {
                ||| exists|id: Seq<char>| #[trigger]
                    before.sessions.contains_key(id) && before.sessions[id].public_host == host
                ||| exists|id: Seq<char>| #[trigger]
                    before.reservations.contains_key(id) && before.reservations[id].public_host
                        == host
            };
            match reply {
                Reply::Created(created) => valid && !taken && created.url@ == "https://"@ + host,
                Reply::Text { status, text } => {
                    &&& final(state).tunnel_manager@ == before
                    &&& {
                        ||| status == 400 && text@ == "invalid subdomain"@ && !valid
                        ||| status == 409 && text@ == "subdomain unavailable"@ && valid && taken
                        ||| status == 429 && text@ == "tunnel creation rate limit exceeded"@
                    }
                },
                Reply::Proxied { .. } => false,
            }
        }),
{
    request_is_answered(state, ip, request, reply);
}

/// A client that asks for no name is given one of the relay's making, or told that all of these are
/// taken, or that it asks too often; and only where that is so.
pub proof fn unnamed_request_is_answered(
    state: &mut AppState,
    ip: &str,
    request: CreateTunnelRequest,
    reply: Reply,
)
    requires
        call_ensures(AppState::create_tunnel, (state, ip, request), reply),
        request.subdomain is None,
    ensures
        match reply {
            Reply::Created(created) => exists|name: Seq<char>|
                {
                    &&& #[trigger] laws::tunnels::is_made_up(name)
                    &&& created.url@ == "https://"@ + (name + "."@
                        + old(state).tunnel_manager@.domain)
                },
            Reply::Text { status, text } => {
                &&& final(state).tunnel_manager@ == old(state).tunnel_manager@
                &&& {
                    ||| {
                        &&& status == 409
                        &&& text@ == "subdomain unavailable"@
                        &&& forall|name: Seq<char>| #[trigger]
                            laws::tunnels::is_made_up(name) ==> laws::tunnels::is_taken(
                                old(state).tunnel_manager@,
                                name + "."@ + old(state).tunnel_manager@.domain,
                            )
                    }
                    ||| status == 429 && text@ == "tunnel creation rate limit exceeded"@
                }
            },
            Reply::Proxied { .. } => false,
        },
{
    request_is_answered(state, ip, request, reply);
}

/// A request for a tunnel is answered as [`is_answered`] says.
pub proof fn request_is_answered(
    state: &mut AppState,
    ip: &str,
    request: CreateTunnelRequest,
    reply: Reply,
)
    requires
        call_ensures(AppState::create_tunnel, (state, ip, request), reply),
    ensures
        is_answered(old(state).tunnel_manager@, final(state).tunnel_manager@, request, reply),
{
    lemma_answered(
        old(state).tunnel_manager@,
        old(state).create_limiter@,
        final(state).tunnel_manager@,
        final(state).create_limiter@,
        ip@,
        request,
        reply,
    );
}

} // verus!
