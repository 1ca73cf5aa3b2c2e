//! The relay's books as a mathematical model, and the laws that they keep.
use crate::channel;
use crate::clock;
use crate::clock::Clock;
use crate::protocol;
use crate::protocol::{ControlMessage, ForwardResponse, TunnelCreated};
use crate::subdomain;
use crate::text;
use crate::token;
use crate::token::TOKEN_LENGTH;
use crate::tunnel_manager::{CreateTunnelError, DispatchError, RegisterError};
use crate::urls;
use tokio::sync::mpsc::UnboundedSender;
use tokio::sync::oneshot;
use vstd::prelude::*;
use vstd::set_lib::*;

verus! {

/// How long a reserved tunnel waits for its client: one minute.
pub const RESERVATION_TTL: u128 = 60_000_000_000;

/// What is known of a live tunnel.
#[verifier::ext_equal]
pub ghost struct SessionView {
    pub local_addr: Seq<char>,
    pub public_host: Seq<char>,
    pub last_seen: u128,
    pub link: channel::LinkView,
}

/// What is known of a reserved tunnel.
#[verifier::ext_equal]
pub ghost struct ReservationView {
    pub public_host: Seq<char>,
    pub local_addr: Seq<char>,
    pub registration_token: Seq<char>,
    pub expires_at: u128,
}

/// The relay's books: the domain and the clock that it goes by, its tunnels, those who wait for an
/// answer, and its outbox with every message that ever went through it.
#[verifier::ext_equal]
pub ghost struct Books {
    pub domain: Seq<char>,
    pub clock: Clock,
    pub sessions: Map<Seq<char>, SessionView>,
    pub reservations: Map<Seq<char>, ReservationView>,
    pub pending: Map<Seq<char>, oneshot::Sender<ForwardResponse>>,
    pub outbox: int,
    pub sent: Seq<channel::Sent>,
}

/// The tunnel id and the public host belong to one valid subdomain.
pub open spec fn belongs(tunnel_id: Seq<char>, host: Seq<char>, domain: Seq<char>) -> bool {
    exists|name: Seq<char>|
        {
            &&& #[trigger] subdomain::valid_subdomain(name)
            &&& tunnel_id == subdomain::tunnel_id_of(name)
            &&& host == subdomain::host_of(name, domain)
        }
}

/// The local address of a tunnel to a port.
pub open spec fn local_addr_of(port: u16) -> Seq<char> {
    "http://127.0.0.1:"@ + text::decimal(port as nat)
}

/// What the result of a creation says.
pub open spec fn created_view(result: Result<TunnelCreated, CreateTunnelError>) -> Result<
    protocol::TunnelCreatedView,
    CreateTunnelError,
> {
    match result {
        Ok(created) => Ok(created@),
        Err(error) => Err(error),
    }
}

impl Books {
    /// Every entry belongs to a valid subdomain, no tunnel is both reserved and live, and every
    /// client is reached through the outbox.
    pub open spec fn consistent(self) -> bool {
        &&& forall|id: Seq<char>| #[trigger]
            self.sessions.contains_key(id) ==> belongs(
                id,
                self.sessions[id].public_host,
                self.domain,
            )
        &&& forall|id: Seq<char>| #[trigger]
            self.reservations.contains_key(id) ==> belongs(
                id,
                self.reservations[id].public_host,
                self.domain,
            )
        &&& forall|id: Seq<char>|
            !(#[trigger] self.sessions.contains_key(id) && self.reservations.contains_key(id))
        &&& forall|id: Seq<char>| #[trigger]
            self.sessions.contains_key(id) ==> self.sessions[id].link.outbox == self.outbox
    }

    /// Some tunnel, reserved or live, has this public host.
    pub open spec fn host_taken(self, host: Seq<char>) -> bool {
        ||| exists|id: Seq<char>| #[trigger]
            self.sessions.contains_key(id) && self.sessions[id].public_host == host
        ||| exists|id: Seq<char>| #[trigger]
            self.reservations.contains_key(id) && self.reservations[id].public_host == host
    }

    /// The subdomain is free.
    pub open spec fn free(self, name: Seq<char>) -> bool {
        !self.host_taken(subdomain::host_of(name, self.domain))
    }

    /// Some name that a draw may give is taken.
    pub open spec fn drawn_name_taken(self) -> bool {
        exists|name: Seq<char>| subdomain::is_drawn(name) && !(#[trigger] self.free(name))
    }

    /// The reservation that a subdomain gets.
    pub open spec fn reservation(
        self,
        name: Seq<char>,
        port: u16,
        token: Seq<char>,
        now: u128,
    ) -> ReservationView {
        ReservationView {
            public_host: subdomain::host_of(name, self.domain),
            local_addr: local_addr_of(port),
            registration_token: token,
            expires_at: (now + RESERVATION_TTL) as u128,
        }
    }

    /// What a reservation of the subdomain is answered.
    pub open spec fn reserve_answer(self, name: Seq<char>, port: u16, token: Seq<char>) -> Result<
        protocol::TunnelCreatedView,
        CreateTunnelError,
    > {
        if self.free(name) {
            Ok(
                protocol::TunnelCreatedView {
                    tunnel_id: subdomain::tunnel_id_of(name),
                    url: "https://"@ + subdomain::host_of(name, self.domain),
                    local_addr: local_addr_of(port),
                    registration_token: token,
                },
            )
        } else {
            Err(CreateTunnelError::SubdomainUnavailable)
        }
    }

    /// The books after a reservation of the subdomain.
    pub open spec fn reserved(
        self,
        name: Seq<char>,
        port: u16,
        token: Seq<char>,
        now: u128,
    ) -> Books {
        if self.free(name) {
            Books {
                reservations: self.reservations.insert(
                    subdomain::tunnel_id_of(name),
                    self.reservation(name, port, token, now),
                ),
                ..self
            }
        } else {
            self
        }
    }

    /// A reservation of the subdomain under a token that one draw may give, at a time that the
    /// clock may read, leaves the books `after` and is answered `answer`.
    pub open spec fn reserved_with(
        self,
        name: Seq<char>,
        port: u16,
        token: Seq<char>,
        now: u128,
        after: Books,
        answer: Result<protocol::TunnelCreatedView, CreateTunnelError>,
    ) -> bool {
        &&& token::is_token(token, TOKEN_LENGTH as nat)
        &&& token::drawn(token)
        &&& self.clock.reads(now)
        &&& after == self.reserved(name, port, token, now)
        &&& answer == self.reserve_answer(name, port, token)
    }

    /// A request for a tunnel may leave the books `after` and be answered `answer`. A client that
    /// asks for a name gets that name or none. A client that asks for none gets a free name of
    /// the relay's making, and is refused only where every such name is taken. The name is one
    /// that a draw may give, unless a name that a draw may give is taken.
    pub open spec fn created(
        self,
        request: protocol::CreateTunnelRequestView,
        after: Books,
        answer: Result<protocol::TunnelCreatedView, CreateTunnelError>,
    ) -> bool {
        match request.subdomain {
            Some(asked) => {
                let name = subdomain::normalized(asked);
                if subdomain::valid_subdomain(name) {
                    exists|token: Seq<char>, now: u128| #[trigger]
                        self.reserved_with(name, request.port, token, now, after, answer)
                } else {
                    after == self && answer == Err::<protocol::TunnelCreatedView, _>(
                        CreateTunnelError::InvalidSubdomain,
                    )
                }
            },
            None => {
                ||| exists|name: Seq<char>, token: Seq<char>, now: u128|
                    {
                        &&& subdomain::is_generated(name)
                        &&& self.free(name)
                        &&& subdomain::is_drawn(name) || self.drawn_name_taken()
                        &&& #[trigger] self.reserved_with(
                            name,
                            request.port,
                            token,
                            now,
                            after,
                            answer,
                        )
                    }
                ||| {
                    &&& forall|name: Seq<char>|
                        subdomain::is_generated(name) ==> !(#[trigger] self.free(name))
                    &&& after == self
                    &&& answer == Err::<protocol::TunnelCreatedView, _>(
                        CreateTunnelError::SubdomainUnavailable,
                    )
                }
            },
        }
    }

    /// What a registration is answered. The first objection decides.
    pub open spec fn register_answer(
        self,
        id: Seq<char>,
        addr: Seq<char>,
        token: Seq<char>,
        now: u128,
    ) -> Result<(), RegisterError> {
        if !self.reservations.contains_key(id) {
            Err(RegisterError::NoReservation)
        } else if self.reservations[id].registration_token != token {
            Err(RegisterError::InvalidToken)
        } else if self.reservations[id].expires_at < now {
            Err(RegisterError::ReservationExpired)
        } else if self.reservations[id].local_addr != addr {
            Err(RegisterError::AddressMismatch)
        } else {
            Ok(())
        }
    }

    /// The books after a registration: the reservation is used up in any case, and becomes a
    /// live tunnel where nothing was objected.
    pub open spec fn registered(
        self,
        id: Seq<char>,
        addr: Seq<char>,
        token: Seq<char>,
        link: channel::LinkView,
        now: u128,
    ) -> Books {
        let used = self.without_reservation(id);
        if self.register_answer(id, addr, token, now) is Ok {
            let reservation = self.reservations[id];
            Books {
                sessions: self.sessions.insert(
                    id,
                    SessionView {
                        local_addr: reservation.local_addr,
                        public_host: reservation.public_host,
                        last_seen: now,
                        link,
                    },
                ),
                ..used
            }
        } else {
            used
        }
    }

    /// The books without a reservation.
    pub open spec fn without_reservation(self, id: Seq<char>) -> Books {
        Books { reservations: self.reservations.remove(id), ..self }
    }

    /// The books without a live tunnel.
    pub open spec fn without_session(self, id: Seq<char>) -> Books {
        Books { sessions: self.sessions.remove(id), ..self }
    }

    /// The books after a sign of life.
    pub open spec fn seen(self, id: Seq<char>, now: u128) -> Books {
        if self.sessions.contains_key(id) {
            Books {
                sessions: self.sessions.insert(
                    id,
                    SessionView { last_seen: now, ..self.sessions[id] },
                ),
                ..self
            }
        } else {
            self
        }
    }

    /// The books with those live tunnels alone that were seen within `max_age`.
    pub open spec fn with_fresh_sessions(self, max_age: u128, now: u128) -> Books {
        Books {
            sessions: self.sessions.restrict(
                Set::new(
                    |id: Seq<char>|
                        self.sessions.contains_key(id) && clock::age(
                            now,
                            self.sessions[id].last_seen,
                        ) <= max_age,
                ),
            ),
            ..self
        }
    }

    /// The books with those reservations alone that expire later than now.
    pub open spec fn with_valid_reservations(self, now: u128) -> Books {
        Books {
            reservations: self.reservations.restrict(
                Set::new(
                    |id: Seq<char>|
                        self.reservations.contains_key(id) && self.reservations[id].expires_at
                            > now,
                ),
            ),
            ..self
        }
    }

    /// The books in which `reply` waits for the answer to a request.
    pub open spec fn waiting(
        self,
        request_id: Seq<char>,
        reply: oneshot::Sender<ForwardResponse>,
    ) -> Books {
        Books { pending: self.pending.insert(request_id, reply), ..self }
    }

    /// The books in which nobody waits for the answer to a request.
    pub open spec fn not_waiting(self, request_id: Seq<char>) -> Books {
        Books { pending: self.pending.remove(request_id), ..self }
    }

    /// The books after a message was sent.
    pub open spec fn sending(
        self,
        channel: UnboundedSender<ControlMessage>,
        message: ControlMessage,
        delivered: bool,
    ) -> Books {
        Books { sent: self.sent.push(channel::Sent { channel, message, delivered }), ..self }
    }

    /// A dispatch over the one-shot channel of `reply` and `waiting`, whose send ended with `sent`,
    /// leaves the books `after` and returns `outcome`.
    pub open spec fn dispatched_on(
        self,
        reply: oneshot::Sender<ForwardResponse>,
        waiting: oneshot::Receiver<ForwardResponse>,
        sent: bool,
        tunnel_id: Seq<char>,
        request_id: Seq<char>,
        message: ControlMessage,
        after: Books,
        outcome: Result<oneshot::Receiver<ForwardResponse>, DispatchError>,
    ) -> bool {
        let channel = self.sessions[tunnel_id].link.channel;
        &&& channel::one_channel(reply, waiting)
        &&& if sent {
            after == self.waiting(request_id, reply).sending(channel, message, true) && outcome
                == Ok::<_, DispatchError>(waiting)
        } else {
            after == self.not_waiting(request_id).sending(channel, message, false) && outcome
                == Err::<oneshot::Receiver<ForwardResponse>, _>(DispatchError::SendFailed)
        }
    }

    /// A dispatch may leave the books `after` and return `outcome`: where the tunnel is live, the
    /// message, and no other, is sent to its client, and to no one else, and the far end of the
    /// channel that is returned waits for the answer exactly where the send succeeded. Where the
    /// tunnel is not live, nothing is sent.
    pub open spec fn dispatched(
        self,
        tunnel_id: Seq<char>,
        request_id: Seq<char>,
        message: ControlMessage,
        after: Books,
        outcome: Result<oneshot::Receiver<ForwardResponse>, DispatchError>,
    ) -> bool {
        if self.sessions.contains_key(tunnel_id) {
            exists|
                reply: oneshot::Sender<ForwardResponse>,
                waiting: oneshot::Receiver<ForwardResponse>,
                sent: bool,
            | #[trigger]
                self.dispatched_on(
                    reply,
                    waiting,
                    sent,
                    tunnel_id,
                    request_id,
                    message,
                    after,
                    outcome,
                )
        } else {
            after == self && outcome == Err::<oneshot::Receiver<ForwardResponse>, _>(
                DispatchError::NoSession,
            )
        }
    }
}

pub(crate) proof fn lemma_free_name_has_no_entry(books: Books, name: Seq<char>)
    requires
        books.consistent(),
        subdomain::valid_subdomain(name),
        books.free(name),
    ensures
        !books.sessions.contains_key(subdomain::tunnel_id_of(name)),
        !books.reservations.contains_key(subdomain::tunnel_id_of(name)),
{
    let id = subdomain::tunnel_id_of(name);
    if books.sessions.contains_key(id) {
        let other = choose|other: Seq<char>|
            {
                &&& #[trigger] subdomain::valid_subdomain(other)
                &&& id == subdomain::tunnel_id_of(other)
                &&& books.sessions[id].public_host == subdomain::host_of(other, books.domain)
            };
        subdomain::tunnel_ids_are_distinct(name, other);
    }
    if books.reservations.contains_key(id) {
        let other = choose|other: Seq<char>|
            {
                &&& #[trigger] subdomain::valid_subdomain(other)
                &&& id == subdomain::tunnel_id_of(other)
                &&& books.reservations[id].public_host == subdomain::host_of(other, books.domain)
            };
        subdomain::tunnel_ids_are_distinct(name, other);
    }
}

pub(crate) proof fn lemma_fewer_entries(books: Books, after: Books)
    requires
        books.consistent(),
        after.domain == books.domain,
        after.outbox == books.outbox,
        after.sessions.submap_of(books.sessions),
        after.reservations.submap_of(books.reservations),
    ensures
        after.consistent(),
{
    assert forall|id: Seq<char>| #[trigger] after.sessions.contains_key(id) implies belongs(
        id,
        after.sessions[id].public_host,
        after.domain,
    ) && !after.reservations.contains_key(id) && after.sessions[id].link.outbox == after.outbox by {
        assert(books.sessions.contains_key(id));
    }
    assert forall|id: Seq<char>| #[trigger] after.reservations.contains_key(id) implies belongs(
        id,
        after.reservations[id].public_host,
        after.domain,
    ) by {
        assert(books.reservations.contains_key(id));
    }
}

/// A claim keeps the books consistent, whether it is granted or refused.
pub proof fn claiming_keeps_books_consistent(
    books: Books,
    id: Seq<char>,
    addr: Seq<char>,
    token: Seq<char>,
    link: channel::LinkView,
    now: u128,
)
    requires
        books.consistent(),
        link.outbox == books.outbox,
    ensures
        books.registered(id, addr, token, link, now).consistent(),
{
    let after = books.registered(id, addr, token, link, now);
    let used = books.without_reservation(id);
    lemma_fewer_entries(books, used);
    if books.register_answer(id, addr, token, now) is Ok {
        assert forall|other: Seq<char>| #[trigger] after.sessions.contains_key(
            other,
        ) implies belongs(other, after.sessions[other].public_host, after.domain)
            && !after.reservations.contains_key(other) && after.sessions[other].link.outbox
            == after.outbox by {
            if other != id {
                assert(used.sessions.contains_key(other));
            } else {
                assert(books.reservations.contains_key(id));
            }
        }
        assert forall|other: Seq<char>| #[trigger] after.reservations.contains_key(
            other,
        ) implies belongs(other, after.reservations[other].public_host, after.domain) by {
            assert(used.reservations.contains_key(other));
        }
    }
}

/// A sign of life keeps the books consistent.
pub proof fn beating_keeps_books_consistent(books: Books, id: Seq<char>, now: u128)
    requires
        books.consistent(),
    ensures
        books.seen(id, now).consistent(),
{
    let after = books.seen(id, now);
    assert forall|other: Seq<char>| #[trigger] after.sessions.contains_key(other) implies belongs(
        other,
        after.sessions[other].public_host,
        after.domain,
    ) && !after.reservations.contains_key(other) && after.sessions[other].link.outbox
        == after.outbox by {
        assert(books.sessions.contains_key(other));
    }
    assert forall|other: Seq<char>| #[trigger] after.reservations.contains_key(
        other,
    ) implies belongs(other, after.reservations[other].public_host, after.domain) by {
        assert(books.reservations.contains_key(other));
    }
}

pub(crate) proof fn lemma_created(
    books: Books,
    request: protocol::CreateTunnelRequestView,
    name: Seq<char>,
    token: Seq<char>,
    now: u128,
    after: Books,
    answer: Result<protocol::TunnelCreatedView, CreateTunnelError>,
)
    requires
        match request.subdomain {
            Some(asked) => subdomain::valid_subdomain(name) && name == subdomain::normalized(asked),
            None => {
                &&& subdomain::is_generated(name)
                &&& books.free(name)
                &&& subdomain::is_drawn(name) || books.drawn_name_taken()
            },
        },
        books.reserved_with(name, request.port, token, now, after, answer),
    ensures
        books.created(request, after, answer),
{
}

/// A reservation keeps the books consistent, and overwrites no tunnel.
pub proof fn reserving_keeps_books_consistent(
    books: Books,
    name: Seq<char>,
    port: u16,
    token: Seq<char>,
    now: u128,
)
    requires
        books.consistent(),
        subdomain::valid_subdomain(name),
    ensures
        books.reserved(name, port, token, now).consistent(),
        books.free(name) ==> !books.sessions.contains_key(subdomain::tunnel_id_of(name))
            && !books.reservations.contains_key(subdomain::tunnel_id_of(name)),
{
    if books.free(name) {
        lemma_free_name_has_no_entry(books, name);
    }
}

/// Some tunnel with this id is reserved or live, under this public host.
pub open spec fn holds(books: Books, id: Seq<char>, host: Seq<char>) -> bool {
    ||| books.sessions.contains_key(id) && books.sessions[id].public_host == host
    ||| books.reservations.contains_key(id) && books.reservations[id].public_host == host
}

/// No two tunnels, reserved or live, share a public host.
pub proof fn every_host_has_one_owner(books: Books, a: Seq<char>, b: Seq<char>, host: Seq<char>)
    requires
        books.consistent(),
        holds(books, a, host),
        holds(books, b, host),
    ensures
        a == b,
{
    assert(belongs(a, host, books.domain));
    assert(belongs(b, host, books.domain));
    let name_a = choose|name: Seq<char>|
        {
            &&& #[trigger] subdomain::valid_subdomain(name)
            &&& a == subdomain::tunnel_id_of(name)
            &&& host == subdomain::host_of(name, books.domain)
        };
    let name_b = choose|name: Seq<char>|
        {
            &&& #[trigger] subdomain::valid_subdomain(name)
            &&& b == subdomain::tunnel_id_of(name)
            &&& host == subdomain::host_of(name, books.domain)
        };
    subdomain::hosts_are_distinct(name_a, name_b, books.domain);
}

/// The host of a tunnel, reserved or live, leads the relay to that tunnel.
pub proof fn every_host_leads_to_its_owner(books: Books, id: Seq<char>, host: Seq<char>)
    requires
        books.consistent(),
        subdomain::routable_domain(books.domain),
        holds(books, id, host),
    ensures
        subdomain::route(books.domain, host) == Some(id),
{
    assert(belongs(id, host, books.domain));
    let name = choose|name: Seq<char>|
        {
            &&& #[trigger] subdomain::valid_subdomain(name)
            &&& id == subdomain::tunnel_id_of(name)
            &&& host == subdomain::host_of(name, books.domain)
        };
    subdomain::public_host_leads_to_its_tunnel(name, books.domain, Seq::empty());
    assert(host + Seq::<char>::empty() =~= host);
}

/// The URL that a client is given, and the host that the client reads out of it, lead the relay to
/// the tunnel that the client was given, with or without a port behind the host.
pub proof fn given_url_leads_to_given_tunnel(
    books: Books,
    name: Seq<char>,
    port: u16,
    token: Seq<char>,
    suffix: Seq<char>,
)
    requires
        subdomain::valid_subdomain(name),
        subdomain::routable_domain(books.domain),
        books.domain.len() == 0 || books.domain.last() != '/',
        books.free(name),
        suffix.len() == 0 || suffix[0] == ':',
    ensures
        books.reserve_answer(name, port, token) matches Ok(created) && subdomain::route(
            books.domain,
            urls::host_in(created.url) + suffix,
        ) == Some(created.tunnel_id),
{
    reveal_strlit(".");
    let host = subdomain::host_of(name, books.domain);
    subdomain::lemma_host_parts(name, books.domain);
    if books.domain.len() > 0 {
        assert(host.last() == books.domain.last());
    } else {
        assert(host.last() == '.');
    }
    urls::lemma_no_colon_no_scheme(host);
    urls::public_url_names_its_host(host);
    subdomain::public_host_leads_to_its_tunnel(name, books.domain, suffix);
}

/// A name is taken exactly where its tunnel is reserved or live.
pub proof fn name_is_taken_by_its_own_tunnel(books: Books, name: Seq<char>)
    requires
        books.consistent(),
        subdomain::valid_subdomain(name),
    ensures
        books.free(name) == (!books.sessions.contains_key(subdomain::tunnel_id_of(name))
            && !books.reservations.contains_key(subdomain::tunnel_id_of(name))),
{
    let id = subdomain::tunnel_id_of(name);
    let host = subdomain::host_of(name, books.domain);
    if books.free(name) {
        lemma_free_name_has_no_entry(books, name);
    } else {
        let owner = if exists|id: Seq<char>| #[trigger]
            books.sessions.contains_key(id) && books.sessions[id].public_host == host {
            choose|id: Seq<char>| #[trigger]
                books.sessions.contains_key(id) && books.sessions[id].public_host == host
        } else {
            choose|id: Seq<char>| #[trigger]
                books.reservations.contains_key(id) && books.reservations[id].public_host == host
        };
        assert(holds(books, owner, host));
        assert(belongs(owner, host, books.domain));
        let other = choose|other: Seq<char>|
            {
                &&& #[trigger] subdomain::valid_subdomain(other)
                &&& owner == subdomain::tunnel_id_of(other)
                &&& host == subdomain::host_of(other, books.domain)
            };
        subdomain::hosts_are_distinct(name, other, books.domain);
    }
}

/// Once a name is reserved, a second request for it is refused and changes nothing, whatever its
/// port, its token and its time.
pub proof fn reserved_name_is_refused(
    books: Books,
    name: Seq<char>,
    port: u16,
    token: Seq<char>,
    now: u128,
    port2: u16,
    token2: Seq<char>,
    now2: u128,
)
    ensures
        books.reserved(name, port, token, now).reserve_answer(name, port2, token2) == Err::<
            protocol::TunnelCreatedView,
            _,
        >(CreateTunnelError::SubdomainUnavailable),
        books.reserved(name, port, token, now).reserved(name, port2, token2, now2)
            == books.reserved(name, port, token, now),
{
    let after = books.reserved(name, port, token, now);
    if books.free(name) {
        assert(after.reservations.contains_key(subdomain::tunnel_id_of(name)));
    }
    assert(!after.free(name));
}

/// A client that claims its reservation in time, with the token and the address that it was
/// given, gets a live tunnel under the reserved host, and the reservation is gone.
pub proof fn reserved_tunnel_goes_live(
    books: Books,
    name: Seq<char>,
    port: u16,
    token: Seq<char>,
    link: channel::LinkView,
    reserved_at: u128,
    claimed_at: u128,
)
    requires
        books.consistent(),
        subdomain::valid_subdomain(name),
        books.free(name),
        claimed_at <= reserved_at + RESERVATION_TTL <= u128::MAX,
    ensures
        ({
            let id = subdomain::tunnel_id_of(name);
            let reserved = books.reserved(name, port, token, reserved_at);
            let live = reserved.registered(id, local_addr_of(port), token, link, claimed_at);
            &&& reserved.register_answer(id, local_addr_of(port), token, claimed_at) == Ok::<
                (),
                RegisterError,
            >(())
            &&& live.sessions == books.sessions.insert(
                id,
                SessionView {
                    local_addr: local_addr_of(port),
                    public_host: subdomain::host_of(name, books.domain),
                    last_seen: claimed_at,
                    link,
                },
            )
            &&& live.reservations == books.reservations
        }),
{
    lemma_free_name_has_no_entry(books, name);
    let id = subdomain::tunnel_id_of(name);
    let reserved = books.reserved(name, port, token, reserved_at);
    assert(reserved.reservations.remove(id) =~= books.reservations);
}

/// A claim that comes too late, with another token or with another address, is refused.
pub proof fn false_claim_is_refused(
    books: Books,
    id: Seq<char>,
    addr: Seq<char>,
    token: Seq<char>,
    now: u128,
)
    requires
        books.reservations.contains_key(id),
        ({
            ||| books.reservations[id].registration_token != token
            ||| books.reservations[id].local_addr != addr
            ||| books.reservations[id].expires_at < now
        }),
    ensures
        books.register_answer(id, addr, token, now) is Err,
{
}

/// A claim uses up the reservation, whether it is granted or refused: the next one finds none.
pub proof fn claim_uses_up_the_reservation(
    books: Books,
    id: Seq<char>,
    addr: Seq<char>,
    token: Seq<char>,
    link: channel::LinkView,
    now: u128,
    addr2: Seq<char>,
    token2: Seq<char>,
    now2: u128,
)
    ensures
        books.registered(id, addr, token, link, now).register_answer(id, addr2, token2, now2)
            == Err::<(), _>(RegisterError::NoReservation),
{
}

/// A refused claim opens no tunnel, and frees the name that was reserved.
pub proof fn refused_claim_frees_the_name(
    books: Books,
    name: Seq<char>,
    addr: Seq<char>,
    token: Seq<char>,
    link: channel::LinkView,
    now: u128,
)
    requires
        books.consistent(),
        subdomain::valid_subdomain(name),
        books.reservations.contains_key(subdomain::tunnel_id_of(name)),
        books.register_answer(subdomain::tunnel_id_of(name), addr, token, now) is Err,
    ensures
        ({
            let id = subdomain::tunnel_id_of(name);
            let after = books.registered(id, addr, token, link, now);
            after.sessions == books.sessions && after.free(name)
        }),
{
    let id = subdomain::tunnel_id_of(name);
    let after = books.registered(id, addr, token, link, now);
    lemma_fewer_entries(books, after);
    name_is_taken_by_its_own_tunnel(after, name);
}

/// A claim concerns its own tunnel alone.
pub proof fn claim_leaves_other_tunnels_alone(
    books: Books,
    id: Seq<char>,
    addr: Seq<char>,
    token: Seq<char>,
    link: channel::LinkView,
    now: u128,
    other: Seq<char>,
)
    requires
        other != id,
    ensures
        ({
            let after = books.registered(id, addr, token, link, now);
            &&& after.sessions.contains_key(other) == books.sessions.contains_key(other)
            &&& after.sessions[other] == books.sessions[other]
            &&& after.reservations.contains_key(other) == books.reservations.contains_key(other)
            &&& after.reservations[other] == books.reservations[other]
            &&& after.pending == books.pending
        }),
{
}

/// A live tunnel keeps its name: as long as it lives, the name is refused to others.
pub proof fn live_tunnel_keeps_its_name(
    books: Books,
    name: Seq<char>,
    port: u16,
    token: Seq<char>,
)
    requires
        books.consistent(),
        subdomain::valid_subdomain(name),
        books.sessions.contains_key(subdomain::tunnel_id_of(name)),
    ensures
        books.reserve_answer(name, port, token) == Err::<protocol::TunnelCreatedView, _>(
            CreateTunnelError::SubdomainUnavailable,
        ),
{
    name_is_taken_by_its_own_tunnel(books, name);
}

/// When a live tunnel is dropped, its name is free again.
pub proof fn dropped_tunnel_frees_its_name(books: Books, name: Seq<char>)
    requires
        books.consistent(),
        subdomain::valid_subdomain(name),
        books.sessions.contains_key(subdomain::tunnel_id_of(name)),
    ensures
        books.without_session(subdomain::tunnel_id_of(name)).free(name),
{
    let after = books.without_session(subdomain::tunnel_id_of(name));
    lemma_fewer_entries(books, after);
    name_is_taken_by_its_own_tunnel(after, name);
}

/// A tunnel that gave a sign of life within `max_age` outlives the pruning, unchanged but for the
/// time of that sign.
pub proof fn heartbeat_keeps_a_tunnel_alive(
    books: Books,
    id: Seq<char>,
    seen_at: u128,
    max_age: u128,
    now: u128,
)
    requires
        books.sessions.contains_key(id),
        now - seen_at <= max_age,
    ensures
        ({
            let after = books.seen(id, seen_at).with_fresh_sessions(max_age, now);
            &&& after.sessions.contains_key(id)
            &&& after.sessions[id] == (SessionView { last_seen: seen_at, ..books.sessions[id] })
        }),
{
}

/// A tunnel that was silent for longer than `max_age` falls to the pruning, and its name is free
/// again.
pub proof fn silent_tunnel_is_pruned(books: Books, name: Seq<char>, max_age: u128, now: u128)
    requires
        books.consistent(),
        subdomain::valid_subdomain(name),
        books.sessions.contains_key(subdomain::tunnel_id_of(name)),
        now - books.sessions[subdomain::tunnel_id_of(name)].last_seen > max_age,
    ensures
        books.with_fresh_sessions(max_age, now).free(name),
{
    let after = books.with_fresh_sessions(max_age, now);
    assert(after.sessions.submap_of(books.sessions));
    lemma_fewer_entries(books, after);
    name_is_taken_by_its_own_tunnel(after, name);
}

/// A reservation that has run out falls to the pruning, and its name is free again.
pub proof fn expired_reservation_is_pruned(books: Books, name: Seq<char>, now: u128)
    requires
        books.consistent(),
        subdomain::valid_subdomain(name),
        books.reservations.contains_key(subdomain::tunnel_id_of(name)),
        books.reservations[subdomain::tunnel_id_of(name)].expires_at <= now,
    ensures
        books.with_valid_reservations(now).free(name),
{
    let after = books.with_valid_reservations(now);
    assert(after.reservations.submap_of(books.reservations));
    lemma_fewer_entries(books, after);
    name_is_taken_by_its_own_tunnel(after, name);
}

/// Pruning drops no reservation that could still be claimed later than now.
pub proof fn pruning_keeps_open_reservations(books: Books, id: Seq<char>, now: u128)
    requires
        books.reservations.contains_key(id),
        books.reservations[id].expires_at > now,
    ensures
        books.with_valid_reservations(now).reservations.contains_key(id),
        books.with_valid_reservations(now).reservations[id] == books.reservations[id],
{
}

/// After a dispatch that succeeded, what waits for the answer is the far end of the channel that
/// the dispatch returned.
pub proof fn dispatched_request_waits_for_its_answer(
    books: Books,
    tunnel_id: Seq<char>,
    request_id: Seq<char>,
    message: ControlMessage,
    after: Books,
    waiting: oneshot::Receiver<ForwardResponse>,
)
    requires
        books.dispatched(
            tunnel_id,
            request_id,
            message,
            after,
            Ok::<_, DispatchError>(waiting),
        ),
    ensures
        books.sessions.contains_key(tunnel_id),
        after.pending.contains_key(request_id),
        channel::one_channel(after.pending[request_id], waiting),
{
}

/// After a dispatch that failed nobody waits for an answer who did not wait before, and the
/// tunnels are as they were.
pub proof fn failed_dispatch_leaves_nothing_waiting(
    books: Books,
    tunnel_id: Seq<char>,
    request_id: Seq<char>,
    message: ControlMessage,
    after: Books,
    error: DispatchError,
)
    requires
        books.dispatched(
            tunnel_id,
            request_id,
            message,
            after,
            Err::<oneshot::Receiver<ForwardResponse>, _>(error),
        ),
    ensures
        after.pending.submap_of(books.pending),
        after.sessions == books.sessions,
        after.reservations == books.reservations,
        error == DispatchError::NoSession <==> !books.sessions.contains_key(tunnel_id),
{
}

/// An answer is taken once: after it, nobody waits for an answer to the same request, and those
/// who wait for another wait on.
pub proof fn answer_is_taken_once(books: Books, request_id: Seq<char>, other: Seq<char>)
    requires
        other != request_id,
    ensures
        !books.not_waiting(request_id).pending.contains_key(request_id),
        books.not_waiting(request_id).pending.contains_key(other) == books.pending.contains_key(
            other,
        ),
        books.not_waiting(request_id).pending[other] == books.pending[other],
{
}

/// An answer that nobody waits for changes nothing.
pub proof fn stray_answer_changes_nothing(books: Books, request_id: Seq<char>)
    requires
        !books.pending.contains_key(request_id),
    ensures
        books.not_waiting(request_id) == books,
{
    assert(books.pending.remove(request_id) =~= books.pending);
}

/// A request that is forwarded through a tunnel goes to the port that the tunnel was made for, on
/// the client's own machine.
pub proof fn tunnel_leads_to_its_port(port: u16, path: Seq<char>, query: Option<Seq<char>>)
    ensures
        urls::local_url(local_addr_of(port), path, query) == local_addr_of(port) + urls::rooted(
            path,
        ) + (match query {
            Some(query) if query.len() > 0 => "?"@ + query,
            _ => Seq::empty(),
        }),
{
    let addr = local_addr_of(port);
    let digits = text::decimal(port as nat);
    assert(digits.last() == text::digit_char(port as nat % 10));
    assert(addr.last() == digits.last());
    assert(urls::base_url(addr) == addr);
    assert(urls::local_url(addr, path, query) =~= addr + urls::rooted(path) + (match query {
        Some(query) if query.len() > 0 => "?"@ + query,
        _ => Seq::empty(),
    }));
}

/// As long as there are fewer tunnels, reserved and live, than names that the relay can make up,
/// some such name is free.
pub proof fn some_generated_name_is_free(books: Books)
    requires
        books.consistent(),
        books.sessions.dom().finite(),
        books.reservations.dom().finite(),
        books.sessions.len() + books.reservations.len() < subdomain::GENERATED_NAMES,
    ensures
        exists|name: Seq<char>| subdomain::is_generated(name) && #[trigger] books.free(name),
{
    if forall|name: Seq<char>| subdomain::is_generated(name) ==> !(#[trigger] books.free(name)) {
        let numbers = set_int_range(0, subdomain::GENERATED_NAMES as int);
        let id_of = |n: int| subdomain::tunnel_id_of(subdomain::numbered_name(n as nat));
        let ids = numbers.map(id_of);
        let taken = books.sessions.dom().union(books.reservations.dom());
        assert forall|a: int, b: int|
            numbers.contains(a) && numbers.contains(b) && #[trigger] id_of(a) == #[trigger] id_of(
                b,
            ) implies a == b by {
            let name_a = subdomain::numbered_name(a as nat);
            let name_b = subdomain::numbered_name(b as nat);
            subdomain::numbered_name_is_generated(a as nat);
            subdomain::numbered_name_is_generated(b as nat);
            subdomain::generated_subdomain_is_valid(name_a);
            subdomain::generated_subdomain_is_valid(name_b);
            subdomain::tunnel_ids_are_distinct(name_a, name_b);
            subdomain::numbered_names_are_distinct(a as nat, b as nat);
        }
        lemma_int_range(0, subdomain::GENERATED_NAMES as int);
        lemma_map_size(numbers, ids, id_of);
        assert forall|id: Seq<char>| ids.contains(id) implies taken.contains(id) by {
            let n = choose|n: int| numbers.contains(n) && id_of(n) == id;
            let name = subdomain::numbered_name(n as nat);
            subdomain::numbered_name_is_generated(n as nat);
            subdomain::generated_subdomain_is_valid(name);
            assert(!books.free(name));
            name_is_taken_by_its_own_tunnel(books, name);
        }
        lemma_len_subset(ids, taken);
        lemma_len_union(books.sessions.dom(), books.reservations.dom());
        assert(false);
    }
}

/// A client that names no subdomain gets a tunnel, as long as there are fewer tunnels than names
/// that the relay can make up.
pub proof fn unnamed_request_is_served(
    books: Books,
    request: protocol::CreateTunnelRequestView,
    after: Books,
    answer: Result<protocol::TunnelCreatedView, CreateTunnelError>,
)
    requires
        books.consistent(),
        books.sessions.dom().finite(),
        books.reservations.dom().finite(),
        books.sessions.len() + books.reservations.len() < subdomain::GENERATED_NAMES,
        request.subdomain is None,
        books.created(request, after, answer),
    ensures
        answer is Ok,
{
    some_generated_name_is_free(books);
}

/// A request for a tunnel that was served leaves a reservation that can be claimed, with the token
/// and the address that were given, for a minute from a time that the clock may read.
pub proof fn created_tunnel_can_be_claimed(
    books: Books,
    request: protocol::CreateTunnelRequestView,
    after: Books,
    created: protocol::TunnelCreatedView,
)
    requires
        books.created(request, after, Ok(created)),
    ensures
        exists|now: u128| #[trigger] claimable_from(books, after, created, now),
{
    let (name, token, now) = match request.subdomain {
        Some(asked) => {
            let name = subdomain::normalized(asked);
            let (token, now) = choose|token: Seq<char>, now: u128| #[trigger]
                books.reserved_with(name, request.port, token, now, after, Ok(created));
            (name, token, now)
        },
        None => choose|name: Seq<char>, token: Seq<char>, now: u128| #[trigger]
            books.reserved_with(name, request.port, token, now, after, Ok(created)),
    };
    assert(books.reserved_with(name, request.port, token, now, after, Ok(created)));
    books.clock.reading_is_bounded(now);
    assert(claimable_from(books, after, created, now));
}

/// The tunnel was reserved at the time `now`, which the clock may read, and its claim is granted
/// for a minute.
pub open spec fn claimable_from(
    books: Books,
    after: Books,
    created: protocol::TunnelCreatedView,
    now: u128,
) -> bool {
    let id = created.tunnel_id;
    &&& books.clock.reads(now)
    &&& after.reservations.contains_key(id)
    &&& after.reservations[id].expires_at == now + RESERVATION_TTL
    &&& forall|claimed_at: u128|
        #![trigger after.register_answer(
            id,
            created.local_addr,
            created.registration_token,
            claimed_at,
        )]
        (after.register_answer(
            id,
            created.local_addr,
            created.registration_token,
            claimed_at,
        ) is Ok) == (claimed_at <= now + RESERVATION_TTL)
}

} // verus!
