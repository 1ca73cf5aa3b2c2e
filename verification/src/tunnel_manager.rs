//! The relay's tunnels: which tunnels are reserved, which are live, and who waits for an answer.
use crate::books;
use crate::books::RESERVATION_TTL;
use crate::channel;
use crate::channel::{answer_channel, send_answer, send_unbounded, Link, Outbox};
use crate::clock;
use crate::clock::{time_since, Clock};
use crate::protocol;
use crate::protocol::{ControlMessage, CreateTunnelRequest, ForwardResponse, TunnelCreated};
use crate::subdomain;
use crate::subdomain::{
    generated_subdomain, host_for, is_valid_subdomain, normalize_subdomain, numbered_subdomain,
    tunnel_for_host, tunnel_id_for, GENERATED_NAMES,
};
use crate::table::Table;
use crate::text::{join2, same_text, to_decimal};
use crate::token::{random_token, TOKEN_LENGTH};
use tokio::sync::mpsc::UnboundedSender;
use tokio::sync::oneshot;
use vstd::prelude::*;

verus! {

/// How many names are drawn before the names are gone through by number.
const DRAWS: u64 = 1000;

/// A live tunnel.
pub struct ClientSession {
    pub local_addr: String,
    pub public_host: String,
    pub last_seen: u128,
    pub sender: Link,
}

#[derive(Debug, Clone)]
struct TunnelReservation {
    public_host: String,
    local_addr: String,
    registration_token: String,
    expires_at: u128,
}

/// Why a tunnel was not created.
#[derive(Debug, Clone, Copy, PartialEq, Eq, Structural)]
pub enum CreateTunnelError {
    InvalidSubdomain,
    SubdomainUnavailable,
}

/// Why a client was not registered.
#[derive(Debug, Clone, Copy, PartialEq, Eq, Structural)]
pub enum RegisterError {
    NoReservation,
    InvalidToken,
    ReservationExpired,
    AddressMismatch,
}

/// Why a request was not handed to a client.
#[derive(Debug, Clone, Copy, PartialEq, Eq, Structural)]
pub enum DispatchError {
    NoSession,
    SendFailed,
}

/// What a registration error says.
pub open spec fn register_error_text(error: RegisterError) -> Seq<char> {
    match error {
        RegisterError::NoReservation => "no pending tunnel reservation found"@,
        RegisterError::InvalidToken => "invalid registration token"@,
        RegisterError::ReservationExpired => "tunnel reservation expired"@,
        RegisterError::AddressMismatch => "local address does not match reserved tunnel"@,
    }
}

impl RegisterError {
    /// Computes [`register_error_text`].
    pub fn message(&self) -> (message: &'static str)
        ensures
            message@ == register_error_text(*self),
    {
        match self {
            RegisterError::NoReservation => "no pending tunnel reservation found",
            RegisterError::InvalidToken => "invalid registration token",
            RegisterError::ReservationExpired => "tunnel reservation expired",
            RegisterError::AddressMismatch => "local address does not match reserved tunnel",
        }
    }
}

/// What a dispatch error says.
pub open spec fn dispatch_error_text(error: DispatchError) -> Seq<char> {
    match error {
        DispatchError::NoSession => "no active tunnel session found"@,
        DispatchError::SendFailed => "failed to send forwarded request to client"@,
    }
}

impl DispatchError {
    /// Computes [`dispatch_error_text`].
    pub fn message(&self) -> (message: &'static str)
        ensures
            message@ == dispatch_error_text(*self),
    {
        match self {
            DispatchError::NoSession => "no active tunnel session found",
            DispatchError::SendFailed => "failed to send forwarded request to client",
        }
    }
}

impl View for ClientSession {
    type V = books::SessionView;

    open spec fn view(&self) -> books::SessionView {
        books::SessionView {
            local_addr: self.local_addr@,
            public_host: self.public_host@,
            last_seen: self.last_seen,
            link: self.sender@,
        }
    }
}

impl View for TunnelReservation {
    type V = books::ReservationView;

    closed spec fn view(&self) -> books::ReservationView {
        books::ReservationView {
            public_host: self.public_host@,
            local_addr: self.local_addr@,
            registration_token: self.registration_token@,
            expires_at: self.expires_at,
        }
    }
}

/// The relay's tunnels.
pub struct TunnelManager {
    domain: String,
    clock: Clock,
    sessions: Table<ClientSession>,
    reservations: Table<TunnelReservation>,
    pending: Table<oneshot::Sender<ForwardResponse>>,
    outbox: Outbox,
}

impl View for TunnelManager {
    type V = books::Books;

    closed spec fn view(&self) -> books::Books {
        books::Books {
            domain: self.domain@,
            clock: self.clock,
            sessions: self.sessions@.map_values(|s: ClientSession| s@),
            reservations: self.reservations@.map_values(|r: TunnelReservation| r@),
            pending: self.pending@,
            outbox: self.outbox.id(),
            sent: self.outbox.sent(),
        }
    }
}

impl TunnelManager {
    /// No table holds a key twice.
    pub closed spec fn tables_wf(&self) -> bool {
        self.sessions.wf() && self.reservations.wf() && self.pending.wf()
    }

    /// The books are sound.
    pub open spec fn wf(&self) -> bool {
        self.tables_wf() && self@.consistent()
    }

    /// There are finitely many tunnels.
    pub proof fn books_are_finite(&self)
        requires
            self.wf(),
        ensures
            self@.sessions.dom().finite(),
            self@.reservations.dom().finite(),
            self@.pending.dom().finite(),
    {
        self.sessions.keys_are_finite();
        self.reservations.keys_are_finite();
        self.pending.keys_are_finite();
        assert(self@.sessions.dom() =~= self.sessions@.dom());
        assert(self@.reservations.dom() =~= self.reservations@.dom());
    }

    /// A relay for the hosts under `domain`, without any tunnel.
    pub fn new(domain: &str) -> (manager: Self)
        ensures
            manager.wf(),
            manager@.clock.started(),
            manager@ == (books::Books {
                domain: domain@,
                clock: manager@.clock,
                sessions: Map::empty(),
                reservations: Map::empty(),
                pending: Map::empty(),
                outbox: manager@.outbox,
                sent: Seq::empty(),
            }),
    {
        let manager = TunnelManager {
            domain: domain.to_owned(),
            clock: Clock::new(),
            sessions: Table::new(),
            reservations: Table::new(),
            pending: Table::new(),
            outbox: Outbox::new(),
        };
        assert(manager@.sessions =~= Map::empty());
        assert(manager@.reservations =~= Map::empty());
        manager
    }

    /// The relay's clock may read this many nanoseconds.
    pub open spec fn clock_reads(&self, nanos: u128) -> bool {
        self@.clock.reads(nanos)
    }

    /// The time on the relay's clock.
    pub fn now(&self) -> (nanos: u128)
        ensures
            self.clock_reads(nanos),
            nanos <= clock::LATEST,
    {
        self.clock.now()
    }

    /// Tells [`books::Books::host_taken`].
    pub fn host_in_use(&self, public_host: &str) -> (taken: bool)
        requires
            self.wf(),
        ensures
            taken == self@.host_taken(public_host@),
    {
        let ghost session_has = |s: ClientSession| s.public_host@ == public_host@;
        let ghost reservation_has = |r: TunnelReservation| r.public_host@ == public_host@;
        let test_session = |s: &ClientSession| -> (has: bool)
            ensures
                has == (s.public_host@ == public_host@),
        {
            same_text(s.public_host.as_str(), public_host)
        };
        let test_reservation = |r: &TunnelReservation| -> (has: bool)
            ensures
                has == (r.public_host@ == public_host@),
        {
            same_text(r.public_host.as_str(), public_host)
        };
        let in_sessions = self.sessions.any(test_session, Ghost(session_has));
        let in_reservations = self.reservations.any(test_reservation, Ghost(reservation_has));
        proof {
            let host = public_host@;
            if in_sessions {
                let id = choose|id: Seq<char>| #[trigger]
                    self.sessions@.contains_key(id) && session_has(self.sessions@[id]);
                assert(self@.sessions.contains_key(id) && self@.sessions[id].public_host == host);
            }
            if in_reservations {
                let id = choose|id: Seq<char>| #[trigger]
                    self.reservations@.contains_key(id) && reservation_has(self.reservations@[id]);
                assert(self@.reservations.contains_key(id) && self@.reservations[id].public_host
                    == host);
            }
            if exists|id: Seq<char>| #[trigger]
                self@.sessions.contains_key(id) && self@.sessions[id].public_host == host {
                let id = choose|id: Seq<char>| #[trigger]
                    self@.sessions.contains_key(id) && self@.sessions[id].public_host == host;
                assert(self.sessions@.contains_key(id) && session_has(self.sessions@[id]));
            }
            if exists|id: Seq<char>| #[trigger]
                self@.reservations.contains_key(id) && self@.reservations[id].public_host == host {
                let id = choose|id: Seq<char>| #[trigger]
                    self@.reservations.contains_key(id) && self@.reservations[id].public_host
                        == host;
                assert(self.reservations@.contains_key(id) && reservation_has(
                    self.reservations@[id],
                ));
            }
        }
        in_sessions || in_reservations
    }

    /// Reserves a subdomain at the time `now`, under a token.
    pub fn reserve_at(
        &mut self,
        subdomain: &str,
        port: u16,
        registration_token: String,
        now: u128,
    ) -> (created: Result<TunnelCreated, CreateTunnelError>)
        requires
            old(self).wf(),
            subdomain::valid_subdomain(subdomain@),
            now + RESERVATION_TTL <= u128::MAX,
        ensures
            final(self).wf(),
            final(self)@ == old(self)@.reserved(subdomain@, port, registration_token@, now),
            books::created_view(created) == old(self)@.reserve_answer(
                subdomain@,
                port,
                registration_token@,
            ),
    {
        let public_host = host_for(subdomain, self.domain.as_str());
        if self.host_in_use(public_host.as_str()) {
            return Err(CreateTunnelError::SubdomainUnavailable);
        }
        let tunnel_id = tunnel_id_for(subdomain);
        let local_addr = join2("http://127.0.0.1:", to_decimal(port as u64).as_str());
        let url = join2("https://", public_host.as_str());
        let reservation = TunnelReservation {
            public_host,
            local_addr: local_addr.clone(),
            registration_token: registration_token.clone(),
            expires_at: now + RESERVATION_TTL,
        };
        let ghost view = reservation@;
        self.reservations.insert(tunnel_id.clone(), reservation);
        proof {
            books::reserving_keeps_books_consistent(
                old(self)@,
                subdomain@,
                port,
                registration_token@,
                now,
            );
            assert(self@.reservations =~= old(self)@.reservations.insert(tunnel_id@, view));
        }
        Ok(TunnelCreated { tunnel_id, url, local_addr, registration_token })
    }

    /// A name of the relay's making that is free. Names are drawn first; where every draw gives a
    /// name that is taken, the names are gone through by number. The search ends without a name
    /// only where all of them are taken.
    fn generate_unique_subdomain(&self) -> (name: Option<String>)
        requires
            self.wf(),
        ensures
            match name {
                Some(name) => {
                    &&& subdomain::is_generated(name@)
                    &&& self@.free(name@)
                    &&& subdomain::is_drawn(name@) || self@.drawn_name_taken()
                },
                None => forall|name: Seq<char>|
                    subdomain::is_generated(name) ==> !(#[trigger] self@.free(name)),
            },
    {
        let mut draws: u64 = 0;
        while draws < DRAWS
            invariant
                self.wf(),
                draws > 0 ==> self@.drawn_name_taken(),
            decreases DRAWS - draws,
        {
            let candidate = generated_subdomain();
            if !self.host_in_use(host_for(candidate.as_str(), self.domain.as_str()).as_str()) {
                return Some(candidate);
            }
            assert(!self@.free(candidate@));
            draws = draws + 1;
        }
        let mut n: u64 = 0;
        while n < GENERATED_NAMES
            invariant
                self.wf(),
                self@.drawn_name_taken(),
                n <= GENERATED_NAMES,
                forall|k: nat| k < n ==> !self@.free(#[trigger] subdomain::numbered_name(k)),
            decreases GENERATED_NAMES - n,
        {
            let candidate = numbered_subdomain(n);
            proof {
                subdomain::numbered_name_is_generated(n as nat);
            }
            if !self.host_in_use(host_for(candidate.as_str(), self.domain.as_str()).as_str()) {
                return Some(candidate);
            }
            n = n + 1;
        }
        assert forall|name: Seq<char>| subdomain::is_generated(name) implies !(
        #[trigger] self@.free(name)) by {
            subdomain::generated_name_has_a_number(name);
        }
        None
    }

    /// Reserves the tunnel that a client asks for.
    pub fn create_tunnel(&mut self, request: CreateTunnelRequest) -> (created: Result<
        TunnelCreated,
        CreateTunnelError,
    >)
        requires
            old(self).wf(),
        ensures
            final(self).wf(),
            old(self)@.created(request@, final(self)@, books::created_view(created)),
    {
        let subdomain = match request.subdomain {
            Some(asked) => match normalize_subdomain(asked.as_str()) {
                Some(name) => {
                    if !is_valid_subdomain(name.as_str()) {
                        return Err(CreateTunnelError::InvalidSubdomain);
                    }
                    name
                },
                None => {
                    return Err(CreateTunnelError::InvalidSubdomain);
                },
            },
            None => match self.generate_unique_subdomain() {
                Some(name) => {
                    proof {
                        subdomain::generated_subdomain_is_valid(name@);
                    }
                    name
                },
                None => {
                    return Err(CreateTunnelError::SubdomainUnavailable);
                },
            },
        };
        let token = random_token(TOKEN_LENGTH);
        let now: u128 = self.now();
        let ghost token_text = token@;
        let created = self.reserve_at(subdomain.as_str(), request.port, token, now);
        proof {
            books::lemma_created(
                old(self)@,
                request@,
                subdomain@,
                token_text,
                now,
                self@,
                books::created_view(created),
            );
        }
        created
    }

    /// The tunnel that a `Host` header leads to.
    pub fn tunnel_id_for_host(&self, host: &str) -> (tunnel_id: Option<String>)
        ensures
            protocol::text_of(tunnel_id) == subdomain::route(self@.domain, host@),
    {
        tunnel_for_host(self.domain.as_str(), host)
    }

    /// Turns a reservation into a live tunnel, at the time `now`.
    pub fn register_client_at(
        &mut self,
        tunnel_id: String,
        local_addr: String,
        registration_token: String,
        sender: Link,
        now: u128,
    ) -> (registered: Result<(), RegisterError>)
        requires
            old(self).wf(),
            sender@.outbox == old(self)@.outbox,
        ensures
            final(self).wf(),
            final(self)@ == old(self)@.registered(
                tunnel_id@,
                local_addr@,
                registration_token@,
                sender@,
                now,
            ),
            registered == old(self)@.register_answer(
                tunnel_id@,
                local_addr@,
                registration_token@,
                now,
            ),
    {
        let reservation = match self.reservations.remove(tunnel_id.as_str()) {
            Some(reservation) => reservation,
            None => {
                assert(self@ =~= old(self)@.registered(
                    tunnel_id@,
                    local_addr@,
                    registration_token@,
                    sender@,
                    now,
                ));
                return Err(RegisterError::NoReservation);
            },
        };
        assert(self@ =~= old(self)@.without_reservation(tunnel_id@));
        proof {
            books::lemma_fewer_entries(old(self)@, self@);
        }
        assert(old(self)@.reservations[tunnel_id@] == reservation@);
        if !same_text(reservation.registration_token.as_str(), registration_token.as_str()) {
            return Err(RegisterError::InvalidToken);
        }
        if reservation.expires_at < now {
            return Err(RegisterError::ReservationExpired);
        }
        if !same_text(reservation.local_addr.as_str(), local_addr.as_str()) {
            return Err(RegisterError::AddressMismatch);
        }
        let session = ClientSession {
            local_addr: reservation.local_addr,
            public_host: reservation.public_host,
            last_seen: now,
            sender,
        };
        let ghost view = session@;
        let ghost id = tunnel_id@;
        self.sessions.insert(tunnel_id, session);
        assert(self@.sessions =~= old(self)@.sessions.insert(id, view));
        Ok(())
    }

    /// Turns a reservation into a live tunnel. The answer rests on the time of the call where the
    /// reservation has a limit to keep.
    pub fn register_client(
        &mut self,
        tunnel_id: String,
        local_addr: String,
        registration_token: String,
        sender: Link,
    ) -> (registered: Result<(), RegisterError>)
        requires
            old(self).wf(),
            sender@.outbox == old(self)@.outbox,
        ensures
            final(self).wf(),
            exists|now: u128|
                {
                    &&& old(self).clock_reads(now)
                    &&& final(self)@ == #[trigger] old(self)@.registered(
                        tunnel_id@,
                        local_addr@,
                        registration_token@,
                        sender@,
                        now,
                    )
                    &&& registered == old(self)@.register_answer(
                        tunnel_id@,
                        local_addr@,
                        registration_token@,
                        now,
                    )
                },
    {
        let now: u128 = self.now();
        self.register_client_at(tunnel_id, local_addr, registration_token, sender, now)
    }

    /// Drops a live tunnel.
    pub fn remove_client(&mut self, tunnel_id: &str)
        requires
            old(self).wf(),
        ensures
            final(self).wf(),
            final(self)@ == old(self)@.without_session(tunnel_id@),
    {
        let _dropped = self.sessions.remove(tunnel_id);
        assert(self@ =~= old(self)@.without_session(tunnel_id@));
        proof {
            books::lemma_fewer_entries(old(self)@, self@);
        }
    }

    /// A link over `sender` by which this relay reaches a client.
    pub fn link(&self, sender: UnboundedSender<ControlMessage>) -> (link: Link)
        ensures
            link@ == (channel::LinkView { channel: sender, outbox: self@.outbox }),
    {
        Link::new(sender, &self.outbox)
    }

    /// Sends a message to the client at the other end of `link`. Whether the channel takes it rests
    /// on the client's connection.
    pub fn tell(&mut self, link: &Link, message: ControlMessage) -> (delivered: bool)
        requires
            old(self).wf(),
            link@.outbox == old(self)@.outbox,
        ensures
            final(self).wf(),
            final(self)@ == old(self)@.sending(link@.channel, message, delivered),
    {
        let delivered = send_unbounded(&mut self.outbox, link, message);
        proof {
            books::lemma_fewer_entries(old(self)@, self@);
        }
        delivered
    }

    fn tell_client(&mut self, tunnel_id: &str, message: ControlMessage) -> (delivered: bool)
        requires
            old(self).wf(),
            old(self)@.sessions.contains_key(tunnel_id@),
        ensures
            final(self).wf(),
            final(self)@ == old(self)@.sending(
                old(self)@.sessions[tunnel_id@].link.channel,
                message,
                delivered,
            ),
    {
        let delivered = match self.sessions.get(tunnel_id) {
            Some(session) => send_unbounded(&mut self.outbox, &session.sender, message),
            None => {
                assert(false);
                false
            },
        };
        proof {
            books::lemma_fewer_entries(old(self)@, self@);
        }
        delivered
    }

    /// Lets `reply` wait for the answer to a request.
    pub fn await_answer(&mut self, request_id: String, reply: oneshot::Sender<ForwardResponse>)
        requires
            old(self).wf(),
        ensures
            final(self).wf(),
            final(self)@ == old(self)@.waiting(request_id@, reply),
    {
        self.pending.insert(request_id, reply);
        proof {
            books::lemma_fewer_entries(old(self)@, self@);
        }
    }

    /// Closes a dispatch whose message was handed to the client, or was not.
    pub fn settle_dispatch(
        &mut self,
        request_id: &str,
        waiting: oneshot::Receiver<ForwardResponse>,
        sent: bool,
    ) -> (dispatched: Result<oneshot::Receiver<ForwardResponse>, DispatchError>)
        requires
            old(self).wf(),
        ensures
            final(self).wf(),
            sent ==> final(self)@ == old(self)@ && dispatched == Ok::<_, DispatchError>(waiting),
            !sent ==> final(self)@ == old(self)@.not_waiting(request_id@) && dispatched == Err::<
                oneshot::Receiver<ForwardResponse>,
                _,
            >(DispatchError::SendFailed),
    {
        if !sent {
            let _dropped = self.pending.remove(request_id);
            proof {
                books::lemma_fewer_entries(old(self)@, self@);
            }
            return Err(DispatchError::SendFailed);
        }
        Ok(waiting)
    }

    /// Hands a request to the client of a live tunnel, and returns the end of the channel on
    /// which the answer will come. Whether the client takes the request rests on its connection.
    pub fn dispatch_request(
        &mut self,
        tunnel_id: &str,
        request_id: String,
        message: ControlMessage,
    ) -> (dispatched: Result<oneshot::Receiver<ForwardResponse>, DispatchError>)
        requires
            old(self).wf(),
        ensures
            final(self).wf(),
            old(self)@.dispatched(tunnel_id@, request_id@, message, final(self)@, dispatched),
    {
        if !self.sessions.contains_key(tunnel_id) {
            return Err(DispatchError::NoSession);
        }
        let (reply, waiting) = answer_channel();
        let ghost before = self@;
        let ghost reply_end = reply;
        let ghost waiting_end = waiting;
        let ghost payload = message;
        self.await_answer(request_id.clone(), reply);
        let sent = self.tell_client(tunnel_id, message);
        let dispatched = self.settle_dispatch(request_id.as_str(), waiting, sent);
        proof {
            let channel = before.sessions[tunnel_id@].link.channel;
            assert(before.waiting(request_id@, reply_end).sending(
                channel,
                payload,
                sent,
            ).not_waiting(request_id@) =~= before.not_waiting(request_id@).sending(
                channel,
                payload,
                sent,
            ));
            assert(before.dispatched_on(
                reply_end,
                waiting_end,
                sent,
                tunnel_id@,
                request_id@,
                payload,
                self@,
                dispatched,
            ));
        }
        dispatched
    }

    /// Takes out the reply that waits for the answer to a request.
    pub fn take_waiting(&mut self, request_id: &str) -> (reply: Option<
        oneshot::Sender<ForwardResponse>,
    >)
        requires
            old(self).wf(),
        ensures
            final(self).wf(),
            final(self)@ == old(self)@.not_waiting(request_id@),
            match reply {
                Some(reply) => old(self)@.pending.contains_key(request_id@) && reply
                    == old(self)@.pending[request_id@],
                None => !old(self)@.pending.contains_key(request_id@),
            },
    {
        let reply = self.pending.remove(request_id);
        proof {
            books::lemma_fewer_entries(old(self)@, self@);
        }
        reply
    }

    /// Hands an answer to whoever waits for it, and tells whether it got there. Where somebody
    /// waits, that rests on whether they still do.
    pub fn resolve_response(&mut self, response: ForwardResponse) -> (resolved: bool)
        requires
            old(self).wf(),
        ensures
            final(self).wf(),
            final(self)@ == old(self)@.not_waiting(response.request_id@),
            if old(self)@.pending.contains_key(response.request_id@) {
                channel::answered_on(
                    old(self)@.pending[response.request_id@],
                    response,
                    resolved,
                )
            } else {
                !resolved
            },
    {
        match self.take_waiting(response.request_id.as_str()) {
            Some(reply) => send_answer(reply, response),
            None => false,
        }
    }

    /// Notes a sign of life of a live tunnel at the time `now`, and tells whether there is such a
    /// tunnel.
    pub fn record_heartbeat_at(&mut self, tunnel_id: &str, now: u128) -> (known: bool)
        requires
            old(self).wf(),
        ensures
            final(self).wf(),
            final(self)@ == old(self)@.seen(tunnel_id@, now),
            known == old(self)@.sessions.contains_key(tunnel_id@),
    {
        let known = match self.sessions.get_mut(tunnel_id) {
            Some(session) => {
                session.last_seen = now;
                true
            },
            None => false,
        };
        assert(self@.sessions =~= old(self)@.seen(tunnel_id@, now).sessions);
        known
    }

    /// Notes a sign of life of a live tunnel, and tells whether there is such a tunnel.
    pub fn record_heartbeat(&mut self, tunnel_id: &str) -> (known: bool)
        requires
            old(self).wf(),
        ensures
            final(self).wf(),
            exists|now: u128|
                old(self).clock_reads(now) && final(self)@ == #[trigger] old(self)@.seen(
                    tunnel_id@,
                    now,
                ),
            known == old(self)@.sessions.contains_key(tunnel_id@),
    {
        let now: u128 = self.now();
        self.record_heartbeat_at(tunnel_id, now)
    }

    /// The number of live tunnels.
    pub fn session_count(&self) -> (count: usize)
        requires
            self.wf(),
        ensures
            self@.sessions.dom().finite(),
            count == self@.sessions.len(),
    {
        assert(self@.sessions.dom() =~= self.sessions@.dom());
        self.sessions.len()
    }

    /// Drops the live tunnels that were not seen for longer than `max_age` at the time `now`.
    pub fn prune_stale_sessions_at(&mut self, max_age: u128, now: u128)
        requires
            old(self).wf(),
        ensures
            final(self).wf(),
            final(self)@ == old(self)@.with_fresh_sessions(max_age, now),
    {
        let ghost fresh = |s: ClientSession| clock::age(now, s.last_seen) <= max_age;
        let keep = |s: &ClientSession| -> (kept: bool)
            ensures
                kept == (clock::age(now, s.last_seen) <= max_age),
        {
            time_since(now, s.last_seen) <= max_age
        };
        self.sessions.retain(keep, Ghost(fresh));
        assert(self@.sessions =~= old(self)@.with_fresh_sessions(max_age, now).sessions);
    }

    /// Drops the live tunnels that were not seen for longer than `max_age`.
    pub fn prune_stale_sessions(&mut self, max_age: u128)
        requires
            old(self).wf(),
        ensures
            final(self).wf(),
            exists|now: u128|
                old(self).clock_reads(now) && final(self)@
                    == #[trigger] old(self)@.with_fresh_sessions(max_age, now),
    {
        let now: u128 = self.now();
        self.prune_stale_sessions_at(max_age, now);
    }

    /// Drops the reservations that have run out at the time `now`.
    pub fn prune_stale_reservations_at(&mut self, now: u128)
        requires
            old(self).wf(),
        ensures
            final(self).wf(),
            final(self)@ == old(self)@.with_valid_reservations(now),
    {
        let ghost valid = |r: TunnelReservation| r.expires_at > now;
        let keep = |r: &TunnelReservation| -> (kept: bool)
            ensures
                kept == (r.expires_at > now),
        {
            r.expires_at > now
        };
        self.reservations.retain(keep, Ghost(valid));
        assert(self@.reservations =~= old(self)@.with_valid_reservations(now).reservations);
    }

    /// Drops the reservations that have run out.
    pub fn prune_stale_reservations(&mut self)
        requires
            old(self).wf(),
        ensures
            final(self).wf(),
            exists|now: u128|
                old(self).clock_reads(now) && final(self)@
                    == #[trigger] old(self)@.with_valid_reservations(now),
    {
        let now: u128 = self.now();
        self.prune_stale_reservations_at(now);
    }

    /// The local address behind a live tunnel.
    pub fn client_addr(&self, tunnel_id: &str) -> (addr: Option<String>)
        requires
            self.wf(),
        ensures
            protocol::text_of(addr) == (if self@.sessions.contains_key(tunnel_id@) {
                Some(self@.sessions[tunnel_id@].local_addr)
            } else {
                None
            }),
    {
        match self.sessions.get(tunnel_id) {
            Some(session) => Some(session.local_addr.clone()),
            None => None,
        }
    }
}

} // verus!
