//! The relay's end of a client's control channel.
use crate::books;
use crate::channel;
use crate::channel::Link;
use crate::protocol;
use crate::protocol::{ClientRegistered, ControlMessage, ForwardResponse, Incoming, RegisterClient};
use crate::relay;
use crate::relay::Reply;
use crate::subdomain;
use crate::tunnel_manager::{DispatchError, TunnelManager};
use tokio::sync::oneshot;
use vstd::prelude::*;

verus! {

/// The relay's end of one client's control channel: the tunnel that was last registered on it,
/// and whether what comes in is still taken.
#[derive(Debug, Clone, PartialEq, Eq)]
pub struct ControlConnection {
    pub registered_tunnel_id: Option<String>,
    pub is_open: bool,
}

/// What a [`ControlConnection`] says.
#[verifier::ext_equal]
pub ghost struct ConnectionView {
    pub registered: Option<Seq<char>>,
    pub open: bool,
}

impl View for ControlConnection {
    type V = ConnectionView;

    open spec fn view(&self) -> ConnectionView {
        ConnectionView {
            registered: protocol::text_of(self.registered_tunnel_id),
            open: self.is_open,
        }
    }
}

/// A claim that is granted makes the tunnel live over a handle on `link`, and `confirmation`, which
/// confirms it, is sent on `link`.
pub open spec fn claim_confirmed(
    books: books::Books,
    link: channel::LinkView,
    claim: RegisterClient,
    now: u128,
    handle: channel::LinkView,
    confirmation: ControlMessage,
    delivered: bool,
    after: books::Books,
) -> bool {
    &&& handle.outbox == link.outbox
    &&& channel::same_channel(link.channel, handle.channel)
    &&& confirmation@ == protocol::ControlMessageView::ClientRegistered(claim.tunnel_id@)
    &&& after == books.registered(
        claim.tunnel_id@,
        claim.local_addr@,
        claim.registration_token@,
        handle,
        now,
    ).sending(link.channel, confirmation, delivered)
}

/// The claim is granted at the time `now`.
pub open spec fn claim_granted(books: books::Books, claim: RegisterClient, now: u128) -> bool {
    books.register_answer(
        claim.tunnel_id@,
        claim.local_addr@,
        claim.registration_token@,
        now,
    ) is Ok
}

/// A message that comes in on `link` at the time `now` takes the connection from `before` to
/// `after` and the books from `books` to `after_books`. A claim that is granted is confirmed. A
/// claim that is refused uses up its reservation and ends the connection, and nothing is sent. A
/// sign of life of a live tunnel is returned, and one of another is passed over. An answer goes to
/// the request that waits for it, and nothing is sent back. Everything else is passed over, and so
/// is what comes in when the connection has ended.
pub open spec fn handled(
    before: ConnectionView,
    books: books::Books,
    link: channel::LinkView,
    message: ControlMessage,
    now: u128,
    after: ConnectionView,
    after_books: books::Books,
) -> bool {
    if !before.open {
        after == before && after_books == books
    } else {
        match message {
            ControlMessage::RegisterClient(claim) => if claim_granted(books, claim, now) {
                &&& after == (ConnectionView { registered: Some(claim.tunnel_id@), open: true })
                &&& exists|
                    handle: channel::LinkView,
                    confirmation: ControlMessage,
                    delivered: bool,
                | #[trigger]
                    claim_confirmed(
                        books,
                        link,
                        claim,
                        now,
                        handle,
                        confirmation,
                        delivered,
                        after_books,
                    )
            } else {
                &&& after == (ConnectionView { open: false, ..before })
                &&& after_books == books.without_reservation(claim.tunnel_id@)
            },
            ControlMessage::Heartbeat(sign) => {
                &&& after == before
                &&& if books.sessions.contains_key(sign.tunnel_id@) {
                    exists|delivered: bool|
                        after_books == #[trigger] books.seen(sign.tunnel_id@, now).sending(
                            link.channel,
                            message,
                            delivered,
                        )
                } else {
                    after_books == books
                }
            },
            ControlMessage::ForwardResponse(response) => {
                let id = response.request_id@;
                &&& after == before
                &&& after_books == books.not_waiting(id)
                &&& books.pending.contains_key(id) ==> exists|sent: bool| #[trigger]
                    channel::answered_on(books.pending[id], response, sent)
            },
            _ => after == before && after_books == books,
        }
    }
}

/// What comes in on `link` at the time `now` takes the connection from `before` to `after` and the
/// books from `books` to `after_books`: a control message as [`handled`] says; a text that is no
/// control message and a frame that is no text are passed over; the end of the channel ends the
/// connection.
pub open spec fn frame_handled(
    before: ConnectionView,
    books: books::Books,
    link: channel::LinkView,
    frame: Incoming,
    now: u128,
    after: ConnectionView,
    after_books: books::Books,
) -> bool {
    match frame {
        Incoming::Control(message) => handled(
            before,
            books,
            link,
            message,
            now,
            after,
            after_books,
        ),
        Incoming::Undecodable => after == before && after_books == books,
        Incoming::OtherFrame => after == before && after_books == books,
        Incoming::Closed => after == (ConnectionView { open: false, ..before }) && after_books
            == books,
    }
}

impl ControlConnection {
    /// An open connection on which nothing was registered yet.
    pub fn new() -> (connection: Self)
        ensures
            connection@ == (ConnectionView { registered: None, open: true }),
    {
        ControlConnection { registered_tunnel_id: None, is_open: true }
    }

    /// Takes a message that came in on `link` at the time `now`, and tells whether the connection
    /// is still open.
    pub fn handle_message_at(
        &mut self,
        manager: &mut TunnelManager,
        link: &Link,
        message: ControlMessage,
        now: u128,
    ) -> (open: bool)
        requires
            old(manager).wf(),
            link@.outbox == old(manager)@.outbox,
        ensures
            final(manager).wf(),
            open == final(self)@.open,
            handled(
                old(self)@,
                old(manager)@,
                link@,
                message,
                now,
                final(self)@,
                final(manager)@,
            ),
    {
        if !self.is_open {
            return false;
        }
        match message {
            ControlMessage::RegisterClient(claim) => {
                let ghost books = manager@;
                let ghost asked = claim;
                let handle = link.duplicate();
                let ghost copy = handle@;
                let registered = manager.register_client_at(
                    claim.tunnel_id.clone(),
                    claim.local_addr,
                    claim.registration_token,
                    handle,
                    now,
                );
                match registered {
                    Ok(()) => {
                        self.registered_tunnel_id = Some(claim.tunnel_id.clone());
                        let confirmation = ControlMessage::ClientRegistered(
                            ClientRegistered { tunnel_id: claim.tunnel_id },
                        );
                        let ghost told = confirmation;
                        let delivered = manager.tell(link, confirmation);
                        assert(claim_confirmed(
                            books,
                            link@,
                            asked,
                            now,
                            copy,
                            told,
                            delivered,
                            manager@,
                        ));
                    },
                    Err(_) => {
                        self.is_open = false;
                    },
                }
            },
            ControlMessage::Heartbeat(sign) => {
                if manager.record_heartbeat_at(sign.tunnel_id.as_str(), now) {
                    let _delivered = manager.tell(link, ControlMessage::Heartbeat(sign));
                }
            },
            ControlMessage::ForwardResponse(response) => {
                let _resolved = manager.resolve_response(response);
            },
            _ => {},
        }
        self.is_open
    }

    /// Takes a message that came in on `link`, and tells whether the connection is still open.
    pub fn handle_message(
        &mut self,
        manager: &mut TunnelManager,
        link: &Link,
        message: ControlMessage,
    ) -> (open: bool)
        requires
            old(manager).wf(),
            link@.outbox == old(manager)@.outbox,
        ensures
            final(manager).wf(),
            open == final(self)@.open,
            exists|now: u128|
                old(manager).clock_reads(now) && #[trigger] handled(
                    old(self)@,
                    old(manager)@,
                    link@,
                    message,
                    now,
                    final(self)@,
                    final(manager)@,
                ),
    {
        let now: u128 = manager.now();
        self.handle_message_at(manager, link, message, now)
    }

    /// Takes what came in on `link`, and tells whether the connection is still open.
    pub fn handle_frame(
        &mut self,
        manager: &mut TunnelManager,
        link: &Link,
        frame: Incoming,
    ) -> (open: bool)
        requires
            old(manager).wf(),
            link@.outbox == old(manager)@.outbox,
        ensures
            final(manager).wf(),
            open == final(self)@.open,
            exists|now: u128|
                {
                    &&& frame is Control ==> old(manager).clock_reads(now)
                    &&& #[trigger] frame_handled(
                        old(self)@,
                        old(manager)@,
                        link@,
                        frame,
                        now,
                        final(self)@,
                        final(manager)@,
                    )
                },
    {
        let ghost before = self@;
        let ghost books = manager@;
        let ghost came = frame;
        match frame {
            Incoming::Control(message) => {
                let ghost taken = message;
                let open = self.handle_message(manager, link, message);
                proof {
                    let now = choose|now: u128|
                        books.clock.reads(now) && #[trigger] handled(
                            before,
                            books,
                            link@,
                            taken,
                            now,
                            self@,
                            manager@,
                        );
                    assert(frame_handled(before, books, link@, came, now, self@, manager@));
                }
                open
            },
            Incoming::Undecodable => {
                assert(frame_handled(before, books, link@, came, 0, self@, manager@));
                self.is_open
            },
            Incoming::OtherFrame => {
                assert(frame_handled(before, books, link@, came, 0, self@, manager@));
                self.is_open
            },
            Incoming::Closed => {
                self.is_open = false;
                assert(frame_handled(before, books, link@, came, 0, self@, manager@));
                false
            },
        }
    }

    /// Ends the connection: the tunnel that was registered on it is dropped.
    pub fn close(self, manager: &mut TunnelManager)
        requires
            old(manager).wf(),
        ensures
            final(manager).wf(),
            final(manager)@ == books_after_close(self@, old(manager)@),
    {
        if let Some(tunnel_id) = self.registered_tunnel_id {
            manager.remove_client(tunnel_id.as_str());
        }
    }
}

/// The books after a connection has ended.
pub open spec fn books_after_close(
    connection: ConnectionView,
    books: books::Books,
) -> books::Books {
    match connection.registered {
        Some(tunnel_id) => books.without_session(tunnel_id),
        None => books,
    }
}

/// The answer to a forwarded request goes into the channel that the public request waits on, and
/// nobody waits for it any more.
pub proof fn answer_comes_back_to_its_request(
    books: books::Books,
    view: protocol::ForwardRequestView,
    message: ControlMessage,
    waiting: oneshot::Receiver<ForwardResponse>,
    forwarded: books::Books,
    result: Result<oneshot::Receiver<ForwardResponse>, Reply>,
    connection: ConnectionView,
    before: books::Books,
    link: channel::LinkView,
    response: ForwardResponse,
    now: u128,
    after_connection: ConnectionView,
    after: books::Books,
)
    requires
        connection.open,
        relay::forwards(books, view, message, Ok::<_, DispatchError>(waiting), forwarded, result),
        before.pending.contains_key(view.request_id),
        before.pending[view.request_id] == forwarded.pending[view.request_id],
        response.request_id@ == view.request_id,
        handled(
            connection,
            before,
            link,
            ControlMessage::ForwardResponse(response),
            now,
            after_connection,
            after,
        ),
    ensures
        result == Ok::<_, Reply>(waiting),
        channel::one_channel(before.pending[view.request_id], waiting),
        exists|sent: bool| #[trigger]
            channel::answered_on(before.pending[view.request_id], response, sent),
        !after.pending.contains_key(view.request_id),
{
}

/// A claim that is refused gets no answer: nothing is sent, the connection ends, and the live
/// tunnels are as they were.
pub proof fn refused_claim_gets_no_answer(
    before: ConnectionView,
    books: books::Books,
    link: channel::LinkView,
    claim: RegisterClient,
    now: u128,
    after: ConnectionView,
    after_books: books::Books,
)
    requires
        handled(
            before,
            books,
            link,
            ControlMessage::RegisterClient(claim),
            now,
            after,
            after_books,
        ),
        !claim_granted(books, claim, now),
    ensures
        !after.open,
        after.registered == before.registered,
        after_books.sent == books.sent,
        after_books.sessions == books.sessions,
        after_books.pending == books.pending,
{
}

/// When a connection has ended, nothing that comes in on it has any effect.
pub proof fn ended_connection_takes_nothing(
    before: ConnectionView,
    books: books::Books,
    link: channel::LinkView,
    frame: Incoming,
    now: u128,
    after: ConnectionView,
    after_books: books::Books,
)
    requires
        !before.open,
        frame_handled(before, books, link, frame, now, after, after_books),
    ensures
        after == before,
        after_books == books,
{
}

/// What comes in is answered by one message at most, on its own link: by the confirmation of a
/// claim that is granted, or by a sign of life of a live tunnel as it came. Nothing else is
/// answered.
pub proof fn only_claims_and_signs_of_life_are_answered(
    before: ConnectionView,
    books: books::Books,
    link: channel::LinkView,
    frame: Incoming,
    now: u128,
    after: ConnectionView,
    after_books: books::Books,
)
    requires
        frame_handled(before, books, link, frame, now, after, after_books),
    ensures
        ({
            let answered = before.open && match frame {
                Incoming::Control(ControlMessage::RegisterClient(claim)) => claim_granted(
                    books,
                    claim,
                    now,
                ),
                Incoming::Control(ControlMessage::Heartbeat(sign)) => books.sessions.contains_key(
                    sign.tunnel_id@,
                ),
                _ => false,
            };
            if answered {
                &&& after_books.sent.len() == books.sent.len() + 1
                &&& after_books.sent.drop_last() == books.sent
                &&& after_books.sent.last().channel == link.channel
                &&& match frame {
                    Incoming::Control(ControlMessage::RegisterClient(claim)) =>
                        after_books.sent.last().message@
                            == protocol::ControlMessageView::ClientRegistered(claim.tunnel_id@),
                    Incoming::Control(message) => after_books.sent.last().message == message,
                    _ => false,
                }
            } else {
                after_books.sent == books.sent
            }
        }),
{
    if after_books.sent.len() == books.sent.len() + 1 {
        assert(after_books.sent.drop_last() =~= books.sent);
    }
}

/// What came in is a claim.
pub open spec fn is_claim(frame: Incoming) -> bool {
    frame matches Incoming::Control(message) && message is RegisterClient
}

/// A run of frames, each with its time, takes a connection through `connections` and the books
/// through `states`, from their first element to their last.
pub open spec fn run(
    link: channel::LinkView,
    frames: Seq<(Incoming, u128)>,
    connections: Seq<ConnectionView>,
    states: Seq<books::Books>,
) -> bool {
    &&& connections.len() == frames.len() + 1
    &&& states.len() == frames.len() + 1
    &&& forall|i: int|
        0 <= i < frames.len() ==> frame_handled(
            connections[i],
            states[i],
            link,
            (#[trigger] frames[i]).0,
            frames[i].1,
            connections[i + 1],
            states[i + 1],
        )
}

proof fn lemma_frame_keeps_books_consistent(
    before: ConnectionView,
    books: books::Books,
    link: channel::LinkView,
    frame: Incoming,
    now: u128,
    after: ConnectionView,
    after_books: books::Books,
)
    requires
        books.consistent(),
        link.outbox == books.outbox,
        frame_handled(before, books, link, frame, now, after, after_books),
    ensures
        after_books.consistent(),
        after_books.outbox == books.outbox,
{
    if before.open && frame is Control {
        match frame->Control_0 {
            ControlMessage::RegisterClient(claim) => {
                if claim_granted(books, claim, now) {
                    let (handle, confirmation, delivered) = choose|
                        handle: channel::LinkView,
                        confirmation: ControlMessage,
                        delivered: bool,
                    | #[trigger]
                        claim_confirmed(
                            books,
                            link,
                            claim,
                            now,
                            handle,
                            confirmation,
                            delivered,
                            after_books,
                        );
                    let live = books.registered(
                        claim.tunnel_id@,
                        claim.local_addr@,
                        claim.registration_token@,
                        handle,
                        now,
                    );
                    books::claiming_keeps_books_consistent(
                        books,
                        claim.tunnel_id@,
                        claim.local_addr@,
                        claim.registration_token@,
                        handle,
                        now,
                    );
                    books::lemma_fewer_entries(live, after_books);
                } else {
                    books::lemma_fewer_entries(books, after_books);
                }
            },
            ControlMessage::Heartbeat(sign) => {
                books::beating_keeps_books_consistent(books, sign.tunnel_id@, now);
                books::lemma_fewer_entries(books.seen(sign.tunnel_id@, now), after_books);
            },
            _ => {
                books::lemma_fewer_entries(books, after_books);
            },
        }
    }
}

proof fn lemma_other_frame_keeps_tunnels(
    before: ConnectionView,
    books: books::Books,
    link: channel::LinkView,
    frame: Incoming,
    now: u128,
    after: ConnectionView,
    after_books: books::Books,
    id: Seq<char>,
)
    requires
        !is_claim(frame),
        frame_handled(before, books, link, frame, now, after, after_books),
    ensures
        after.registered == before.registered,
        frame !is Closed ==> after.open == before.open,
        after_books.sessions.dom() == books.sessions.dom(),
        books.sessions.contains_key(id) ==> after_books.sessions[id].local_addr
            == books.sessions[id].local_addr,
        after_books.reservations == books.reservations,
{
    assert(after_books.sessions.dom() =~= books.sessions.dom());
}

/// Whatever else comes in on a connection, where one claim of a reserved tunnel comes in, in time
/// and with the token and the address that were given: the claim is confirmed, the tunnel lives
/// from then on for as long as the connection does, and when the connection has ended the tunnel
/// is gone, the live tunnels are those of the beginning, and the name is free.
pub proof fn connection_holds_its_tunnel(
    link: channel::LinkView,
    frames: Seq<(Incoming, u128)>,
    connections: Seq<ConnectionView>,
    states: Seq<books::Books>,
    k: int,
    claim: RegisterClient,
    name: Seq<char>,
)
    requires
        run(link, frames, connections, states),
        connections[0].open,
        states[0].consistent(),
        link.outbox == states[0].outbox,
        subdomain::valid_subdomain(name),
        claim.tunnel_id@ == subdomain::tunnel_id_of(name),
        states[0].reservations.contains_key(claim.tunnel_id@),
        states[0].reservations[claim.tunnel_id@].registration_token == claim.registration_token@,
        states[0].reservations[claim.tunnel_id@].local_addr == claim.local_addr@,
        0 <= k < frames.len(),
        frames[k].0 == Incoming::Control(ControlMessage::RegisterClient(claim)),
        frames[k].1 <= states[0].reservations[claim.tunnel_id@].expires_at,
        forall|i: int| 0 <= i < frames.len() && i != k ==> !is_claim((#[trigger] frames[i]).0),
        forall|i: int| 0 <= i < k ==> (#[trigger] frames[i]).0 !is Closed,
    ensures
        states[k + 1].sent.len() == states[k].sent.len() + 1,
        states[k + 1].sent.last().channel == link.channel,
        states[k + 1].sent.last().message@ == protocol::ControlMessageView::ClientRegistered(
            claim.tunnel_id@,
        ),
        forall|i: int|
            k < i < states.len() ==> {
                &&& (#[trigger] states[i]).sessions.contains_key(claim.tunnel_id@)
                &&& states[i].sessions[claim.tunnel_id@].local_addr == claim.local_addr@
            },
        ({
            let ended = books_after_close(connections.last(), states.last());
            &&& !ended.sessions.contains_key(claim.tunnel_id@)
            &&& ended.sessions.dom() == states[0].sessions.dom()
            &&& ended.free(name)
        }),
{
    let id = claim.tunnel_id@;
    lemma_before_the_claim(link, frames, connections, states, k, id);
    assert(frame_handled(
        connections[k],
        states[k],
        link,
        frames[k].0,
        frames[k].1,
        connections[k + 1],
        states[k + 1],
    ));
    only_claims_and_signs_of_life_are_answered(
        connections[k],
        states[k],
        link,
        frames[k].0,
        frames[k].1,
        connections[k + 1],
        states[k + 1],
    );
    lemma_frame_keeps_books_consistent(
        connections[k],
        states[k],
        link,
        frames[k].0,
        frames[k].1,
        connections[k + 1],
        states[k + 1],
    );
    let start = states[k + 1];
    assert(start.sessions.dom() =~= states[0].sessions.dom().insert(id));
    assert(start.reservations =~= states[0].reservations.remove(id));
    assert forall|i: int| k < i < states.len() implies {
        &&& (#[trigger] states[i]).sessions.contains_key(id)
        &&& states[i].sessions[id].local_addr == claim.local_addr@
    } by {
        lemma_after_the_claim(link, frames, connections, states, k, id, i);
    }
    let n = frames.len() as int;
    lemma_after_the_claim(link, frames, connections, states, k, id, n);
    let last = states[n];
    let ended = books_after_close(connections[n], last);
    assert(states.last() == last && connections.last() == connections[n]);
    assert(ended.sessions.dom() =~= states[0].sessions.dom());
    books::lemma_fewer_entries(last, ended);
    books::name_is_taken_by_its_own_tunnel(ended, name);
}

proof fn lemma_before_the_claim(
    link: channel::LinkView,
    frames: Seq<(Incoming, u128)>,
    connections: Seq<ConnectionView>,
    states: Seq<books::Books>,
    k: int,
    id: Seq<char>,
)
    requires
        run(link, frames, connections, states),
        connections[0].open,
        states[0].consistent(),
        link.outbox == states[0].outbox,
        0 <= k <= frames.len(),
        forall|i: int|
            0 <= i < k ==> !is_claim((#[trigger] frames[i]).0) && frames[i].0 !is Closed,
    ensures
        connections[k].open,
        states[k].consistent(),
        states[k].outbox == states[0].outbox,
        states[k].sessions.dom() == states[0].sessions.dom(),
        states[k].reservations == states[0].reservations,
    decreases k,
{
    if k > 0 {
        lemma_before_the_claim(link, frames, connections, states, k - 1, id);
        let frame = frames[k - 1];
        lemma_frame_keeps_books_consistent(
            connections[k - 1],
            states[k - 1],
            link,
            frame.0,
            frame.1,
            connections[k - 1 + 1],
            states[k - 1 + 1],
        );
        lemma_other_frame_keeps_tunnels(
            connections[k - 1],
            states[k - 1],
            link,
            frame.0,
            frame.1,
            connections[k - 1 + 1],
            states[k - 1 + 1],
            id,
        );
    }
}

proof fn lemma_after_the_claim(
    link: channel::LinkView,
    frames: Seq<(Incoming, u128)>,
    connections: Seq<ConnectionView>,
    states: Seq<books::Books>,
    k: int,
    id: Seq<char>,
    i: int,
)
    requires
        run(link, frames, connections, states),
        0 <= k < i <= frames.len(),
        states[k + 1].consistent(),
        link.outbox == states[k + 1].outbox,
        states[k + 1].sessions.contains_key(id),
        forall|j: int| k < j < frames.len() ==> !is_claim((#[trigger] frames[j]).0),
    ensures
        connections[i].registered == connections[k + 1].registered,
        states[i].consistent(),
        states[i].outbox == states[k + 1].outbox,
        states[i].sessions.dom() == states[k + 1].sessions.dom(),
        states[i].sessions[id].local_addr == states[k + 1].sessions[id].local_addr,
        states[i].reservations == states[k + 1].reservations,
    decreases i,
{
    if i > k + 1 {
        lemma_after_the_claim(link, frames, connections, states, k, id, i - 1);
        let frame = frames[i - 1];
        assert(states[i - 1].sessions.dom().contains(id));
        lemma_frame_keeps_books_consistent(
            connections[i - 1],
            states[i - 1],
            link,
            frame.0,
            frame.1,
            connections[i - 1 + 1],
            states[i - 1 + 1],
        );
        lemma_other_frame_keeps_tunnels(
            connections[i - 1],
            states[i - 1],
            link,
            frame.0,
            frame.1,
            connections[i - 1 + 1],
            states[i - 1 + 1],
            id,
        );
    }
}

} // verus!
