//! Laws on the relay's end of a control channel: what comes of each message, and of a run of them.
use crate::books;
use crate::channel;
use crate::channel::Link;
use crate::connection;
use crate::connection::ControlConnection;
use crate::laws;
use crate::protocol::{ControlMessage, ForwardResponse, Heartbeat, Incoming, RegisterClient};
use crate::relay::reap_at;
use crate::tunnel_manager::TunnelManager;
use vstd::prelude::*;

verus! {

/// A new connection is open, and no tunnel is registered on it.
pub proof fn new_connection_is_open(connection: ControlConnection)
    requires
        call_ensures(ControlConnection::new, (), connection),
    ensures
        connection.is_open,
        connection.registered_tunnel_id is None,
{
}

/// What a connection shows: the tunnel that is registered on it, and whether it is open.
pub open spec fn shown(connection: ControlConnection) -> connection::ConnectionView {
    connection::ConnectionView {
        registered: match connection.registered_tunnel_id {
            Some(id) => Some(id@),
            None => None,
        },
        open: connection.is_open,
    }
}

/// The claim is one of a reserved tunnel, with the token and the address of the reservation, and in
/// time.
pub open spec fn is_rightful(books: books::Books, claim: RegisterClient, now: u128) -> bool {
    let id = claim.tunnel_id@;
    &&& books.reservations.contains_key(id)
    &&& books.reservations[id].registration_token == claim.registration_token@
    &&& books.reservations[id].local_addr == claim.local_addr@
    &&& now <= books.reservations[id].expires_at
}

/// What comes of a claim at the time `now`. The reservation is used up. A rightful claim makes the
/// tunnel live over the link that it came on, from `now` on, and is confirmed on that link. Any
/// other ends the connection, and nothing is sent.
pub open spec fn claim_is_taken(
    before: connection::ConnectionView,
    books: books::Books,
    link: channel::LinkView,
    claim: RegisterClient,
    now: u128,
    after: connection::ConnectionView,
    after_books: books::Books,
) -> bool {
    let id = claim.tunnel_id@;
    let session = after_books.sessions[id];
    let sent = after_books.sent.last();
    &&& after_books.reservations == books.reservations.remove(id)
    &&& after_books.domain == books.domain
    &&& after_books.clock == books.clock
    &&& after_books.pending == books.pending
    &&& after_books.outbox == books.outbox
    &&& if is_rightful(books, claim, now) {
        &&& after.open
        &&& after.registered == Some(id)
        &&& after_books.sessions.contains_key(id)
        &&& after_books.sessions == books.sessions.insert(id, session)
        &&& session.local_addr == claim.local_addr@
        &&& session.public_host == books.reservations[id].public_host
        &&& session.last_seen == now
        &&& session.link.outbox == link.outbox
        &&& channel::same_channel(link.channel, session.link.channel)
        &&& after_books.sent.len() == books.sent.len() + 1
        &&& after_books.sent.drop_last() == books.sent
        &&& sent.channel == link.channel
        &&& sent.message matches ControlMessage::ClientRegistered(registered)
            && registered.tunnel_id@ == id
    } else {
        &&& !after.open
        &&& after.registered == before.registered
        &&& after_books.sessions == books.sessions
        &&& after_books.sent == books.sent
    }
}

/// What comes of a sign of life at the time `now`. Where the tunnel is live, it was last seen at
/// `now`, and the sign is returned on the link that it came on. Nothing else changes.
pub open spec fn sign_is_taken(
    books: books::Books,
    link: channel::LinkView,
    sign: Heartbeat,
    now: u128,
    after_books: books::Books,
) -> bool {
    let id = sign.tunnel_id@;
    let session = after_books.sessions[id];
    let sent = after_books.sent.last();
    if books.sessions.contains_key(id) {
        &&& after_books.sessions.contains_key(id)
        &&& after_books.sessions == books.sessions.insert(id, session)
        &&& session.last_seen == now
        &&& session.local_addr == books.sessions[id].local_addr
        &&& session.public_host == books.sessions[id].public_host
        &&& session.link == books.sessions[id].link
        &&& after_books.sent.len() == books.sent.len() + 1
        &&& after_books.sent.drop_last() == books.sent
        &&& sent.channel == link.channel
        &&& sent.message == ControlMessage::Heartbeat(sign)
        &&& after_books.domain == books.domain
        &&& after_books.clock == books.clock
        &&& after_books.reservations == books.reservations
        &&& after_books.pending == books.pending
        &&& after_books.outbox == books.outbox
    } else {
        after_books == books
    }
}

/// What comes of a message. A connection that has ended takes nothing. An answer goes to whoever
/// waits under its id, and to no one else. The messages that a client has no business to send are
/// passed over.
pub open spec fn is_taken(
    before: connection::ConnectionView,
    books: books::Books,
    link: channel::LinkView,
    message: ControlMessage,
    now: u128,
    after: connection::ConnectionView,
    after_books: books::Books,
) -> bool {
    if !before.open {
        after == before && after_books == books
    } else {
        match message {
            ControlMessage::RegisterClient(claim) => claim_is_taken(
                before,
                books,
                link,
                claim,
                now,
                after,
                after_books,
            ),
            ControlMessage::Heartbeat(sign) => after == before && sign_is_taken(
                books,
                link,
                sign,
                now,
                after_books,
            ),
            ControlMessage::ForwardResponse(response) => {
                let id = response.request_id@;
                &&& after == before
                &&& after_books.pending == books.pending.remove(id)
                &&& after_books == (books::Books { pending: after_books.pending, ..books })
                &&& books.pending.contains_key(id) ==> exists|arrived: bool| #[trigger]
                    channel::answered_on(books.pending[id], response, arrived)
            },
            ControlMessage::CreateTunnel(_) => after == before && after_books == books,
            ControlMessage::TunnelCreated(_) => after == before && after_books == books,
            ControlMessage::ClientRegistered(_) => after == before && after_books == books,
            ControlMessage::ForwardRequest(_) => after == before && after_books == books,
        }
    }
}

proof fn lemma_taken(
    before: connection::ConnectionView,
    books: books::Books,
    link: channel::LinkView,
    message: ControlMessage,
    now: u128,
    after: connection::ConnectionView,
    after_books: books::Books,
)
    requires
        connection::handled(before, books, link, message, now, after, after_books),
    ensures
        is_taken(before, books, link, message, now, after, after_books),
{
    if after_books.sent.len() == books.sent.len() + 1 {
        assert(after_books.sent.drop_last() =~= books.sent);
    }
}

/// A message that comes in at the time `now` is taken as [`is_taken`] says.
pub proof fn message_is_taken_at(
    connection: &mut ControlConnection,
    manager: &mut TunnelManager,
    link: &Link,
    message: ControlMessage,
    now: u128,
    open: bool,
)
    requires
        call_ensures(
            ControlConnection::handle_message_at,
            (connection, manager, link, message, now),
            open,
        ),
    ensures
        open == final(connection).is_open,
        is_taken(
            shown(*old(connection)),
            old(manager)@,
            link@,
            message,
            now,
            shown(*final(connection)),
            final(manager)@,
        ),
{
    lemma_taken(
        shown(*old(connection)),
        old(manager)@,
        link@,
        message,
        now,
        shown(*final(connection)),
        final(manager)@,
    );
}

/// A sign of life of a live tunnel that comes in on an open connection sets the time at which the
/// tunnel was last seen to the time at which it came in, and is returned on the link that it came
/// on. The connection stays as it is, and nothing else changes.
pub proof fn sign_of_life_sets_the_time(
    connection: &mut ControlConnection,
    manager: &mut TunnelManager,
    link: &Link,
    sign: Heartbeat,
    now: u128,
    open: bool,
)
    requires
        call_ensures(
            ControlConnection::handle_message_at,
            (connection, manager, link, ControlMessage::Heartbeat(sign), now),
            open,
        ),
        old(connection).is_open,
        old(manager)@.sessions.contains_key(sign.tunnel_id@),
    ensures
        open,
        final(connection).is_open,
        shown(*final(connection)).registered == shown(*old(connection)).registered,
        ({
            let id = sign.tunnel_id@;
            let before = old(manager)@;
            let after = final(manager)@;
            let session = after.sessions[id];
            let sent = after.sent.last();
            &&& after.sessions.contains_key(id)
            &&& after.sessions == before.sessions.insert(id, session)
            &&& session.last_seen == now
            &&& session.local_addr == before.sessions[id].local_addr
            &&& session.public_host == before.sessions[id].public_host
            &&& session.link == before.sessions[id].link
            &&& after.sent.len() == before.sent.len() + 1
            &&& after.sent.drop_last() == before.sent
            &&& sent.channel == link@.channel
            &&& sent.message == ControlMessage::Heartbeat(sign)
            &&& after == (books::Books { sessions: after.sessions, sent: after.sent, ..before })
        }),
{
    message_is_taken_at(connection, manager, link, ControlMessage::Heartbeat(sign), now, open);
}

/// A claim that comes in on an open connection, of a reserved tunnel, with the token and the
/// address of the reservation, and not after it has expired, makes the tunnel live over the link
/// that it came on, and is confirmed on that link. The tunnel is registered on the connection.
pub proof fn rightful_claim_is_confirmed(
    connection: &mut ControlConnection,
    manager: &mut TunnelManager,
    link: &Link,
    claim: RegisterClient,
    now: u128,
    open: bool,
)
    requires
        call_ensures(
            ControlConnection::handle_message_at,
            (connection, manager, link, ControlMessage::RegisterClient(claim), now),
            open,
        ),
        old(connection).is_open,
        old(manager)@.reservations.contains_key(claim.tunnel_id@),
        old(manager)@.reservations[claim.tunnel_id@].registration_token
            == claim.registration_token@,
        old(manager)@.reservations[claim.tunnel_id@].local_addr == claim.local_addr@,
        now <= old(manager)@.reservations[claim.tunnel_id@].expires_at,
    ensures
        open,
        final(connection).is_open,
        final(connection).registered_tunnel_id matches Some(id) && id@ == claim.tunnel_id@,
        ({
            let id = claim.tunnel_id@;
            let before = old(manager)@;
            let after = final(manager)@;
            let session = after.sessions[id];
            let sent = after.sent.last();
            &&& after.reservations == before.reservations.remove(id)
            &&& after.sessions.contains_key(id)
            &&& after.sessions == before.sessions.insert(id, session)
            &&& session.local_addr == claim.local_addr@
            &&& session.public_host == before.reservations[id].public_host
            &&& session.last_seen == now
            &&& channel::same_channel(link@.channel, session.link.channel)
            &&& after.sent.len() == before.sent.len() + 1
            &&& after.sent.drop_last() == before.sent
            &&& sent.channel == link@.channel
            &&& sent.message is ClientRegistered
            &&& sent.message->ClientRegistered_0.tunnel_id@ == id
            &&& after == (books::Books {
                sessions: after.sessions,
                reservations: after.reservations,
                sent: after.sent,
                ..before
            })
        }),
{
    message_is_taken_at(
        connection,
        manager,
        link,
        ControlMessage::RegisterClient(claim),
        now,
        open,
    );
}

/// Any other claim uses up the reservation, if there is one, and ends the connection. Nothing is
/// sent, and no live tunnel changes.
pub proof fn other_claim_ends_the_connection(
    connection: &mut ControlConnection,
    manager: &mut TunnelManager,
    link: &Link,
    claim: RegisterClient,
    now: u128,
    open: bool,
)
    requires
        call_ensures(
            ControlConnection::handle_message_at,
            (connection, manager, link, ControlMessage::RegisterClient(claim), now),
            open,
        ),
        old(connection).is_open,
        !old(manager)@.reservations.contains_key(claim.tunnel_id@)
            || old(manager)@.reservations[claim.tunnel_id@].registration_token
            != claim.registration_token@
            || old(manager)@.reservations[claim.tunnel_id@].local_addr != claim.local_addr@
            || now > old(manager)@.reservations[claim.tunnel_id@].expires_at,
    ensures
        !open,
        !final(connection).is_open,
        shown(*final(connection)).registered == shown(*old(connection)).registered,
        final(manager)@.reservations == old(manager)@.reservations.remove(claim.tunnel_id@),
        final(manager)@ == (books::Books {
            reservations: final(manager)@.reservations,
            ..old(manager)@
        }),
{
    message_is_taken_at(
        connection,
        manager,
        link,
        ControlMessage::RegisterClient(claim),
        now,
        open,
    );
}

/// An answer that comes in on an open connection goes, as it is, to whoever waits under its id, who
/// then waits no more. The connection stays as it is, and nothing is sent to the client.
pub proof fn answer_goes_to_whoever_waits(
    connection: &mut ControlConnection,
    manager: &mut TunnelManager,
    link: &Link,
    response: ForwardResponse,
    open: bool,
)
    requires
        call_ensures(
            ControlConnection::handle_message,
            (connection, manager, link, ControlMessage::ForwardResponse(response)),
            open,
        ) || call_ensures(
            ControlConnection::handle_frame,
            (
                connection,
                manager,
                link,
                Incoming::Control(ControlMessage::ForwardResponse(response)),
            ),
            open,
        ),
        old(connection).is_open,
    ensures
        open,
        shown(*final(connection)) == shown(*old(connection)),
        final(manager)@.pending == old(manager)@.pending.remove(response.request_id@),
        old(manager)@.pending.contains_key(response.request_id@) ==> exists|arrived: bool|
            #[trigger]
            channel::answered_on(
                old(manager)@.pending[response.request_id@],
                response,
                arrived,
            ),
        final(manager)@ == (books::Books { pending: final(manager)@.pending, ..old(manager)@ }),
{
}

/// Whatever way it comes in, a sign of life of a live tunnel sets the time at which the tunnel was
/// last seen to one that the clock may read, and is returned on the link that it came on.
pub proof fn sign_of_life_is_returned(
    connection: &mut ControlConnection,
    manager: &mut TunnelManager,
    link: &Link,
    sign: Heartbeat,
    open: bool,
)
    requires
        call_ensures(
            ControlConnection::handle_message,
            (connection, manager, link, ControlMessage::Heartbeat(sign)),
            open,
        ) || call_ensures(
            ControlConnection::handle_frame,
            (connection, manager, link, Incoming::Control(ControlMessage::Heartbeat(sign))),
            open,
        ),
        old(connection).is_open,
        old(manager)@.sessions.contains_key(sign.tunnel_id@),
    ensures
        open,
        shown(*final(connection)) == shown(*old(connection)),
        final(manager)@.sessions.contains_key(sign.tunnel_id@),
        old(manager)@.clock.reads(final(manager)@.sessions[sign.tunnel_id@].last_seen),
        final(manager)@.sent.len() == old(manager)@.sent.len() + 1,
        final(manager)@.sent.last().channel == link@.channel,
        final(manager)@.sent.last().message == ControlMessage::Heartbeat(sign),
{
}

/// What a client has no business to send is passed over, and so is a sign of life of a tunnel that
/// is not live, a text that is no control message, and a frame that is no text.
pub proof fn other_frames_are_passed_over(
    connection: &mut ControlConnection,
    manager: &mut TunnelManager,
    link: &Link,
    frame: Incoming,
    open: bool,
)
    requires
        call_ensures(ControlConnection::handle_frame, (connection, manager, link, frame), open),
        match frame {
            Incoming::Control(ControlMessage::RegisterClient(_)) => false,
            Incoming::Control(ControlMessage::ForwardResponse(_)) => false,
            Incoming::Control(ControlMessage::Heartbeat(sign)) =>
                !old(manager)@.sessions.contains_key(sign.tunnel_id@),
            Incoming::Closed => false,
            _ => true,
        },
    ensures
        open == old(connection).is_open,
        shown(*final(connection)) == shown(*old(connection)),
        final(manager)@ == old(manager)@,
{
}

/// The end of the channel ends the connection, and changes nothing else yet.
pub proof fn end_of_the_channel_ends_the_connection(
    connection: &mut ControlConnection,
    manager: &mut TunnelManager,
    link: &Link,
    open: bool,
)
    requires
        call_ensures(
            ControlConnection::handle_frame,
            (connection, manager, link, Incoming::Closed),
            open,
        ),
    ensures
        !open,
        !final(connection).is_open,
        shown(*final(connection)).registered == shown(*old(connection)).registered,
        final(manager)@ == old(manager)@,
{
}

/// A connection that has ended takes nothing.
pub proof fn ended_connection_takes_nothing(
    connection: &mut ControlConnection,
    manager: &mut TunnelManager,
    link: &Link,
    frame: Incoming,
    open: bool,
)
    requires
        call_ensures(ControlConnection::handle_frame, (connection, manager, link, frame), open),
        !old(connection).is_open,
    ensures
        !open,
        shown(*final(connection)) == shown(*old(connection)),
        final(manager)@ == old(manager)@,
{
}

/// What comes of a frame: of a control message what [`is_taken`] says; the end of the channel ends
/// the connection; everything else is passed over.
pub open spec fn frame_is_taken(
    before: connection::ConnectionView,
    books: books::Books,
    link: channel::LinkView,
    frame: Incoming,
    now: u128,
    after: connection::ConnectionView,
    after_books: books::Books,
) -> bool {
    match frame {
        Incoming::Control(message) => is_taken(
            before,
            books,
            link,
            message,
            now,
            after,
            after_books,
        ),
        Incoming::Undecodable => after == before && after_books == books,
        Incoming::OtherFrame => after == before && after_books == books,
        Incoming::Closed => {
            &&& !after.open
            &&& after.registered == before.registered
            &&& after_books == books
        },
    }
}

proof fn lemma_frame_taken(
    before: connection::ConnectionView,
    books: books::Books,
    link: channel::LinkView,
    frame: Incoming,
    now: u128,
    after: connection::ConnectionView,
    after_books: books::Books,
)
    requires
        connection::frame_handled(before, books, link, frame, now, after, after_books),
    ensures
        frame_is_taken(before, books, link, frame, now, after, after_books),
{
    if let Incoming::Control(message) = frame {
        lemma_taken(before, books, link, message, now, after, after_books);
    }
}

proof fn lemma_some_message_taken(
    before: connection::ConnectionView,
    books: books::Books,
    link: channel::LinkView,
    message: ControlMessage,
    after: connection::ConnectionView,
    after_books: books::Books,
)
    requires
        exists|now: u128|
            books.clock.reads(now) && #[trigger] connection::handled(
                before,
                books,
                link,
                message,
                now,
                after,
                after_books,
            ),
    ensures
        exists|now: u128|
            books.clock.reads(now) && #[trigger] is_taken(
                before,
                books,
                link,
                message,
                now,
                after,
                after_books,
            ),
{
    let now = choose|now: u128|
        books.clock.reads(now) && #[trigger] connection::handled(
            before,
            books,
            link,
            message,
            now,
            after,
            after_books,
        );
    lemma_taken(before, books, link, message, now, after, after_books);
}

/// A message is taken as [`is_taken`] says, at a time that the clock may read.
pub proof fn message_is_taken(
    connection: &mut ControlConnection,
    manager: &mut TunnelManager,
    link: &Link,
    message: ControlMessage,
    open: bool,
)
    requires
        call_ensures(
            ControlConnection::handle_message,
            (connection, manager, link, message),
            open,
        ),
    ensures
        open == final(connection).is_open,
        exists|now: u128|
            old(manager)@.clock.reads(now) && #[trigger] is_taken(
                shown(*old(connection)),
                old(manager)@,
                link@,
                message,
                now,
                shown(*final(connection)),
                final(manager)@,
            ),
{
    lemma_some_message_taken(
        shown(*old(connection)),
        old(manager)@,
        link@,
        message,
        shown(*final(connection)),
        final(manager)@,
    );
}

proof fn lemma_some_frame_taken(
    before: connection::ConnectionView,
    books: books::Books,
    link: channel::LinkView,
    frame: Incoming,
    after: connection::ConnectionView,
    after_books: books::Books,
)
    requires
        exists|now: u128|
            {
                &&& frame is Control ==> books.clock.reads(now)
                &&& #[trigger] connection::frame_handled(
                    before,
                    books,
                    link,
                    frame,
                    now,
                    after,
                    after_books,
                )
            },
    ensures
        exists|now: u128|
            {
                &&& frame is Control ==> books.clock.reads(now)
                &&& #[trigger] frame_is_taken(
                    before,
                    books,
                    link,
                    frame,
                    now,
                    after,
                    after_books,
                )
            },
{
    let now = choose|now: u128|
        {
            &&& frame is Control ==> books.clock.reads(now)
            &&& #[trigger] connection::frame_handled(
                before,
                books,
                link,
                frame,
                now,
                after,
                after_books,
            )
        };
    lemma_frame_taken(before, books, link, frame, now, after, after_books);
}

/// A frame is taken as [`frame_is_taken`] says; a control message, at a time that the clock may
/// read.
pub proof fn frame_is_taken_in(
    connection: &mut ControlConnection,
    manager: &mut TunnelManager,
    link: &Link,
    frame: Incoming,
    open: bool,
)
    requires
        call_ensures(ControlConnection::handle_frame, (connection, manager, link, frame), open),
    ensures
        open == final(connection).is_open,
        exists|now: u128|
            {
                &&& frame is Control ==> old(manager)@.clock.reads(now)
                &&& #[trigger] frame_is_taken(
                    shown(*old(connection)),
                    old(manager)@,
                    link@,
                    frame,
                    now,
                    shown(*final(connection)),
                    final(manager)@,
                )
            },
{
    lemma_some_frame_taken(
        shown(*old(connection)),
        old(manager)@,
        link@,
        frame,
        shown(*final(connection)),
        final(manager)@,
    );
}

/// When a connection ends, the tunnel that was registered on it is dropped, and nothing else.
pub proof fn ended_connection_drops_its_tunnel(
    connection: ControlConnection,
    manager: &mut TunnelManager,
)
    requires
        call_ensures(ControlConnection::close, (connection, manager), ()),
    ensures
        match connection.registered_tunnel_id {
            Some(id) => {
                &&& final(manager)@.sessions == old(manager)@.sessions.remove(id@)
                &&& final(manager)@ == (books::Books {
                    sessions: final(manager)@.sessions,
                    ..old(manager)@
                })
            },
            None => final(manager)@ == old(manager)@,
        },
{
}

/// The frames of a run come in the order of their times.
pub open spec fn in_order(frames: Seq<(Incoming, u128)>) -> bool {
    forall|i: int, j: int|
        0 <= i <= j < frames.len() ==> (#[trigger] frames[i]).1 <= (#[trigger] frames[j]).1
}

/// The frame is a sign of life of this tunnel.
pub open spec fn is_sign_of(frame: Incoming, id: Seq<char>) -> bool {
    frame matches Incoming::Control(ControlMessage::Heartbeat(sign)) && sign.tunnel_id@ == id
}

/// The frame is a claim of this tunnel.
pub open spec fn is_claim_of(frame: Incoming, id: Seq<char>) -> bool {
    frame matches Incoming::Control(ControlMessage::RegisterClient(claim)) && claim.tunnel_id@ == id
}

/// A message that comes in after a run makes the run one frame longer.
pub proof fn message_makes_a_run_longer(
    link: &Link,
    frames: Seq<(Incoming, u128)>,
    connections: Seq<connection::ConnectionView>,
    states: Seq<books::Books>,
    connection: &mut ControlConnection,
    manager: &mut TunnelManager,
    message: ControlMessage,
    now: u128,
    open: bool,
)
    requires
        connection::run(link@, frames, connections, states),
        shown(*old(connection)) == connections.last(),
        old(manager)@ == states.last(),
        call_ensures(
            ControlConnection::handle_message_at,
            (connection, manager, link, message, now),
            open,
        ),
    ensures
        connection::run(
            link@,
            frames.push((Incoming::Control(message), now)),
            connections.push(shown(*final(connection))),
            states.push(final(manager)@),
        ),
{
    lemma_longer_run(
        link@,
        frames,
        connections,
        states,
        Incoming::Control(message),
        now,
        shown(*final(connection)),
        final(manager)@,
    );
}

proof fn lemma_some_longer_run(
    link: channel::LinkView,
    frames: Seq<(Incoming, u128)>,
    connections: Seq<connection::ConnectionView>,
    states: Seq<books::Books>,
    frame: Incoming,
    after: connection::ConnectionView,
    after_books: books::Books,
)
    requires
        connection::run(link, frames, connections, states),
        exists|now: u128|
            {
                &&& frame is Control ==> states.last().clock.reads(now)
                &&& #[trigger] connection::frame_handled(
                    connections.last(),
                    states.last(),
                    link,
                    frame,
                    now,
                    after,
                    after_books,
                )
            },
    ensures
        exists|now: u128|
            {
                &&& frame is Control ==> states.last().clock.reads(now)
                &&& connection::run(
                    link,
                    #[trigger] frames.push((frame, now)),
                    connections.push(after),
                    states.push(after_books),
                )
            },
{
    let now = choose|now: u128|
        {
            &&& frame is Control ==> states.last().clock.reads(now)
            &&& #[trigger] connection::frame_handled(
                connections.last(),
                states.last(),
                link,
                frame,
                now,
                after,
                after_books,
            )
        };
    lemma_longer_run(link, frames, connections, states, frame, now, after, after_books);
}

/// A frame that comes in after a run makes the run one frame longer; a control message, at a time
/// that the clock may read.
pub proof fn frame_makes_a_run_longer(
    link: &Link,
    frames: Seq<(Incoming, u128)>,
    connections: Seq<connection::ConnectionView>,
    states: Seq<books::Books>,
    connection: &mut ControlConnection,
    manager: &mut TunnelManager,
    frame: Incoming,
    open: bool,
)
    requires
        connection::run(link@, frames, connections, states),
        shown(*old(connection)) == connections.last(),
        old(manager)@ == states.last(),
        call_ensures(ControlConnection::handle_frame, (connection, manager, link, frame), open),
    ensures
        exists|now: u128|
            {
                &&& frame is Control ==> states.last().clock.reads(now)
                &&& connection::run(
                    link@,
                    #[trigger] frames.push((frame, now)),
                    connections.push(shown(*final(connection))),
                    states.push(final(manager)@),
                )
            },
{
    lemma_some_longer_run(
        link@,
        frames,
        connections,
        states,
        frame,
        shown(*final(connection)),
        final(manager)@,
    );
}

proof fn lemma_longer_run(
    link: channel::LinkView,
    frames: Seq<(Incoming, u128)>,
    connections: Seq<connection::ConnectionView>,
    states: Seq<books::Books>,
    frame: Incoming,
    now: u128,
    after: connection::ConnectionView,
    after_books: books::Books,
)
    requires
        connection::run(link, frames, connections, states),
        connection::frame_handled(
            connections.last(),
            states.last(),
            link,
            frame,
            now,
            after,
            after_books,
        ),
    ensures
        connection::run(
            link,
            frames.push((frame, now)),
            connections.push(after),
            states.push(after_books),
        ),
{
    let more = frames.push((frame, now));
    let more_connections = connections.push(after);
    let more_states = states.push(after_books);
    assert forall|i: int| 0 <= i < more.len() implies connection::frame_handled(
        more_connections[i],
        more_states[i],
        link,
        (#[trigger] more[i]).0,
        more[i].1,
        more_connections[i + 1],
        more_states[i + 1],
    ) by {
        if i < frames.len() {
            assert(more[i] == frames[i]);
        }
    }
}

proof fn lemma_after_the_sign(
    link: channel::LinkView,
    frames: Seq<(Incoming, u128)>,
    connections: Seq<connection::ConnectionView>,
    states: Seq<books::Books>,
    id: Seq<char>,
    k: int,
    n: int,
)
    requires
        connection::run(link, frames, connections, states),
        in_order(frames),
        0 <= k < n <= frames.len(),
        connections[k].open,
        is_sign_of(frames[k].0, id),
        states[k].sessions.contains_key(id),
    ensures
        states[n].sessions.contains_key(id),
        states[n].sessions[id].last_seen >= frames[k].1,
        (forall|i: int|
            k < i < n ==> !is_sign_of((#[trigger] frames[i]).0, id) && !is_claim_of(
                frames[i].0,
                id,
            )) ==> {
            &&& states[n].sessions[id].last_seen == frames[k].1
            &&& states[n].sessions[id].local_addr == states[k].sessions[id].local_addr
            &&& states[n].sessions[id].public_host == states[k].sessions[id].public_host
            &&& states[n].sessions[id].link == states[k].sessions[id].link
        },
    decreases n,
{
    let last = frames[n - 1];
    lemma_frame_taken(
        connections[n - 1],
        states[n - 1],
        link,
        last.0,
        last.1,
        connections[n - 1 + 1],
        states[n - 1 + 1],
    );
    if n > k + 1 {
        lemma_after_the_sign(link, frames, connections, states, id, k, n - 1);
        assert(frames[k].1 <= frames[n - 1].1);
    }
}

/// Whatever comes in on an open connection, in the order of the times: a sign of life of a live
/// tunnel sets the time at which the tunnel was last seen to its own, the tunnel is live at the
/// end of the run and was last seen at that time or later, and at that very time where no other
/// sign and no claim of it came in since.
pub proof fn sign_of_life_is_remembered(
    link: channel::LinkView,
    frames: Seq<(Incoming, u128)>,
    connections: Seq<connection::ConnectionView>,
    states: Seq<books::Books>,
    id: Seq<char>,
    k: int,
)
    requires
        connection::run(link, frames, connections, states),
        in_order(frames),
        0 <= k < frames.len(),
        connections[k].open,
        is_sign_of(frames[k].0, id),
        states[k].sessions.contains_key(id),
    ensures
        states[k + 1].sessions.contains_key(id),
        states[k + 1].sessions[id].last_seen == frames[k].1,
        states.last().sessions.contains_key(id),
        states.last().sessions[id].last_seen >= frames[k].1,
        (forall|i: int|
            k < i < frames.len() ==> !is_sign_of((#[trigger] frames[i]).0, id) && !is_claim_of(
                frames[i].0,
                id,
            )) ==> states.last().sessions[id].last_seen == frames[k].1,
{
    lemma_after_the_sign(link, frames, connections, states, id, k, k + 1);
    lemma_after_the_sign(link, frames, connections, states, id, k, frames.len() as int);
}

/// A client whose sign of life came in at most a minute and a half ago is still there when the
/// reaper has been. One whose last sign is older, and which claimed nothing since, is gone.
pub proof fn reaper_spares_the_clients_that_give_signs(
    link: channel::LinkView,
    frames: Seq<(Incoming, u128)>,
    connections: Seq<connection::ConnectionView>,
    states: Seq<books::Books>,
    id: Seq<char>,
    k: int,
    manager: &mut TunnelManager,
    now: u128,
)
    requires
        connection::run(link, frames, connections, states),
        in_order(frames),
        0 <= k < frames.len(),
        connections[k].open,
        is_sign_of(frames[k].0, id),
        states[k].sessions.contains_key(id),
        old(manager)@ == states.last(),
        call_ensures(reap_at, (manager, now), ()),
    ensures
        now - frames[k].1 <= 90_000_000_000 ==> {
            &&& final(manager)@.sessions.contains_key(id)
            &&& final(manager)@.sessions[id] == old(manager)@.sessions[id]
        },
        now - frames[k].1 > 90_000_000_000 && (forall|i: int|
            k < i < frames.len() ==> !is_sign_of((#[trigger] frames[i]).0, id) && !is_claim_of(
                frames[i].0,
                id,
            )) ==> !final(manager)@.sessions.contains_key(id),
{
    sign_of_life_is_remembered(link, frames, connections, states, id, k);
    laws::tunnels::reaper_keeps_what_is_fresh_at(manager, now);
}

} // verus!
