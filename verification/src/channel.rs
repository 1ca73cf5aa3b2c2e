//! The channels on which control messages leave the relay and answers come back.
use crate::protocol::{ControlMessage, ForwardResponse};
use tokio::sync::mpsc::UnboundedSender;
use tokio::sync::oneshot;
use vstd::prelude::*;

verus! {

/// The sending half of tokio's unbounded channel, carried through unseen.
#[verifier::external_type_specification]
#[verifier::external_body]
#[verifier::reject_recursive_types(T)]
pub struct ExUnboundedSender<T>(UnboundedSender<T>);

/// The sending half of tokio's one-shot channel, carried through unseen.
#[verifier::external_type_specification]
#[verifier::external_body]
#[verifier::reject_recursive_types(T)]
pub struct ExOneshotSender<T>(oneshot::Sender<T>);

/// The receiving half of tokio's one-shot channel, carried through unseen.
#[verifier::external_type_specification]
#[verifier::external_body]
#[verifier::reject_recursive_types(T)]
pub struct ExOneshotReceiver<T>(oneshot::Receiver<T>);

/// The error of tokio's one-shot receiver, which its `Future` impl mentions.
#[verifier::external_type_specification]
#[verifier::external_body]
pub struct ExRecvError(oneshot::error::RecvError);

/// Calls `UnboundedSender::clone`, which gives another handle on the same channel. No more is
/// claimed of it than that it came from the call, which [`same_channel`] says.
#[verifier::external_body]
fn clone_sender(sender: &UnboundedSender<ControlMessage>) -> (copy: UnboundedSender<
    ControlMessage,
>) {
    sender.clone()
}

/// Calls `UnboundedSender::send` once, with the message, on the channel of the link, and tells
/// whether it succeeded. That rests on whether the receiving half is still open, so that nothing
/// is claimed of the answer. The account of the outbox is the account of these calls: each adds
/// itself to it, with its answer, and nothing else does.
#[verifier::external_body]
pub(crate) fn send_unbounded(
    outbox: &mut Outbox,
    link: &Link,
    message: ControlMessage,
) -> (delivered: bool)
    requires
        link@.outbox == old(outbox).id(),
    ensures
        final(outbox).id() == old(outbox).id(),
        final(outbox).sent() == old(outbox).sent().push(
            (Sent { channel: link@.channel, message, delivered }),
        ),
{
    link.sender.send(message).is_ok()
}

/// Calls `oneshot::Sender::send`, and tells whether it succeeded. That rests on whether the
/// receiving half is still there, so that nothing is claimed of the answer.
#[verifier::external_body]
fn send_oneshot(
    reply: oneshot::Sender<ForwardResponse>,
    response: ForwardResponse,
) -> (sent: bool) {
    reply.send(response).is_ok()
}

/// Calls `oneshot::channel`, which makes a fresh channel and returns its two halves.
#[verifier::external_body]
fn make_oneshot() -> (halves: (
    oneshot::Sender<ForwardResponse>,
    oneshot::Receiver<ForwardResponse>,
)) {
    oneshot::channel()
}

/// The second is a handle that a duplication of the first may give.
pub closed spec fn same_channel(
    a: UnboundedSender<ControlMessage>,
    b: UnboundedSender<ControlMessage>,
) -> bool {
    call_ensures(clone_sender, (&a,), b)
}

/// A send of `response` on `reply` may end with the answer `sent`.
pub closed spec fn answered_on(
    reply: oneshot::Sender<ForwardResponse>,
    response: ForwardResponse,
    sent: bool,
) -> bool {
    call_ensures(send_oneshot, (reply, response), sent)
}

/// The two are halves that one making of a one-shot channel may return.
pub closed spec fn one_channel(
    reply: oneshot::Sender<ForwardResponse>,
    waiting: oneshot::Receiver<ForwardResponse>,
) -> bool {
    call_ensures(make_oneshot, (), (reply, waiting))
}

/// Where a duplication may give a handle, a call that clones the sender gave it.
proof fn duplicates_are_clones(
    a: UnboundedSender<ControlMessage>,
    b: UnboundedSender<ControlMessage>,
)
    requires
        same_channel(a, b),
    ensures
        call_ensures(clone_sender, (&a,), b),
{
}

/// Where a response was answered on a channel, one send on that channel took the response as it is,
/// and the answer is that of the send.
proof fn answers_are_sent(
    reply: oneshot::Sender<ForwardResponse>,
    response: ForwardResponse,
    sent: bool,
)
    requires
        answered_on(reply, response, sent),
    ensures
        call_ensures(send_oneshot, (reply, response), sent),
{
}

/// The halves of one channel came out of one making of a channel.
proof fn halves_are_made_together(
    reply: oneshot::Sender<ForwardResponse>,
    waiting: oneshot::Receiver<ForwardResponse>,
)
    requires
        one_channel(reply, waiting),
    ensures
        call_ensures(make_oneshot, (), (reply, waiting)),
{
}

/// A message that was sent to a client, and whether the channel took it.
#[verifier::ext_equal]
pub ghost struct Sent {
    pub channel: UnboundedSender<ControlMessage>,
    pub message: ControlMessage,
    pub delivered: bool,
}

/// Through an outbox every message to a client goes. Its account of them is for proofs alone, and
/// grows by [`send_unbounded`] alone.
pub struct Outbox {
    id: Ghost<int>,
    sent: Ghost<Seq<Sent>>,
}

/// The way to one client, by way of one outbox.
pub struct Link {
    sender: UnboundedSender<ControlMessage>,
    outbox: Ghost<int>,
}

/// What a [`Link`] is: the channel to the client, and the outbox that it goes with.
#[verifier::ext_equal]
pub ghost struct LinkView {
    pub channel: UnboundedSender<ControlMessage>,
    pub outbox: int,
}

impl View for Link {
    type V = LinkView;

    closed spec fn view(&self) -> LinkView {
        LinkView { channel: self.sender, outbox: self.outbox@ }
    }
}

impl Link {
    /// A link over `sender`, for the outbox.
    pub fn new(sender: UnboundedSender<ControlMessage>, outbox: &Outbox) -> (link: Self)
        ensures
            link@ == (LinkView { channel: sender, outbox: outbox.id() }),
    {
        Link { sender, outbox: Ghost(outbox.id()) }
    }

    /// Another link to the same client.
    pub fn duplicate(&self) -> (copy: Self)
        ensures
            copy@.outbox == self@.outbox,
            same_channel(self@.channel, copy@.channel),
    {
        Link { sender: clone_sender(&self.sender), outbox: self.outbox }
    }
}

impl Outbox {
    /// Which outbox it is. An outbox does not tell, but never becomes another.
    pub closed spec fn id(&self) -> int {
        self.id@
    }

    /// The messages that went through the outbox, in order.
    pub closed spec fn sent(&self) -> Seq<Sent> {
        self.sent@
    }

    /// An outbox through which nothing went yet.
    pub fn new() -> (outbox: Self)
        ensures
            outbox.sent() == Seq::<Sent>::empty(),
    {
        Outbox { id: Ghost(arbitrary()), sent: Ghost(Seq::empty()) }
    }
}

/// Hands an answer to whoever waits for it.
pub fn send_answer(
    reply: oneshot::Sender<ForwardResponse>,
    response: ForwardResponse,
) -> (sent: bool)
    ensures
        answered_on(reply, response, sent),
{
    send_oneshot(reply, response)
}

/// Makes a channel for one answer.
pub fn answer_channel() -> (halves: (
    oneshot::Sender<ForwardResponse>,
    oneshot::Receiver<ForwardResponse>,
))
    ensures
        one_channel(halves.0, halves.1),
{
    make_oneshot()
}

} // verus!
