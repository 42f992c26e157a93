//! Bounded queues of messages.
use vstd::prelude::*;

use tokio::sync::mpsc;

use crate::messaging::message::HostMessage;
use crate::messaging::message::HostMessageView;
use crate::messaging::message::MessageOrigin;
use crate::messaging::message::ObservedOperation;

verus! {

/// Which request it is, and where its reply goes.
#[derive(Debug, PartialEq, Eq)]
pub struct RequestTicket {
    pub workload: String,
    pub inbox: String,
    pub id: u64,
}

/// What a [`RequestTicket`] holds.
pub struct RequestTicketView {
    pub workload: Seq<char>,
    pub inbox: Seq<char>,
    pub id: u64,
}

impl View for RequestTicket {
    type V = RequestTicketView;

    open spec fn view(&self) -> RequestTicketView {
        RequestTicketView { workload: self.workload@, inbox: self.inbox@, id: self.id }
    }
}

impl RequestTicket {
    /// A ticket for the same request.
    pub(crate) fn duplicate(&self) -> (copy: RequestTicket)
        ensures
            copy@ == self@,
    {
        RequestTicket {
            workload: self.workload.clone(),
            inbox: self.inbox.clone(),
            id: self.id,
        }
    }
}

/// A message in a queue: what was done with it, by whom, and where a reply to it goes.
#[derive(Debug, PartialEq, Eq)]
pub struct Envelope {
    pub message: HostMessage,
    pub operation: ObservedOperation,
    pub origin: MessageOrigin,
    pub reply: Option<RequestTicket>,
}

/// What an [`Envelope`] holds.
pub struct EnvelopeView {
    pub message: HostMessageView,
    pub operation: ObservedOperation,
    pub origin: MessageOrigin,
    pub reply: Option<RequestTicketView>,
}

/// The contents of an optional ticket.
pub open spec fn optional_ticket(ticket: Option<RequestTicket>) -> Option<RequestTicketView> {
    match ticket {
        Some(ticket) => Some(ticket@),
        None => None,
    }
}

impl View for Envelope {
    type V = EnvelopeView;

    open spec fn view(&self) -> EnvelopeView {
        EnvelopeView {
            message: self.message@,
            operation: self.operation,
            origin: self.origin,
            reply: optional_ticket(self.reply),
        }
    }
}

impl Envelope {
    /// An envelope with the same contents.
    pub(crate) fn duplicate(&self) -> (copy: Envelope)
        ensures
            copy@ == self@,
    {
        Envelope {
            message: self.message.clone(),
            operation: self.operation,
            origin: self.origin,
            reply: match &self.reply {
                Some(ticket) => Some(ticket.duplicate()),
                None => None,
            },
        }
    }
}

/// `tokio::sync::mpsc::Sender`.
#[verifier::external_type_specification]
#[verifier::external_body]
#[verifier::reject_recursive_types(T)]
pub struct ExSender<T>(mpsc::Sender<T>);

/// `tokio::sync::mpsc::Receiver`.
#[verifier::external_type_specification]
#[verifier::external_body]
#[verifier::reject_recursive_types(T)]
pub struct ExReceiver<T>(mpsc::Receiver<T>);

/// The messages that a channel with these two ends holds, oldest first.
pub uninterp spec fn channel_items(
    sender: mpsc::Sender<Envelope>,
    receiver: mpsc::Receiver<Envelope>,
) -> Seq<EnvelopeView>;

/// How many messages a channel with these two ends was made to hold.
pub uninterp spec fn channel_bound(
    sender: mpsc::Sender<Envelope>,
    receiver: mpsc::Receiver<Envelope>,
) -> nat;

/// Whether the receiving end of a channel with these two ends was closed.
pub uninterp spec fn channel_closed(
    sender: mpsc::Sender<Envelope>,
    receiver: mpsc::Receiver<Envelope>,
) -> bool;

/// What a queue holds.
#[verifier::ext_equal]
pub struct QueueView {
    pub items: Seq<EnvelopeView>,
    pub bound: nat,
    pub closed: bool,
}

/// A bounded queue of messages: both ends of a channel, of which there is no other handle.
pub struct MessageQueue {
    sender: mpsc::Sender<Envelope>,
    receiver: mpsc::Receiver<Envelope>,
}

impl View for MessageQueue {
    type V = QueueView;

    closed spec fn view(&self) -> QueueView {
        QueueView {
            items: channel_items(self.sender, self.receiver),
            bound: channel_bound(self.sender, self.receiver),
            closed: channel_closed(self.sender, self.receiver),
        }
    }
}

/// How an offer to a queue ended.
#[derive(Clone, Copy, Debug, PartialEq, Eq, Structural)]
pub enum Offer {
    Taken,
    Full,
    Closed,
}

/// How an attempt to take from a queue ended.
pub enum Taken {
    Item(Envelope),
    Empty,
    Ended,
}

/// What a queue says to an offer: a closed queue refuses everything, a full one everything
/// until something is taken.
pub open spec fn offer_outcome(queue: QueueView) -> Offer {
    if queue.closed {
        Offer::Closed
    } else if queue.items.len() >= queue.bound {
        Offer::Full
    } else {
        Offer::Taken
    }
}

/// A queue after an offer: the message stands at the end, unless the queue refused it.
pub open spec fn offered(queue: QueueView, envelope: EnvelopeView) -> QueueView {
    if offer_outcome(queue) == Offer::Taken {
        QueueView { items: queue.items.push(envelope), ..queue }
    } else {
        queue
    }
}

/// A queue after something was taken from it.
pub open spec fn taken(queue: QueueView) -> QueueView {
    if queue.items.len() > 0 {
        QueueView { items: queue.items.drop_first(), ..queue }
    } else {
        queue
    }
}

/// `tokio::sync::mpsc::channel`, which panics on a bound of zero and on one above
/// `usize::MAX >> 3`: both ends of a new channel that is open, empty and holds up to `bound`
/// messages.
#[verifier::external_body]
fn open_channel(bound: usize) -> (queue: MessageQueue)
    requires
        0 < bound <= usize::MAX / 8,
    ensures
        channel_items(queue.sender, queue.receiver) == Seq::<EnvelopeView>::empty(),
        channel_bound(queue.sender, queue.receiver) == bound,
        !channel_closed(queue.sender, queue.receiver),
{
    let (sender, receiver) = mpsc::channel(bound);
    MessageQueue { sender, receiver }
}

/// `tokio::sync::mpsc::Sender::try_send` on a channel without reserved places: it refuses as
/// `Closed` where the receiving end was closed, else as `Full` where as many messages wait as
/// the channel was made for, else puts the message behind those that wait.
#[verifier::external_body]
fn channel_send(queue: &mut MessageQueue, envelope: Envelope) -> (outcome: Offer)
    ensures
        outcome == offer_outcome(old(queue)@),
        channel_items(final(queue).sender, final(queue).receiver) == offered(
            old(queue)@,
            envelope@,
        ).items,
        channel_bound(final(queue).sender, final(queue).receiver) == old(queue)@.bound,
        channel_closed(final(queue).sender, final(queue).receiver) == old(queue)@.closed,
{
    match queue.sender.try_send(envelope) {
        Ok(()) => Offer::Taken,
        Err(mpsc::error::TrySendError::Full(_)) => Offer::Full,
        Err(mpsc::error::TrySendError::Closed(_)) => Offer::Closed,
    }
}

/// `tokio::sync::mpsc::Receiver::try_recv` on a channel whose sending end is still held: it
/// takes out the oldest message; where none waits it tells a closed channel from an open one.
#[verifier::external_body]
fn channel_receive(queue: &mut MessageQueue) -> (out: Taken)
    ensures
        channel_items(final(queue).sender, final(queue).receiver) == taken(old(queue)@).items,
        channel_bound(final(queue).sender, final(queue).receiver) == old(queue)@.bound,
        channel_closed(final(queue).sender, final(queue).receiver) == old(queue)@.closed,
        match out {
            Taken::Item(envelope) => old(queue)@.items.len() > 0 && envelope@
                == old(queue)@.items[0],
            Taken::Empty => old(queue)@.items.len() == 0 && !old(queue)@.closed,
            Taken::Ended => old(queue)@.items.len() == 0 && old(queue)@.closed,
        },
{
    match queue.receiver.try_recv() {
        Ok(envelope) => Taken::Item(envelope),
        Err(mpsc::error::TryRecvError::Empty) => Taken::Empty,
        Err(mpsc::error::TryRecvError::Disconnected) => Taken::Ended,
    }
}

/// `tokio::sync::mpsc::Receiver::close`: nothing more gets in, what waits can still be taken.
#[verifier::external_body]
fn channel_close(queue: &mut MessageQueue)
    ensures
        channel_items(final(queue).sender, final(queue).receiver) == old(queue)@.items,
        channel_bound(final(queue).sender, final(queue).receiver) == old(queue)@.bound,
        channel_closed(final(queue).sender, final(queue).receiver),
{
    queue.receiver.close()
}

/// `tokio::sync::mpsc::Sender::is_closed`: whether the receiving end was closed.
#[verifier::external_body]
fn channel_is_closed(queue: &MessageQueue) -> (closed: bool)
    ensures
        closed == channel_closed(queue.sender, queue.receiver),
{
    queue.sender.is_closed()
}

/// `tokio::sync::mpsc::Sender::capacity` on a channel without reserved places: how many
/// messages can be sent until it is full.
#[verifier::external_body]
fn channel_room(queue: &MessageQueue) -> (free: usize)
    ensures
        free == channel_bound(queue.sender, queue.receiver) - channel_items(
            queue.sender,
            queue.receiver,
        ).len(),
{
    queue.sender.capacity()
}

/// `tokio::sync::mpsc::Receiver::is_empty`: whether no message waits.
#[verifier::external_body]
fn channel_is_empty(queue: &MessageQueue) -> (empty: bool)
    ensures
        empty == (channel_items(queue.sender, queue.receiver).len() == 0),
{
    queue.receiver.is_empty()
}

impl MessageQueue {
    /// An empty queue for up to `bound` messages.
    pub(crate) fn new(bound: usize) -> (queue: MessageQueue)
        requires
            0 < bound <= usize::MAX / 8,
        ensures
            queue@ == (QueueView {
                items: Seq::<EnvelopeView>::empty(),
                bound: bound as nat,
                closed: false,
            }),
    {
        open_channel(bound)
    }

    /// Puts a message at the end of the queue, if the queue takes it.
    pub(crate) fn offer(&mut self, envelope: Envelope) -> (outcome: Offer)
        ensures
            outcome == offer_outcome(old(self)@),
            final(self)@ == offered(old(self)@, envelope@),
    {
        channel_send(self, envelope)
    }

    /// Takes out the oldest message.
    pub(crate) fn take(&mut self) -> (out: Taken)
        ensures
            final(self)@ == taken(old(self)@),
            match out {
                Taken::Item(envelope) => old(self)@.items.len() > 0 && envelope@
                    == old(self)@.items[0],
                Taken::Empty => old(self)@.items.len() == 0 && !old(self)@.closed,
                Taken::Ended => old(self)@.items.len() == 0 && old(self)@.closed,
            },
    {
        channel_receive(self)
    }

    /// Closes the queue to further messages.
    pub(crate) fn close(&mut self)
        ensures
            final(self)@ == (QueueView { closed: true, ..old(self)@ }),
    {
        channel_close(self)
    }

    /// Closes the queue and loses what waits in it.
    pub(crate) fn abandon(&mut self)
        ensures
            final(self)@ == (QueueView {
                items: Seq::<EnvelopeView>::empty(),
                closed: true,
                ..old(self)@
            }),
    {
        self.close();
        while !self.is_empty()
            invariant
                self@.closed,
                self@.bound == old(self)@.bound,
            decreases self@.items.len(),
        {
            let _ = self.take();
        }
        assert(self@ =~= (QueueView {
            items: Seq::<EnvelopeView>::empty(),
            closed: true,
            ..old(self)@
        }));
    }

    /// Whether the queue was closed.
    pub(crate) fn is_closed(&self) -> (closed: bool)
        ensures
            closed == self@.closed,
    {
        channel_is_closed(self)
    }

    /// Whether nothing waits in the queue.
    pub(crate) fn is_empty(&self) -> (empty: bool)
        ensures
            empty == (self@.items.len() == 0),
    {
        channel_is_empty(self)
    }

    /// What the queue would say to an offer.
    pub(crate) fn outlook(&self) -> (outcome: Offer)
        ensures
            outcome == offer_outcome(self@),
    {
        if channel_is_closed(self) {
            Offer::Closed
        } else if channel_room(self) == 0 {
            Offer::Full
        } else {
            Offer::Taken
        }
    }
}

/// A queue hands its messages out in the order in which they came: of two that are sent one
/// after the other to an open queue with room, the first is the first to be taken.
pub proof fn law_queues_keep_their_order(queue: QueueView, first: EnvelopeView, second: EnvelopeView)
    requires
        queue.items.len() == 0,
        !queue.closed,
        queue.bound >= 2,
    ensures
        offered(offered(queue, first), second).items == seq![first, second],
        taken(offered(offered(queue, first), second)).items == seq![second],
{
    let both = offered(offered(queue, first), second);
    assert(both.items =~= seq![first, second]);
    assert(taken(both).items =~= seq![second]);
}

/// Closing a queue takes nothing of what waits out of it, and nothing more gets in.
pub proof fn law_closed_queues_drain(queue: QueueView, envelope: EnvelopeView)
    ensures
        offered(QueueView { closed: true, ..queue }, envelope) == (QueueView {
            closed: true,
            ..queue
        }),
        taken(QueueView { closed: true, ..queue }).items == taken(queue).items,
{
}

/// An open queue takes messages until it holds as many as it was made for, each behind those that
/// wait, and then none until one is taken out; a closed one takes none. Taking gives up the oldest
/// and leaves the rest in order.
pub proof fn law_queues_hold_what_they_were_made_for(queue: QueueView, envelope: EnvelopeView)
    ensures
        !queue.closed && queue.items.len() < queue.bound ==> offer_outcome(queue) == Offer::Taken
            && offered(queue, envelope).items == queue.items + seq![envelope],
        !queue.closed && queue.items.len() >= queue.bound ==> offer_outcome(queue) == Offer::Full
            && offered(queue, envelope).items == queue.items,
        queue.closed ==> offer_outcome(queue) == Offer::Closed && offered(queue, envelope).items
            == queue.items,
        queue.items.len() > 0 ==> taken(queue).items == queue.items.skip(1),
        queue.items.len() == 0 ==> taken(queue).items == queue.items,
        offered(queue, envelope).bound == queue.bound,
        offered(queue, envelope).closed == queue.closed,
        taken(queue).bound == queue.bound,
        taken(queue).closed == queue.closed,
{
    assert(queue.items.push(envelope) =~= queue.items + seq![envelope]);
    if queue.items.len() > 0 {
        assert(queue.items.drop_first() =~= queue.items.skip(1));
    }
}

/// What an envelope holds is its message, what was done with it, by whom, and the ticket for a
/// reply, if it has one.
pub proof fn law_envelopes_hold_their_parts(envelope: Envelope)
    ensures
        envelope@.message == envelope.message@,
        envelope@.operation == envelope.operation,
        envelope@.origin == envelope.origin,
        envelope@.reply is Some == envelope.reply is Some,
        envelope.reply matches Some(ticket) ==> envelope@.reply->0.workload == ticket.workload@
            && envelope@.reply->0.inbox == ticket.inbox@ && envelope@.reply->0.id == ticket.id,
{
}

} // verus!
