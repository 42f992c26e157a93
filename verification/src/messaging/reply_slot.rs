//! Where the reply to a request waits for its requester.
use vstd::prelude::*;

use tokio::sync::oneshot;

use crate::messaging::message::RoutedMessage;
use crate::messaging::message::RoutedMessageView;

verus! {

/// `tokio::sync::oneshot::Sender`.
#[verifier::external_type_specification]
#[verifier::external_body]
#[verifier::reject_recursive_types(T)]
pub struct ExOneshotSender<T>(oneshot::Sender<T>);

/// `tokio::sync::oneshot::Receiver`.
#[verifier::external_type_specification]
#[verifier::external_body]
#[verifier::reject_recursive_types(T)]
pub struct ExOneshotReceiver<T>(oneshot::Receiver<T>);

/// `tokio::sync::oneshot::error::RecvError`, which the receiving end names.
#[verifier::external_type_specification]
#[verifier::external_body]
pub struct ExRecvError(oneshot::error::RecvError);

/// The reply, if any, that a channel for one with these two ends holds. Its sending end is gone
/// once something was sent.
pub uninterp spec fn slot_items(
    sender: Option<oneshot::Sender<RoutedMessage>>,
    receiver: oneshot::Receiver<RoutedMessage>,
) -> Seq<RoutedMessageView>;

/// What a [`ReplySlot`] holds.
#[verifier::ext_equal]
pub struct SlotView {
    /// Whether no reply was sent yet.
    pub open: bool,
    /// The reply that waits, if any.
    pub items: Seq<RoutedMessageView>,
}

/// A place for one reply: both ends of a channel, of which there is no other handle.
pub struct ReplySlot {
    sender: Option<oneshot::Sender<RoutedMessage>>,
    receiver: oneshot::Receiver<RoutedMessage>,
}

impl View for ReplySlot {
    type V = SlotView;

    closed spec fn view(&self) -> SlotView {
        SlotView { open: self.sender is Some, items: slot_items(self.sender, self.receiver) }
    }
}

/// A slot to which nothing was sent.
pub open spec fn ready_slot() -> SlotView {
    SlotView { open: true, items: Seq::empty() }
}

/// `tokio::sync::oneshot::channel`: both ends of a new channel, which holds nothing.
#[verifier::external_body]
fn open_slot() -> (slot: ReplySlot)
    ensures
        slot.sender is Some,
        slot_items(slot.sender, slot.receiver) == Seq::<RoutedMessageView>::empty(),
{
    let (sender, receiver) = oneshot::channel();
    ReplySlot { sender: Some(sender), receiver }
}

/// `tokio::sync::oneshot::Sender::send` on a channel whose receiving end is still held and open:
/// puts the reply into the channel and uses the sending end up.
#[verifier::external_body]
fn slot_send(slot: &mut ReplySlot, reply: RoutedMessage)
    requires
        old(slot)@ == ready_slot(),
    ensures
        final(slot).sender is None,
        slot_items(final(slot).sender, final(slot).receiver) == seq![reply@],
{
    let _ = slot.sender.take().map(|sender| sender.send(reply));
}

/// `tokio::sync::oneshot::Receiver::try_recv`: takes the reply out, if one waits.
#[verifier::external_body]
fn slot_receive(slot: &mut ReplySlot) -> (reply: Option<RoutedMessage>)
    ensures
        final(slot).sender == old(slot).sender,
        slot_items(final(slot).sender, final(slot).receiver) == Seq::<RoutedMessageView>::empty(),
        match reply {
            Some(reply) => old(slot)@.items == seq![reply@],
            None => old(slot)@.items == Seq::<RoutedMessageView>::empty(),
        },
{
    slot.receiver.try_recv().ok()
}

impl ReplySlot {
    /// A slot to which nothing was sent.
    pub(crate) fn new() -> (slot: ReplySlot)
        ensures
            slot@ == ready_slot(),
    {
        open_slot()
    }

    /// Sends the reply.
    pub(crate) fn send(&mut self, reply: RoutedMessage)
        requires
            old(self)@ == ready_slot(),
        ensures
            final(self)@ == (SlotView { open: false, items: seq![reply@] }),
    {
        slot_send(self, reply)
    }

    /// Takes the reply out, if one waits.
    pub(crate) fn take(&mut self) -> (reply: Option<RoutedMessage>)
        ensures
            final(self)@ == (SlotView { items: Seq::empty(), ..old(self)@ }),
            match reply {
                Some(reply) => old(self)@.items == seq![reply@],
                None => old(self)@.items == Seq::<RoutedMessageView>::empty(),
            },
    {
        slot_receive(self)
    }
}

} // verus!
