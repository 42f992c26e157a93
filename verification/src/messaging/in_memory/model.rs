//! What the in-process broker holds, and what each operation makes of it.
use vstd::prelude::*;

use crate::messaging::message::host_form;
use crate::messaging::message::routed_form;
use crate::messaging::message::HostMessageView;
use crate::messaging::message::MessageOrigin;
use crate::messaging::message::MessagingError;
use crate::messaging::message::ObservedOperation;
use crate::messaging::message::RoutedMessageView;
use crate::messaging::queue::offer_outcome;
use crate::messaging::queue::offered;
use crate::messaging::queue::taken;
use crate::messaging::queue::EnvelopeView;
use crate::messaging::queue::Offer;
use crate::messaging::queue::QueueView;
use crate::messaging::queue::RequestTicketView;
use crate::messaging::queue::Taken;
use crate::messaging::subject::subject_match;
use crate::messaging::subject::subscribed;
use crate::messaging::tombstones::remembered;

verus! {

/// How far a workload has come.
#[derive(Clone, Copy, Debug, PartialEq, Eq, Structural)]
pub enum Lifecycle {
    Reserved,
    Bound,
    Closing,
    Closed,
}

/// A request that waits for its reply, with the answers of responders that are not sent yet.
#[verifier::ext_equal]
pub struct PendingView {
    pub id: u64,
    pub replies: Seq<HostMessageView>,
}

/// What the broker keeps of a workload itself.
#[verifier::ext_equal]
pub struct WorkloadView {
    /// Which of the workloads that ever had this id it is.
    pub instance: u64,
    pub lifecycle: Lifecycle,
    /// The requests that wait for a reply, under the subject of the reply.
    pub pending: Map<Seq<char>, PendingView>,
    /// The subjects of replies that were waited for, oldest first.
    pub tombstones: Seq<Seq<char>>,
    /// How many messages are being handled.
    pub running: u64,
}

/// What the broker keeps of a component: where its messages wait.
#[verifier::ext_equal]
pub struct ComponentView {
    pub subscriptions: Seq<Seq<char>>,
    pub inbox: QueueView,
    pub started: bool,
}

/// A workload and its components.
#[verifier::ext_equal]
pub struct WorkloadItemView {
    pub data: Option<WorkloadView>,
    pub components: Map<Seq<char>, ComponentView>,
}

/// An observer of what the guests of a workload send, or, with a pattern, a responder to the
/// requests that match it.
#[verifier::ext_equal]
pub struct ListenerView {
    pub id: u64,
    pub workload: Seq<char>,
    pub pattern: Option<Seq<char>>,
    pub queue: QueueView,
    /// Nothing more will come.
    pub ended: bool,
}

/// A reply that its requester has not fetched yet.
#[verifier::ext_equal]
pub struct AnsweredView {
    pub id: u64,
    pub instance: u64,
    pub reply: RoutedMessageView,
}

/// What the broker holds.
#[verifier::ext_equal]
pub struct BrokerView {
    pub workloads: Map<Seq<char>, WorkloadItemView>,
    /// The workloads of the components.
    pub components: Map<Seq<char>, Seq<char>>,
    pub listeners: Seq<ListenerView>,
    pub answered: Seq<AnsweredView>,
    /// The number for the next workload, request or listener.
    pub next: u64,
}

/// The number that comes after `n`.
pub open spec fn following(n: u64) -> u64 {
    if n == u64::MAX {
        0
    } else {
        (n + 1) as u64
    }
}

/// A broker that serves no workloads.
pub open spec fn empty_broker() -> BrokerView {
    BrokerView {
        workloads: Map::empty(),
        components: Map::empty(),
        listeners: Seq::empty(),
        answered: Seq::empty(),
        next: 0,
    }
}

/// A workload about which nothing has happened yet.
pub open spec fn new_workload(instance: u64, lifecycle: Lifecycle) -> WorkloadView {
    WorkloadView {
        instance,
        lifecycle,
        pending: Map::empty(),
        tombstones: Seq::empty(),
        running: 0,
    }
}

/// What the broker keeps of the workload, if anything.
pub open spec fn data_of(broker: BrokerView, workload: Seq<char>) -> Option<WorkloadView> {
    if broker.workloads.contains_key(workload) {
        broker.workloads[workload].data
    } else {
        None
    }
}

/// The components of the workload.
pub open spec fn components_of(broker: BrokerView, workload: Seq<char>) -> Map<
    Seq<char>,
    ComponentView,
> {
    if broker.workloads.contains_key(workload) {
        broker.workloads[workload].components
    } else {
        Map::empty()
    }
}

/// Whether the workload may send: a bound one may; one that is closing or closed is told so, and
/// one that is not there or only reserved is told that it is not bound.
pub open spec fn admission(broker: BrokerView, workload: Seq<char>) -> Result<
    WorkloadView,
    MessagingError,
> {
    match data_of(broker, workload) {
        None => Err(MessagingError::NotBound),
        Some(data) => match data.lifecycle {
            Lifecycle::Bound => Ok(data),
            Lifecycle::Closing | Lifecycle::Closed => Err(MessagingError::Closed),
            Lifecycle::Reserved => Err(MessagingError::NotBound),
        },
    }
}

/// The broker with other data of the workload.
pub open spec fn with_data(
    broker: BrokerView,
    workload: Seq<char>,
    data: WorkloadView,
) -> BrokerView {
    BrokerView {
        workloads: broker.workloads.insert(
            workload,
            WorkloadItemView { data: Some(data), components: components_of(broker, workload) },
        ),
        ..broker
    }
}

/// The broker with other components of the workload.
pub open spec fn with_components(
    broker: BrokerView,
    workload: Seq<char>,
    components: Map<Seq<char>, ComponentView>,
) -> BrokerView {
    BrokerView {
        workloads: broker.workloads.insert(
            workload,
            WorkloadItemView { data: data_of(broker, workload), components },
        ),
        ..broker
    }
}

// ---------------------------------------------------------------------------
// Listeners
// ---------------------------------------------------------------------------

/// Whether a listener is an observer of the workload, where `observers`, or a responder to the
/// subject in it, where not.
pub open spec fn listens(
    listener: ListenerView,
    workload: Seq<char>,
    observers: bool,
    subject: Seq<char>,
) -> bool {
    &&& listener.workload == workload
    &&& !listener.ended
    &&& match listener.pattern {
        None => observers,
        Some(pattern) => !observers && subject_match(pattern, subject),
    }
}

/// A listener after the message was offered to all who listen: where its queue is full, the
/// message is lost on it, and it stays.
pub open spec fn told_one(
    listener: ListenerView,
    workload: Seq<char>,
    observers: bool,
    envelope: EnvelopeView,
) -> ListenerView {
    if listens(listener, workload, observers, envelope.message.subject) {
        ListenerView { queue: offered(listener.queue, envelope), ..listener }
    } else {
        listener
    }
}

/// All listeners after the message was offered to those who listen.
pub open spec fn told(
    listeners: Seq<ListenerView>,
    workload: Seq<char>,
    observers: bool,
    envelope: EnvelopeView,
) -> Seq<ListenerView> {
    Seq::new(listeners.len(), |i: int| told_one(listeners[i], workload, observers, envelope))
}

/// The listeners after the observers of the workload saw a guest's message.
pub open spec fn observed(
    listeners: Seq<ListenerView>,
    workload: Seq<char>,
    operation: ObservedOperation,
    message: HostMessageView,
) -> Seq<ListenerView> {
    told(
        listeners,
        workload,
        true,
        EnvelopeView { message, operation, origin: MessageOrigin::Guest, reply: None },
    )
}

/// Where the listener stands: the first place with its number, or the length.
pub open spec fn listener_place(listeners: Seq<ListenerView>, id: u64) -> int
    decreases listeners.len(),
{
    if listeners.len() == 0 || listeners[0].id == id {
        0
    } else {
        1 + listener_place(listeners.drop_first(), id)
    }
}

/// The listeners when nothing more will come for those of the workload.
pub open spec fn ended_for(listeners: Seq<ListenerView>, workload: Seq<char>) -> Seq<ListenerView> {
    Seq::new(
        listeners.len(),
        |i: int|
            if listeners[i].workload == workload {
                ListenerView { ended: true, ..listeners[i] }
            } else {
                listeners[i]
            },
    )
}

/// The broker after a listener was added for a workload.
pub open spec fn listening(
    broker: BrokerView,
    workload: Seq<char>,
    pattern: Option<Seq<char>>,
    bound: nat,
) -> BrokerView {
    BrokerView {
        listeners: broker.listeners.push(
            ListenerView {
                id: broker.next,
                workload,
                pattern,
                queue: QueueView { items: Seq::empty(), bound, closed: false },
                ended: false,
            },
        ),
        next: following(broker.next),
        ..broker
    }
}

/// The capacity of a listener's queue: what was asked for, and one at the least.
pub open spec fn at_least_one(capacity: usize) -> nat {
    if capacity == 0 {
        1
    } else {
        capacity as nat
    }
}

/// What taking from a listener's queue comes to: its oldest message; where none waits, nothing
/// yet, or nothing ever again, once its workload closed or the listener is gone.
pub open spec fn listener_poll(
    before: BrokerView,
    after: BrokerView,
    id: u64,
    out: Taken,
) -> bool {
    let place = listener_place(before.listeners, id);
    if place >= before.listeners.len() {
        out is Ended && after == before
    } else {
        let listener = before.listeners[place];
        &&& after == listener_taken(before, place)
        &&& match out {
            Taken::Item(envelope) => listener.queue.items.len() > 0 && envelope@
                == listener.queue.items[0],
            Taken::Empty => listener.queue.items.len() == 0 && !listener.ended
                && !listener.queue.closed,
            Taken::Ended => listener.queue.items.len() == 0 && (listener.ended
                || listener.queue.closed),
        }
    }
}

/// The broker after the listener at `place` took its oldest message.
pub open spec fn listener_taken(broker: BrokerView, place: int) -> BrokerView {
    BrokerView {
        listeners: broker.listeners.update(
            place,
            ListenerView {
                queue: taken(broker.listeners[place].queue),
                ..broker.listeners[place]
            },
        ),
        ..broker
    }
}

/// The broker after a listener left.
pub open spec fn listener_removed(broker: BrokerView, id: u64) -> BrokerView {
    let place = listener_place(broker.listeners, id);
    if place < broker.listeners.len() {
        BrokerView { listeners: broker.listeners.remove(place), ..broker }
    } else {
        broker
    }
}

// ---------------------------------------------------------------------------
// Routing
// ---------------------------------------------------------------------------

/// A component after the message came to the workload.
pub open spec fn routed_one(component: ComponentView, envelope: EnvelopeView) -> ComponentView {
    if subscribed(component.subscriptions, envelope.message.subject) {
        ComponentView { inbox: offered(component.inbox, envelope), ..component }
    } else {
        component
    }
}

/// The components after each of those that subscribed to its subject got the message.
pub open spec fn routed(
    components: Map<Seq<char>, ComponentView>,
    envelope: EnvelopeView,
) -> Map<Seq<char>, ComponentView> {
    components.map_values(|component: ComponentView| routed_one(component, envelope))
}

/// Whether every component that subscribed to the subject has room.
pub open spec fn all_take(components: Map<Seq<char>, ComponentView>, subject: Seq<char>) -> bool {
    forall|id: Seq<char>| #[trigger]
        components.contains_key(id) && subscribed(components[id].subscriptions, subject)
            ==> offer_outcome(components[id].inbox) == Offer::Taken
}

/// The error for a queue's refusal.
pub open spec fn refusal(outcome: Offer) -> Option<MessagingError> {
    match outcome {
        Offer::Taken => None,
        Offer::Full => Some(MessagingError::QueueFull),
        Offer::Closed => Some(MessagingError::Closed),
    }
}

/// Whether some component that subscribed to the subject refuses for this reason.
pub open spec fn some_refuses(
    components: Map<Seq<char>, ComponentView>,
    subject: Seq<char>,
    error: MessagingError,
) -> bool {
    exists|id: Seq<char>| #[trigger]
        components.contains_key(id) && subscribed(components[id].subscriptions, subject) && refusal(
            offer_outcome(components[id].inbox),
        ) == Some(error)
}

/// What routing a message in the workload comes to: either every component that subscribed has
/// room and gets it, or none gets it and the result says why one of them refused.
pub open spec fn routing(
    before: BrokerView,
    after: BrokerView,
    workload: Seq<char>,
    envelope: EnvelopeView,
    result: Result<(), MessagingError>,
) -> bool {
    let components = components_of(before, workload);
    match result {
        Ok(()) => {
            &&& all_take(components, envelope.message.subject)
            &&& after == with_components(before, workload, routed(components, envelope))
        },
        Err(error) => {
            &&& some_refuses(components, envelope.message.subject, error)
            &&& after == before
        },
    }
}

// ---------------------------------------------------------------------------
// Publishing
// ---------------------------------------------------------------------------

/// Whether a message on the subject is a reply: a request waits for it, or once did.
pub open spec fn is_reply(data: WorkloadView, subject: Seq<char>) -> bool {
    data.pending.contains_key(subject) || data.tombstones.contains(subject)
}

/// The broker after a reply came: the request that waited for it has it, no request waits on its
/// subject any longer, and no component gets it.
pub open spec fn replied(
    broker: BrokerView,
    workload: Seq<char>,
    data: WorkloadView,
    message: HostMessageView,
    origin: MessageOrigin,
) -> BrokerView {
    let subject = message.subject;
    let settled = with_data(
        broker,
        workload,
        WorkloadView {
            pending: data.pending.remove(subject),
            tombstones: remembered(data.tombstones, subject),
            ..data
        },
    );
    BrokerView {
        listeners: if origin == MessageOrigin::Guest {
            observed(broker.listeners, workload, ObservedOperation::Reply, message)
        } else {
            broker.listeners
        },
        answered: if data.pending.contains_key(subject) {
            broker.answered.push(
                AnsweredView {
                    id: data.pending[subject].id,
                    instance: data.instance,
                    reply: routed_form(message),
                },
            )
        } else {
            broker.answered
        },
        ..settled
    }
}

/// The broker after the observers saw a message that is about to be routed.
pub open spec fn heard(
    broker: BrokerView,
    workload: Seq<char>,
    operation: ObservedOperation,
    message: HostMessageView,
    origin: MessageOrigin,
) -> BrokerView {
    if origin == MessageOrigin::Guest {
        BrokerView {
            listeners: observed(broker.listeners, workload, operation, message),
            ..broker
        }
    } else {
        broker
    }
}

/// What publishing a message comes to.
pub open spec fn publishing(
    before: BrokerView,
    after: BrokerView,
    workload: Seq<char>,
    message: HostMessageView,
    origin: MessageOrigin,
    result: Result<(), MessagingError>,
) -> bool {
    match admission(before, workload) {
        Err(error) => result == Err::<(), MessagingError>(error) && after == before,
        Ok(data) => if is_reply(data, message.subject) {
            result is Ok && after == replied(before, workload, data, message, origin)
        } else {
            routing(
                heard(before, workload, ObservedOperation::Publish, message, origin),
                after,
                workload,
                EnvelopeView { message, operation: ObservedOperation::Publish, origin, reply: None },
                result,
            )
        },
    }
}

// ---------------------------------------------------------------------------
// Requests
// ---------------------------------------------------------------------------

/// A message with the subject of its reply.
pub open spec fn replying_to(message: HostMessageView, inbox: Seq<char>) -> HostMessageView {
    HostMessageView { reply_to: Some(inbox), ..message }
}

/// The broker once a request waits and those who listen to guests have it.
pub open spec fn asked(
    broker: BrokerView,
    workload: Seq<char>,
    data: WorkloadView,
    message: HostMessageView,
    origin: MessageOrigin,
    inbox: Seq<char>,
) -> BrokerView {
    let request = replying_to(message, inbox);
    let waiting = with_data(
        broker,
        workload,
        WorkloadView {
            pending: data.pending.insert(
                inbox,
                PendingView { id: broker.next, replies: Seq::empty() },
            ),
            tombstones: remembered(data.tombstones, inbox),
            ..data
        },
    );
    BrokerView {
        listeners: if origin == MessageOrigin::Guest {
            told(
                observed(broker.listeners, workload, ObservedOperation::Request, request),
                workload,
                false,
                EnvelopeView {
                    message: request,
                    operation: ObservedOperation::Request,
                    origin: MessageOrigin::Guest,
                    reply: Some(RequestTicketView { workload, inbox, id: broker.next }),
                },
            )
        } else {
            broker.listeners
        },
        next: following(broker.next),
        ..waiting
    }
}

/// The broker when no request waits on the inbox any longer.
pub open spec fn unasked(broker: BrokerView, workload: Seq<char>, inbox: Seq<char>) -> BrokerView {
    match data_of(broker, workload) {
        Some(data) => with_data(
            broker,
            workload,
            WorkloadView { pending: data.pending.remove(inbox), ..data },
        ),
        None => broker,
    }
}

/// What starting a request comes to, when its reply is to come to `inbox`: it waits for that
/// reply under the next number, unless a component refused it.
pub open spec fn requesting(
    before: BrokerView,
    after: BrokerView,
    workload: Seq<char>,
    message: HostMessageView,
    origin: MessageOrigin,
    inbox: Seq<char>,
    result: Result<u64, MessagingError>,
) -> bool {
    match admission(before, workload) {
        Err(error) => result == Err::<u64, MessagingError>(error) && after == before,
        Ok(data) => {
            let waiting = asked(before, workload, data, message, origin, inbox);
            let envelope = EnvelopeView {
                message: replying_to(message, inbox),
                operation: ObservedOperation::Request,
                origin,
                reply: None,
            };
            match result {
                Ok(id) => id == before.next && routing(waiting, after, workload, envelope, Ok(())),
                Err(error) => {
                    &&& routing(waiting, waiting, workload, envelope, Err(error))
                    &&& after == unasked(waiting, workload, inbox)
                },
            }
        },
    }
}

/// Whether the request still waits for its reply.
pub open spec fn waits(broker: BrokerView, workload: Seq<char>, inbox: Seq<char>, id: u64) -> bool {
    match data_of(broker, workload) {
        Some(data) => data.pending.contains_key(inbox) && data.pending[inbox].id == id,
        None => false,
    }
}

/// Where the reply to the request stands: the first place with its number, or the length.
pub open spec fn answer_place(answered: Seq<AnsweredView>, id: u64) -> int
    decreases answered.len(),
{
    if answered.len() == 0 || answered[0].id == id {
        0
    } else {
        1 + answer_place(answered.drop_first(), id)
    }
}

/// The broker after the reply to the request was fetched or given up.
pub open spec fn answer_removed(broker: BrokerView, id: u64) -> BrokerView {
    let place = answer_place(broker.answered, id);
    if place < broker.answered.len() {
        BrokerView { answered: broker.answered.remove(place), ..broker }
    } else {
        broker
    }
}

/// How a look at a request ended.
pub enum Outcome {
    Waiting,
    Replied(HostMessageView),
    Failed(MessagingError),
}

/// What a look at a request shows: its reply, once there is one; else the oldest answer of a
/// responder, which is sent as the reply; else that it still waits, or that no reply will come.
pub open spec fn look(
    broker: BrokerView,
    workload: Seq<char>,
    inbox: Seq<char>,
    id: u64,
) -> (Outcome, BrokerView) {
    let place = answer_place(broker.answered, id);
    if place < broker.answered.len() {
        (
            Outcome::Replied(host_form(broker.answered[place].reply)),
            answer_removed(broker, id),
        )
    } else if waits(broker, workload, inbox, id) {
        let data = data_of(broker, workload)->0;
        let replies = data.pending[inbox].replies;
        if replies.len() == 0 {
            (Outcome::Waiting, broker)
        } else {
            let message = HostMessageView { subject: inbox, ..replies[0] };
            (
                Outcome::Replied(message),
                BrokerView {
                    answered: broker.answered,
                    ..replied(broker, workload, data, message, MessageOrigin::Guest)
                },
            )
        }
    } else {
        (Outcome::Failed(MessagingError::Closed), broker)
    }
}

/// The broker after the requester gave up.
pub open spec fn given_up(
    broker: BrokerView,
    workload: Seq<char>,
    inbox: Seq<char>,
    id: u64,
) -> BrokerView {
    let gone = answer_removed(broker, id);
    if waits(gone, workload, inbox, id) {
        unasked(gone, workload, inbox)
    } else {
        gone
    }
}

/// What a responder's answer comes to: one to a request that still waits is kept for it, one to a
/// request whose reply is there already is dropped, and any other finds the request closed.
pub open spec fn answering(
    broker: BrokerView,
    ticket: RequestTicketView,
    message: HostMessageView,
) -> (Result<(), MessagingError>, BrokerView) {
    if waits(broker, ticket.workload, ticket.inbox, ticket.id) {
        let data = data_of(broker, ticket.workload)->0;
        let request = data.pending[ticket.inbox];
        (
            Ok(()),
            with_data(
                broker,
                ticket.workload,
                WorkloadView {
                    pending: data.pending.insert(
                        ticket.inbox,
                        PendingView { replies: request.replies.push(message), ..request },
                    ),
                    ..data
                },
            ),
        )
    } else if answer_place(broker.answered, ticket.id) < broker.answered.len() {
        (Ok(()), broker)
    } else {
        (Err(MessagingError::Closed), broker)
    }
}

// ---------------------------------------------------------------------------
// Lifecycle
// ---------------------------------------------------------------------------

/// The broker after a workload got new data, on top of the components it may have.
pub open spec fn started(
    broker: BrokerView,
    workload: Seq<char>,
    lifecycle: Lifecycle,
) -> BrokerView {
    BrokerView {
        next: following(broker.next),
        ..with_data(broker, workload, new_workload(broker.next, lifecycle))
    }
}

/// What binding a workload comes to: a reserved one is bound, a new one comes into being as
/// bound, and any other fails with the state that it is in.
pub open spec fn binding(broker: BrokerView, workload: Seq<char>) -> (
    Result<(), Lifecycle>,
    BrokerView,
) {
    match data_of(broker, workload) {
        Some(data) => if data.lifecycle == Lifecycle::Reserved {
            (
                Ok(()),
                with_data(
                    broker,
                    workload,
                    WorkloadView { lifecycle: Lifecycle::Bound, ..data },
                ),
            )
        } else {
            (Err(data.lifecycle), broker)
        },
        None => (Ok(()), started(broker, workload, Lifecycle::Bound)),
    }
}

/// What closing a workload comes to: no request waits any longer and nothing more comes to its
/// listeners. One that was closed before is closing from then on.
pub open spec fn closing(broker: BrokerView, workload: Seq<char>) -> (
    Result<(), MessagingError>,
    BrokerView,
) {
    match data_of(broker, workload) {
        None => (Err(MessagingError::Closed), broker),
        Some(data) => if data.lifecycle == Lifecycle::Closed {
            (
                Ok(()),
                with_data(
                    broker,
                    workload,
                    WorkloadView { lifecycle: Lifecycle::Closing, ..data },
                ),
            )
        } else {
            (
                Ok(()),
                BrokerView {
                    listeners: ended_for(broker.listeners, workload),
                    ..with_data(
                        broker,
                        workload,
                        WorkloadView {
                            lifecycle: Lifecycle::Closed,
                            pending: Map::empty(),
                            ..data
                        },
                    )
                },
            )
        },
    }
}

/// The broker after a workload left, with its components, its requests and its listeners.
pub open spec fn unbound(broker: BrokerView, workload: Seq<char>) -> BrokerView {
    if broker.workloads.contains_key(workload) {
        BrokerView {
            workloads: broker.workloads.remove(workload),
            components: broker.components.remove_keys(broker.workloads[workload].components.dom()),
            listeners: ended_for(broker.listeners, workload),
            ..broker
        }
    } else {
        broker
    }
}

/// Whether nothing goes on in a workload: no message waits or is being handled, and no request
/// is open.
pub open spec fn idle(broker: BrokerView, workload: Seq<char>, data: WorkloadView) -> bool {
    &&& data.running == 0
    &&& data.pending == Map::<Seq<char>, PendingView>::empty()
    &&& forall|i: int|
        0 <= i < broker.answered.len() ==> (#[trigger] broker.answered[i]).instance
            != data.instance
    &&& forall|id: Seq<char>| #[trigger]
        components_of(broker, workload).contains_key(id) ==> components_of(
            broker,
            workload,
        )[id].inbox.items.len() == 0
}

// ---------------------------------------------------------------------------
// Components
// ---------------------------------------------------------------------------

/// Whether the broker serves the component.
pub open spec fn has_component(broker: BrokerView, component: Seq<char>) -> bool {
    &&& broker.components.contains_key(component)
    &&& broker.workloads.contains_key(broker.components[component])
    &&& broker.workloads[broker.components[component]].components.contains_key(component)
}

/// What the broker keeps of the component.
pub open spec fn component_of(broker: BrokerView, component: Seq<char>) -> ComponentView {
    broker.workloads[broker.components[component]].components[component]
}

/// The broker with something else kept of the component.
pub open spec fn with_component(
    broker: BrokerView,
    component: Seq<char>,
    data: ComponentView,
) -> BrokerView {
    let workload = broker.components[component];
    with_components(
        broker,
        workload,
        broker.workloads[workload].components.insert(component, data),
    )
}

/// The broker after a component of a workload came, with an empty inbox.
pub open spec fn component_added(
    broker: BrokerView,
    workload: Seq<char>,
    component: Seq<char>,
    subscriptions: Seq<Seq<char>>,
    bound: nat,
) -> BrokerView {
    BrokerView {
        components: broker.components.insert(component, workload),
        ..with_components(
            broker,
            workload,
            components_of(broker, workload).insert(
                component,
                ComponentView {
                    subscriptions,
                    inbox: QueueView { items: Seq::empty(), bound, closed: false },
                    started: false,
                },
            ),
        )
    }
}

/// The broker after the component took its oldest message to handle it, which counts as running
/// in its workload.
pub open spec fn message_taken(broker: BrokerView, component: Seq<char>) -> BrokerView {
    let workload = broker.components[component];
    let fetched = with_component(
        broker,
        component,
        ComponentView {
            inbox: taken(component_of(broker, component).inbox),
            ..component_of(broker, component)
        },
    );
    match data_of(broker, workload) {
        Some(data) => with_data(
            fetched,
            workload,
            WorkloadView { running: (data.running + 1) as u64, ..data },
        ),
        None => fetched,
    }
}

/// The broker after a message was handled.
pub open spec fn handled(broker: BrokerView, workload: Seq<char>, instance: u64) -> BrokerView {
    match data_of(broker, workload) {
        Some(data) => if data.instance == instance && data.running > 0 {
            with_data(
                broker,
                workload,
                WorkloadView { running: (data.running - 1) as u64, ..data },
            )
        } else {
            broker
        },
        None => broker,
    }
}

/// The broker after a component gave up its inbox: what waits there is lost, and nothing more
/// gets in.
pub open spec fn abandoned(broker: BrokerView, component: Seq<char>) -> BrokerView {
    if has_component(broker, component) {
        let data = component_of(broker, component);
        with_component(
            broker,
            component,
            ComponentView {
                inbox: QueueView { items: Seq::empty(), closed: true, ..data.inbox },
                ..data
            },
        )
    } else {
        broker
    }
}

} // verus!
