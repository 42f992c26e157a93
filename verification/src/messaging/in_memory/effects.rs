//! What each operation of the in-process broker does, and what it leaves alone.
use vstd::prelude::*;

use crate::messaging::in_memory::broker::asks_for_messaging;
use crate::messaging::in_memory::broker::fetching;
use crate::messaging::in_memory::broker::lifecycle_number;
use crate::messaging::in_memory::broker::observation;
use crate::messaging::in_memory::broker::poll_outcome;
use crate::messaging::in_memory::broker::request_number;
use crate::messaging::in_memory::broker::request_received;
use crate::messaging::in_memory::broker::MAX_QUEUE_SIZE;
use crate::messaging::in_memory::broker::NextMessage;
use crate::messaging::in_memory::broker::Received;
use crate::messaging::in_memory::broker::RequestPoll;
use crate::messaging::in_memory::broker::ResponderRequest;
use crate::messaging::in_memory::broker::ServiceError;
use crate::messaging::in_memory::model::abandoned;
use crate::messaging::in_memory::model::admission;
use crate::messaging::in_memory::model::all_take;
use crate::messaging::in_memory::model::answering;
use crate::messaging::in_memory::model::asked;
use crate::messaging::in_memory::model::at_least_one;
use crate::messaging::in_memory::model::binding;
use crate::messaging::in_memory::model::closing;
use crate::messaging::in_memory::model::component_added;
use crate::messaging::in_memory::model::component_of;
use crate::messaging::in_memory::model::components_of;
use crate::messaging::in_memory::model::data_of;
use crate::messaging::in_memory::model::empty_broker;
use crate::messaging::in_memory::model::given_up;
use crate::messaging::in_memory::model::handled;
use crate::messaging::in_memory::model::has_component;
use crate::messaging::in_memory::model::heard;
use crate::messaging::in_memory::model::idle;
use crate::messaging::in_memory::model::is_reply;
use crate::messaging::in_memory::model::listener_place;
use crate::messaging::in_memory::model::listener_poll;
use crate::messaging::in_memory::model::listener_removed;
use crate::messaging::in_memory::model::listening;
use crate::messaging::in_memory::model::look;
use crate::messaging::in_memory::model::message_taken;
use crate::messaging::in_memory::model::publishing;
use crate::messaging::in_memory::model::refusal;
use crate::messaging::in_memory::model::requesting;
use crate::messaging::in_memory::model::started;
use crate::messaging::in_memory::model::unbound;
use crate::messaging::in_memory::model::BrokerView;
use crate::messaging::in_memory::model::ComponentView;
use crate::messaging::in_memory::model::Lifecycle;
use crate::messaging::in_memory::model::ListenerView;
use crate::messaging::in_memory::model::Outcome;
use crate::messaging::in_memory::model::PendingView;
use crate::messaging::in_memory::model::WorkloadView;
use crate::messaging::in_memory::requests::reply_ready;
use crate::messaging::in_memory::runs::awaits;
use crate::messaging::in_memory::runs::lemma_answer_place;
use crate::messaging::in_memory::runs::lemma_replies_stay_numbered;
use crate::messaging::in_memory::runs::no_reply;
use crate::messaging::in_memory::runs::numbered;
use crate::messaging::in_memory::runs::waiter;
use crate::messaging::message::HostMessage;
use crate::messaging::message::HostMessageView;
use crate::messaging::message::MessageOrigin;
use crate::messaging::message::MessagingError;
use crate::messaging::message::ObservedMessage;
use crate::messaging::message::ObservedOperation;
use crate::messaging::queue::offer_outcome;
use crate::messaging::queue::EnvelopeView;
use crate::messaging::queue::Offer;
use crate::messaging::queue::QueueView;
use crate::messaging::queue::RequestTicket;
use crate::messaging::queue::RequestTicketView;
use crate::messaging::queue::Taken;
use crate::messaging::subject::subject_match;
use crate::messaging::subject::subscribed;
use crate::text::decimal;
use crate::wit::of_package;
use crate::wit::WitInterface;

verus! {

/// Whether a queue is open and holds fewer messages than it was made for.
pub open spec fn has_room(queue: QueueView) -> bool {
    !queue.closed && queue.items.len() < queue.bound
}

/// Whether every component of a workload that subscribed to a subject has room in its inbox.
pub open spec fn all_have_room(broker: BrokerView, workload: Seq<char>, subject: Seq<char>) -> bool {
    forall|component: Seq<char>| #[trigger]
        components_of(broker, workload).contains_key(component) && subscribed(
            components_of(broker, workload)[component].subscriptions,
            subject,
        ) ==> has_room(components_of(broker, workload)[component].inbox)
}

/// A workload may send exactly while it is bound; one that was closed is told so, and any other is
/// told that it is not bound.
pub proof fn law_bound_workloads_may_send(broker: BrokerView, workload: Seq<char>)
    ensures
        admission(broker, workload) is Ok == (broker.workloads.contains_key(workload)
            && broker.workloads[workload].data is Some
            && broker.workloads[workload].data->0.lifecycle == Lifecycle::Bound),
        admission(broker, workload) is Ok ==> admission(broker, workload)->Ok_0
            == broker.workloads[workload].data->0,
        broker.workloads.contains_key(workload) && (broker.workloads[workload].data matches Some(
            data,
        ) && (data.lifecycle == Lifecycle::Closing || data.lifecycle == Lifecycle::Closed))
            ==> admission(broker, workload) == Err::<WorkloadView, MessagingError>(
            MessagingError::Closed,
        ),
        !broker.workloads.contains_key(workload) || broker.workloads[workload].data is None || (
        broker.workloads[workload].data->0.lifecycle == Lifecycle::Reserved) ==> admission(
            broker,
            workload,
        ) == Err::<WorkloadView, MessagingError>(MessagingError::NotBound),
{
}

/// A message that is no reply is taken exactly where every component of its workload that
/// subscribed to its subject has room, and then stands last in the inbox of each of them, whole;
/// where one is full or gave its inbox up, the sender is told which it is. Nothing else changes
/// in the workload, and no other component gets anything.
pub proof fn law_published_messages_come_to_their_subscribers(
    before: BrokerView,
    after: BrokerView,
    workload: Seq<char>,
    message: HostMessageView,
    origin: MessageOrigin,
    result: Result<(), MessagingError>,
    component: Seq<char>,
)
    requires
        publishing(before, after, workload, message, origin, result),
        admission(before, workload) is Ok,
        !awaits(before, workload, message.subject),
        !data_of(before, workload)->0.tombstones.contains(message.subject),
    ensures
        (result is Ok) == all_have_room(before, workload, message.subject),
        result matches Err(error) ==> error == MessagingError::QueueFull || error
            == MessagingError::Closed,
        result is Err ==> exists|id: Seq<char>| #[trigger]
            components_of(before, workload).contains_key(id) && subscribed(
                components_of(before, workload)[id].subscriptions,
                message.subject,
            ) && (if result->Err_0 == MessagingError::Closed {
                components_of(before, workload)[id].inbox.closed
            } else {
                !components_of(before, workload)[id].inbox.closed && components_of(
                    before,
                    workload,
                )[id].inbox.items.len() >= components_of(before, workload)[id].inbox.bound
            }),
        components_of(after, workload).contains_key(component) == components_of(
            before,
            workload,
        ).contains_key(component),
        components_of(before, workload).contains_key(component) ==> ({
            let was = components_of(before, workload)[component];
            let is = components_of(after, workload)[component];
            if result is Ok && subscribed(was.subscriptions, message.subject) {
                is == (ComponentView {
                    inbox: QueueView {
                        items: was.inbox.items.push(
                            EnvelopeView {
                                message,
                                operation: ObservedOperation::Publish,
                                origin,
                                reply: None,
                            },
                        ),
                        ..was.inbox
                    },
                    ..was
                })
            } else {
                is == was
            }
        }),
        data_of(after, workload) == data_of(before, workload),
        after.answered == before.answered,
        after.components == before.components,
        after.next == before.next,
{
    let components = components_of(before, workload);
    let known = heard(before, workload, ObservedOperation::Publish, message, origin);
    assert(components_of(known, workload) == components);
    assert(all_take(components, message.subject) == all_have_room(
        before,
        workload,
        message.subject,
    )) by {
        if all_have_room(before, workload, message.subject) {
            assert forall|id: Seq<char>| #[trigger]
                components.contains_key(id) && subscribed(
                    components[id].subscriptions,
                    message.subject,
                ) implies offer_outcome(components[id].inbox) == Offer::Taken by {
                assert(has_room(components[id].inbox));
            }
        }
        if all_take(components, message.subject) {
            assert forall|id: Seq<char>| #[trigger]
                components_of(before, workload).contains_key(id) && subscribed(
                    components[id].subscriptions,
                    message.subject,
                ) implies has_room(components[id].inbox) by {
                assert(offer_outcome(components[id].inbox) == Offer::Taken);
            }
        }
    }
    if result is Err {
        let id = choose|id: Seq<char>| #[trigger]
            components.contains_key(id) && subscribed(components[id].subscriptions, message.subject)
                && refusal(offer_outcome(components[id].inbox)) == Some(result->Err_0);
        assert(!has_room(components[id].inbox));
        assert(components_of(before, workload).contains_key(id));
    } else if components.contains_key(component) && subscribed(
        components[component].subscriptions,
        message.subject,
    ) {
        assert(offer_outcome(components[component].inbox) == Offer::Taken);
    }
}

/// A request, from a guest or from the host, is taken exactly where every component of its
/// workload that subscribed to its subject has room, and then stands last in the inbox of each of
/// them, whole, with the inbox for its reply as where to reply to; in no other inbox it stands. It
/// then waits under the next number, and no other request is touched. Where one of them has no
/// room, the requester is told why, no component gets it, and nothing waits on the inbox.
pub proof fn law_requests_come_to_their_subscribers(
    before: BrokerView,
    after: BrokerView,
    workload: Seq<char>,
    message: HostMessageView,
    origin: MessageOrigin,
    inbox: Seq<char>,
    result: Result<u64, MessagingError>,
    component: Seq<char>,
    other: Seq<char>,
)
    requires
        requesting(before, after, workload, message, origin, inbox, result),
        admission(before, workload) is Ok,
    ensures
        (result is Ok) == all_have_room(before, workload, message.subject),
        result matches Ok(id) ==> id == before.next,
        result matches Err(error) ==> error == MessagingError::QueueFull || error
            == MessagingError::Closed,
        result is Err ==> exists|id: Seq<char>| #[trigger]
            components_of(before, workload).contains_key(id) && subscribed(
                components_of(before, workload)[id].subscriptions,
                message.subject,
            ) && (if result->Err_0 == MessagingError::Closed {
                components_of(before, workload)[id].inbox.closed
            } else {
                !components_of(before, workload)[id].inbox.closed && components_of(
                    before,
                    workload,
                )[id].inbox.items.len() >= components_of(before, workload)[id].inbox.bound
            }),
        components_of(after, workload).contains_key(component) == components_of(
            before,
            workload,
        ).contains_key(component),
        components_of(before, workload).contains_key(component) ==> ({
            let was = components_of(before, workload)[component];
            let is = components_of(after, workload)[component];
            if result is Ok && subscribed(was.subscriptions, message.subject) {
                is == (ComponentView {
                    inbox: QueueView {
                        items: was.inbox.items.push(
                            EnvelopeView {
                                message: HostMessageView {
                                    subject: message.subject,
                                    reply_to: Some(inbox),
                                    body: message.body,
                                    trace_context: message.trace_context,
                                },
                                operation: ObservedOperation::Request,
                                origin,
                                reply: None,
                            },
                        ),
                        ..was.inbox
                    },
                    ..was
                })
            } else {
                is == was
            }
        }),
        data_of(after, workload) is Some,
        awaits(after, workload, inbox) == (result is Ok),
        result is Ok ==> data_of(after, workload)->0.pending[inbox] == (PendingView {
            id: before.next,
            replies: Seq::empty(),
        }),
        other != inbox ==> awaits(after, workload, other) == awaits(before, workload, other) && (
        awaits(before, workload, other) ==> data_of(after, workload)->0.pending[other] == data_of(
            before,
            workload,
        )->0.pending[other]),
        data_of(after, workload)->0.running == data_of(before, workload)->0.running,
        data_of(after, workload)->0.lifecycle == Lifecycle::Bound,
        data_of(after, workload)->0.instance == data_of(before, workload)->0.instance,
        after.answered == before.answered,
        after.components == before.components,
{
    let data = admission(before, workload)->Ok_0;
    let components = components_of(before, workload);
    let waiting = asked(before, workload, data, message, origin, inbox);
    assert(components_of(waiting, workload) == components);
    assert(all_take(components, message.subject) == all_have_room(
        before,
        workload,
        message.subject,
    )) by {
        if all_have_room(before, workload, message.subject) {
            assert forall|id: Seq<char>| #[trigger]
                components.contains_key(id) && subscribed(
                    components[id].subscriptions,
                    message.subject,
                ) implies offer_outcome(components[id].inbox) == Offer::Taken by {
                assert(has_room(components[id].inbox));
            }
        }
        if all_take(components, message.subject) {
            assert forall|id: Seq<char>| #[trigger]
                components_of(before, workload).contains_key(id) && subscribed(
                    components[id].subscriptions,
                    message.subject,
                ) implies has_room(components[id].inbox) by {
                assert(offer_outcome(components[id].inbox) == Offer::Taken);
            }
        }
    }
    if result is Err {
        let id = choose|id: Seq<char>| #[trigger]
            components.contains_key(id) && subscribed(components[id].subscriptions, message.subject)
                && refusal(offer_outcome(components[id].inbox)) == Some(result->Err_0);
        assert(!has_room(components[id].inbox));
        assert(components_of(before, workload).contains_key(id));
    } else if components.contains_key(component) && subscribed(
        components[component].subscriptions,
        message.subject,
    ) {
        assert(offer_outcome(components[component].inbox) == Offer::Taken);
    }
}

/// A listener after a message was put to it: where it has room, the message stands last.
pub open spec fn told_last(listener: ListenerView, envelope: EnvelopeView) -> ListenerView {
    if has_room(listener.queue) {
        ListenerView {
            queue: QueueView { items: listener.queue.items.push(envelope), ..listener.queue },
            ..listener
        }
    } else {
        listener
    }
}

/// What a guest publishes or requests is put to the observers of its workload that are still
/// open, and what it requests also to the responders there whose pattern its subject matches, who
/// get the ticket to answer it with; the rest of the listeners hear nothing. What the host sends
/// is put to none.
pub proof fn law_listeners_hear_what_they_listen_to(
    before: BrokerView,
    published: BrokerView,
    requested: BrokerView,
    workload: Seq<char>,
    message: HostMessageView,
    origin: MessageOrigin,
    inbox: Seq<char>,
    result: Result<(), MessagingError>,
    number: Result<u64, MessagingError>,
    i: int,
)
    requires
        admission(before, workload) is Ok,
        publishing(before, published, workload, message, origin, result),
        requesting(before, requested, workload, message, origin, inbox, number),
        0 <= i < before.listeners.len(),
    ensures
        published.listeners.len() == before.listeners.len(),
        requested.listeners.len() == before.listeners.len(),
        ({
            let listener = before.listeners[i];
            let hears = origin == MessageOrigin::Guest && listener.workload == workload
                && !listener.ended;
            let request = HostMessageView {
                subject: message.subject,
                reply_to: Some(inbox),
                body: message.body,
                trace_context: message.trace_context,
            };
            let is_a_reply = awaits(before, workload, message.subject) || data_of(
                before,
                workload,
            )->0.tombstones.contains(message.subject);
            &&& published.listeners[i] == (if hears && listener.pattern is None {
                told_last(
                    listener,
                    EnvelopeView {
                        message,
                        operation: if is_a_reply {
                            ObservedOperation::Reply
                        } else {
                            ObservedOperation::Publish
                        },
                        origin: MessageOrigin::Guest,
                        reply: None,
                    },
                )
            } else {
                listener
            })
            &&& requested.listeners[i] == (if hears && listener.pattern is None {
                told_last(
                    listener,
                    EnvelopeView {
                        message: request,
                        operation: ObservedOperation::Request,
                        origin: MessageOrigin::Guest,
                        reply: None,
                    },
                )
            } else if hears && subject_match(listener.pattern->0, message.subject) {
                told_last(
                    listener,
                    EnvelopeView {
                        message: request,
                        operation: ObservedOperation::Request,
                        origin: MessageOrigin::Guest,
                        reply: Some(RequestTicketView { workload, inbox, id: before.next }),
                    },
                )
            } else {
                listener
            })
        }),
{
    let data = admission(before, workload)->Ok_0;
    assert(is_reply(data, message.subject) == (awaits(before, workload, message.subject)
        || data.tombstones.contains(message.subject)));
}

/// A new listener comes last, with an empty queue for as much as was asked for, and one at the
/// least, and gets what is told from then on; it changes nothing else.
pub proof fn law_new_listeners_are_empty(
    broker: BrokerView,
    workload: Seq<char>,
    pattern: Option<Seq<char>>,
    capacity: usize,
    i: int,
)
    ensures
        ({
            let after = listening(broker, workload, pattern, at_least_one(capacity));
            let new = after.listeners[broker.listeners.len() as int];
            &&& after.listeners.len() == broker.listeners.len() + 1
            &&& 0 <= i < broker.listeners.len() ==> after.listeners[i] == broker.listeners[i]
            &&& new.id == broker.next
            &&& new.workload == workload
            &&& new.pattern == pattern
            &&& !new.ended
            &&& !new.queue.closed
            &&& new.queue.items.len() == 0
            &&& new.queue.bound == (if capacity == 0 {
                1
            } else {
                capacity as nat
            })
            &&& after.workloads == broker.workloads
            &&& after.components == broker.components
            &&& after.answered == broker.answered
        }),
{
}

/// Whether the listeners have numbers of their own.
pub open spec fn told_apart(listeners: Seq<ListenerView>) -> bool {
    forall|i: int, j: int|
        0 <= i < j < listeners.len() ==> (#[trigger] listeners[i]).id != (
        #[trigger] listeners[j]).id
}

/// A listener is found under its number.
proof fn lemma_listener_is_found(listeners: Seq<ListenerView>, place: int)
    requires
        told_apart(listeners),
        0 <= place < listeners.len(),
    ensures
        listener_place(listeners, listeners[place].id) == place,
    decreases listeners.len(),
{
    if place > 0 {
        let rest = listeners.drop_first();
        assert(listeners[0].id != listeners[place].id);
        assert(rest[place - 1] == listeners[place]);
        assert forall|i: int, j: int| 0 <= i < j < rest.len() implies (#[trigger] rest[i]).id != (
        #[trigger] rest[j]).id by {
            assert(rest[i] == listeners[i + 1]);
            assert(rest[j] == listeners[j + 1]);
        }
        lemma_listener_is_found(rest, place - 1);
    }
}

/// A listener receives what was put to it, oldest first, each message once, and nobody else's;
/// where nothing waits it learns whether anything may still come.
pub proof fn law_listeners_receive_in_order(
    before: BrokerView,
    after: BrokerView,
    place: int,
    out: Taken,
    other: int,
)
    requires
        told_apart(before.listeners),
        0 <= place < before.listeners.len(),
        0 <= other < before.listeners.len(),
        listener_poll(before, after, before.listeners[place].id, out),
    ensures
        ({
            let was = before.listeners[place];
            let is = after.listeners[place];
            &&& after.listeners.len() == before.listeners.len()
            &&& was.queue.items.len() > 0 ==> (out matches Taken::Item(envelope) && envelope@
                == was.queue.items[0]) && is.queue.items == was.queue.items.skip(1)
            &&& was.queue.items.len() == 0 ==> is.queue.items.len() == 0 && (if was.ended
                || was.queue.closed {
                out is Ended
            } else {
                out is Empty
            })
            &&& is.id == was.id && is.workload == was.workload && is.pattern == was.pattern
                && is.ended == was.ended && is.queue.bound == was.queue.bound && is.queue.closed
                == was.queue.closed
            &&& other != place ==> after.listeners[other] == before.listeners[other]
            &&& after.workloads == before.workloads
            &&& after.answered == before.answered
        }),
{
    lemma_listener_is_found(before.listeners, place);
    let items = before.listeners[place].queue.items;
    if items.len() > 0 {
        assert(items.drop_first() =~= items.skip(1));
    }
}

/// A listener that leaves is gone, and the others stay as they are, in order.
pub proof fn law_listeners_leave_alone(broker: BrokerView, place: int, other: int)
    requires
        told_apart(broker.listeners),
        0 <= place < broker.listeners.len(),
        0 <= other < broker.listeners.len(),
    ensures
        ({
            let after = listener_removed(broker, broker.listeners[place].id);
            &&& after.listeners.len() == broker.listeners.len() - 1
            &&& other < place ==> after.listeners[other] == broker.listeners[other]
            &&& other > place ==> after.listeners[other - 1] == broker.listeners[other]
            &&& after.workloads == broker.workloads
            &&& after.answered == broker.answered
            &&& after.next == broker.next
        }),
{
    lemma_listener_is_found(broker.listeners, place);
}

/// A component that comes to a workload has the subscriptions that it was given, and an inbox that
/// is open, empty and takes as many messages as it was made for; it is not started, and nothing
/// else changes in the workload.
pub proof fn law_new_components_wait_for_messages(
    broker: BrokerView,
    workload: Seq<char>,
    component: Seq<char>,
    subscriptions: Seq<Seq<char>>,
    bound: nat,
    other: Seq<char>,
)
    ensures
        ({
            let after = component_added(broker, workload, component, subscriptions, bound);
            let new = component_of(after, component);
            &&& has_component(after, component)
            &&& after.components[component] == workload
            &&& new.subscriptions == subscriptions
            &&& new.inbox.items.len() == 0
            &&& new.inbox.bound == bound
            &&& !new.inbox.closed
            &&& !new.started
            &&& data_of(after, workload) == data_of(broker, workload)
            &&& other != component ==> components_of(after, workload).contains_key(other)
                == components_of(broker, workload).contains_key(other) && (components_of(
                broker,
                workload,
            ).contains_key(other) ==> components_of(after, workload)[other] == components_of(
                broker,
                workload,
            )[other])
            &&& after.listeners == broker.listeners
            &&& after.answered == broker.answered
        }),
{
}

/// A component that has a message to fetch gets the oldest, whole, with its trace context, and
/// with what counts it as work of its workload; one without gets nothing, and one that gave its
/// inbox up or is not served has none to expect.
pub proof fn law_components_fetch_the_oldest(
    before: BrokerView,
    after: BrokerView,
    component: Seq<char>,
    out: NextMessage,
)
    requires
        fetching(before, after, component, out),
        has_component(before, component),
        data_of(before, before.components[component]) matches Some(data) ==> data.running
            < u64::MAX,
    ensures
        ({
            let inbox = component_of(before, component).inbox;
            &&& inbox.items.len() == 0 && inbox.closed ==> out is Stopped && after == before
            &&& inbox.items.len() == 0 && !inbox.closed ==> out is Nothing && after == before
            &&& inbox.items.len() > 0 ==> (out matches NextMessage::Message(message, activity) && {
                &&& message@.message.subject == inbox.items[0].message.subject
                &&& message@.message.reply_to == inbox.items[0].message.reply_to
                &&& message@.message.body == inbox.items[0].message.body
                &&& message@.propagation == inbox.items[0].message.trace_context
                &&& activity is Some == data_of(before, before.components[component]) is Some
                &&& activity matches Some(activity) ==> activity.workload@
                    == before.components[component] && activity.instance == data_of(
                    before,
                    before.components[component],
                )->0.instance
                &&& has_component(after, component)
                &&& component_of(after, component).inbox.items == inbox.items.skip(1)
                &&& component_of(after, component).inbox.bound == inbox.bound
                &&& component_of(after, component).inbox.closed == inbox.closed
            })
        }),
        !has_component(before, component) ==> out is Stopped,
{
    let items = component_of(before, component).inbox.items;
    if items.len() > 0 {
        assert(items.drop_first() =~= items.skip(1));
    }
}

/// A component that gives its inbox up loses what waits there, takes nothing more, and nothing
/// else changes.
pub proof fn law_abandoned_inboxes_take_nothing(
    broker: BrokerView,
    component: Seq<char>,
    other: Seq<char>,
)
    requires
        has_component(broker, component),
    ensures
        ({
            let after = abandoned(broker, component);
            let workload = broker.components[component];
            &&& has_component(after, component)
            &&& component_of(after, component).inbox.items.len() == 0
            &&& component_of(after, component).inbox.closed
            &&& component_of(after, component).subscriptions == component_of(
                broker,
                component,
            ).subscriptions
            &&& data_of(after, workload) == data_of(broker, workload)
            &&& other != component && components_of(broker, workload).contains_key(other)
                ==> components_of(after, workload).contains_key(other) && components_of(
                after,
                workload,
            )[other] == components_of(broker, workload)[other]
            &&& after.components == broker.components
            &&& after.listeners == broker.listeners
            &&& after.answered == broker.answered
        }),
{
}

/// A workload is idle exactly where no message is handled or waits to be, no request waits for its
/// reply, and no reply waits for its requester.
pub proof fn law_idle_workloads_have_nothing_under_way(broker: BrokerView, workload: Seq<char>)
    requires
        data_of(broker, workload) is Some,
    ensures
        idle(broker, workload, data_of(broker, workload)->0) == ({
            let data = data_of(broker, workload)->0;
            &&& data.running == 0
            &&& forall|inbox: Seq<char>| !(#[trigger] data.pending.contains_key(inbox))
            &&& forall|i: int|
                0 <= i < broker.answered.len() ==> (#[trigger] broker.answered[i]).instance
                    != data.instance
            &&& forall|id: Seq<char>| #[trigger]
                components_of(broker, workload).contains_key(id) ==> components_of(
                    broker,
                    workload,
                )[id].inbox.items.len() == 0
        }),
{
    let data = data_of(broker, workload)->0;
    if forall|inbox: Seq<char>| !(#[trigger] data.pending.contains_key(inbox)) {
        assert(data.pending =~= Map::<Seq<char>, PendingView>::empty());
    }
}

/// A workload that is reserved or bound for the first time begins with nothing: no request waits,
/// no subject is remembered and nothing runs. Binding a reserved one changes its state alone, and
/// closing one ends its requests and its listeners and touches neither its components nor what
/// is remembered.
pub proof fn law_workloads_begin_empty_and_end_cleanly(
    broker: BrokerView,
    workload: Seq<char>,
    lifecycle: Lifecycle,
    i: int,
)
    requires
        0 <= i < broker.listeners.len(),
    ensures
        ({
            let after = started(broker, workload, lifecycle);
            let data = data_of(after, workload)->0;
            &&& data_of(after, workload) is Some
            &&& data.instance == broker.next
            &&& data.lifecycle == lifecycle
            &&& forall|inbox: Seq<char>| !(#[trigger] data.pending.contains_key(inbox))
            &&& data.tombstones.len() == 0
            &&& data.running == 0
            &&& components_of(after, workload) == components_of(broker, workload)
            &&& after.next != broker.next
        }),
        data_of(broker, workload) is None ==> binding(broker, workload).0 is Ok && binding(
            broker,
            workload,
        ).1 == started(broker, workload, Lifecycle::Bound),
        data_of(broker, workload) matches Some(data) && data.lifecycle == Lifecycle::Reserved
            ==> binding(broker, workload).0 is Ok && data_of(
            binding(broker, workload).1,
            workload,
        ) == Some(
            WorkloadView { lifecycle: Lifecycle::Bound, ..data_of(broker, workload)->0 },
        ) && components_of(binding(broker, workload).1, workload) == components_of(
            broker,
            workload,
        ),
        data_of(broker, workload) matches Some(data) && data.lifecycle != Lifecycle::Reserved
            ==> binding(broker, workload) == (
            Err::<(), Lifecycle>(data_of(broker, workload)->0.lifecycle),
            broker,
        ),
        data_of(broker, workload) matches Some(data) && data.lifecycle != Lifecycle::Closed ==> ({
            let after = closing(broker, workload).1;
            let data = data_of(broker, workload)->0;
            &&& data_of(after, workload) is Some
            &&& data_of(after, workload)->0.running == data.running
            &&& data_of(after, workload)->0.tombstones == data.tombstones
            &&& data_of(after, workload)->0.instance == data.instance
            &&& components_of(after, workload) == components_of(broker, workload)
            &&& after.answered == broker.answered
        }),
        data_of(broker, workload) is None ==> closing(broker, workload) == (
            Err::<(), MessagingError>(MessagingError::Closed),
            broker,
        ),
        ({
            let after = unbound(broker, workload);
            &&& after.listeners.len() == broker.listeners.len()
            &&& broker.workloads.contains_key(workload) && broker.listeners[i].workload == workload
                ==> after.listeners[i].ended && after.listeners[i].queue
                == broker.listeners[i].queue
            &&& broker.listeners[i].workload != workload ==> after.listeners[i]
                == broker.listeners[i]
            &&& after.answered == broker.answered
            &&& after.next == broker.next
        }),
{
}

/// A requester that gives up a request whose reply is there loses the reply, and a workload's
/// other requests keep theirs.
pub proof fn law_replies_given_up_are_gone(
    broker: BrokerView,
    workload: Seq<char>,
    inbox: Seq<char>,
    id: u64,
    reply: HostMessageView,
)
    requires
        numbered(broker),
        reply_ready(broker, id, reply),
    ensures
        no_reply(given_up(broker, workload, inbox, id).answered, id),
        given_up(broker, workload, inbox, id).answered.len() == broker.answered.len() - 1,
        given_up(broker, workload, inbox, id).workloads == broker.workloads,
{
    lemma_replies_stay_numbered(broker, id);
    lemma_answer_place(broker.answered, id);
    if awaits(broker, workload, inbox)
        && waiter(broker, workload, inbox) == id {
        assert(no_reply(broker.answered, id));
    }
}

/// A workload that may not send changes nothing by trying: what it publishes or requests fails with
/// the reason, and nothing else happens.
pub proof fn law_refused_workloads_change_nothing(
    before: BrokerView,
    published: BrokerView,
    requested: BrokerView,
    workload: Seq<char>,
    message: HostMessageView,
    origin: MessageOrigin,
    inbox: Seq<char>,
    result: Result<(), MessagingError>,
    number: Result<u64, MessagingError>,
)
    requires
        admission(before, workload) is Err,
        publishing(before, published, workload, message, origin, result),
        requesting(before, requested, workload, message, origin, inbox, number),
    ensures
        published == before,
        requested == before,
        result == Err::<(), MessagingError>(admission(before, workload)->Err_0),
        number == Err::<u64, MessagingError>(admission(before, workload)->Err_0),
{
}

/// A message on a subject on which a request waits, or once did, is taken and comes to no
/// component. Where one waits, it is that request's reply, whole, behind those that are not fetched
/// yet, and the request waits no longer; no other request is touched.
pub proof fn law_replies_come_to_their_requester(
    before: BrokerView,
    after: BrokerView,
    workload: Seq<char>,
    message: HostMessageView,
    origin: MessageOrigin,
    result: Result<(), MessagingError>,
    other: Seq<char>,
)
    requires
        publishing(before, after, workload, message, origin, result),
        admission(before, workload) is Ok,
        awaits(before, workload, message.subject) || data_of(
            before,
            workload,
        )->0.tombstones.contains(message.subject),
        other != message.subject,
    ensures
        result is Ok,
        components_of(after, workload) == components_of(before, workload),
        !awaits(after, workload, message.subject),
        awaits(after, workload, other) == awaits(before, workload, other),
        awaits(before, workload, other) ==> data_of(after, workload)->0.pending[other] == data_of(
            before,
            workload,
        )->0.pending[other],
        data_of(after, workload)->0.running == data_of(before, workload)->0.running,
        data_of(after, workload)->0.instance == data_of(before, workload)->0.instance,
        data_of(after, workload)->0.lifecycle == Lifecycle::Bound,
        after.components == before.components,
        after.next == before.next,
        !awaits(before, workload, message.subject) ==> after.answered == before.answered,
        awaits(before, workload, message.subject) ==> ({
            let reply = after.answered[before.answered.len() as int];
            &&& after.answered.len() == before.answered.len() + 1
            &&& forall|i: int|
                0 <= i < before.answered.len() ==> #[trigger] after.answered[i]
                    == before.answered[i]
            &&& reply.id == data_of(before, workload)->0.pending[message.subject].id
            &&& reply.instance == data_of(before, workload)->0.instance
            &&& reply.reply.message.subject == message.subject
            &&& reply.reply.message.reply_to == message.reply_to
            &&& reply.reply.message.body == message.body
            &&& reply.reply.propagation == message.trace_context
        }),
{
}

/// A look at a request shows its reply where there is one, and takes it out. Else, while it waits,
/// it shows the oldest answer of a responder, on the inbox of the request, and the request waits no
/// longer; without an answer it shows that the request waits, and changes nothing. Where it does
/// not wait, it shows that no reply will come.
pub proof fn law_looks_show_what_is_there(
    broker: BrokerView,
    workload: Seq<char>,
    inbox: Seq<char>,
    id: u64,
)
    requires
        numbered(broker),
    ensures
        ({
            let (outcome, after) = look(broker, workload, inbox, id);
            let waiting = awaits(broker, workload, inbox) && data_of(
                broker,
                workload,
            )->0.pending[inbox].id == id;
            let answers = data_of(broker, workload)->0.pending[inbox].replies;
            let none = no_reply(broker.answered, id);
            &&& none && !waiting ==> outcome == Outcome::Failed(MessagingError::Closed) && after
                == broker
            &&& none && waiting && answers.len() == 0 ==> outcome is Waiting && after == broker
            &&& none && waiting && answers.len() > 0 ==> (outcome matches Outcome::Replied(reply)
                && reply.subject == inbox && reply.reply_to == answers[0].reply_to && reply.body
                == answers[0].body && reply.trace_context == answers[0].trace_context) && !awaits(
                after,
                workload,
                inbox,
            ) && after.answered == broker.answered && components_of(after, workload)
                == components_of(broker, workload)
            &&& !none ==> outcome is Replied && after.answered.len() == broker.answered.len() - 1
                && after.workloads == broker.workloads && after.listeners == broker.listeners
        }),
{
    lemma_answer_place(broker.answered, id);
}

/// A responder's answer to a request that waits is kept behind those before it; one to a request
/// whose reply is there is dropped; and any other finds the request closed. Nothing else changes.
pub proof fn law_answers_are_kept_for_their_request(
    broker: BrokerView,
    ticket: RequestTicketView,
    message: HostMessageView,
    other: Seq<char>,
)
    requires
        other != ticket.inbox,
    ensures
        ({
            let (result, after) = answering(broker, ticket, message);
            let waiting = awaits(broker, ticket.workload, ticket.inbox) && data_of(
                broker,
                ticket.workload,
            )->0.pending[ticket.inbox].id == ticket.id;
            let was = data_of(broker, ticket.workload)->0;
            let is = data_of(after, ticket.workload)->0;
            &&& waiting ==> result is Ok && data_of(after, ticket.workload) is Some
                && is.pending.contains_key(ticket.inbox) && is.pending[ticket.inbox].id == ticket.id
                && is.pending[ticket.inbox].replies == was.pending[ticket.inbox].replies + seq![
                message,
            ]
            &&& waiting ==> is.pending.contains_key(other) == was.pending.contains_key(other) && (
            was.pending.contains_key(other) ==> is.pending[other] == was.pending[other])
                && is.running == was.running && is.tombstones == was.tombstones && is.lifecycle
                == was.lifecycle && components_of(after, ticket.workload) == components_of(
                broker,
                ticket.workload,
            )
            &&& !waiting ==> after == broker
            &&& !waiting && no_reply(broker.answered, ticket.id) ==> result == Err::<
                (),
                MessagingError,
            >(MessagingError::Closed)
            &&& !waiting && !no_reply(broker.answered, ticket.id) ==> result is Ok
            &&& after.answered == broker.answered
            &&& after.listeners == broker.listeners
            &&& after.next == broker.next
        }),
{
    lemma_answer_place(broker.answered, ticket.id);
    if awaits(broker, ticket.workload, ticket.inbox) {
        let replies = data_of(broker, ticket.workload)->0.pending[ticket.inbox].replies;
        assert(replies.push(message) =~= replies + seq![message]);
    }
}

/// A request that is given up while it waits waits no longer, and that is all that changes; where it
/// does not wait and no reply to it is there, nothing changes.
pub proof fn law_requests_given_up_wait_no_longer(
    broker: BrokerView,
    workload: Seq<char>,
    inbox: Seq<char>,
    id: u64,
    other: Seq<char>,
)
    requires
        no_reply(broker.answered, id),
        other != inbox,
    ensures
        ({
            let after = given_up(broker, workload, inbox, id);
            let waiting = awaits(broker, workload, inbox) && data_of(
                broker,
                workload,
            )->0.pending[inbox].id == id;
            &&& waiting ==> !awaits(after, workload, inbox)
            &&& waiting ==> awaits(after, workload, other) == awaits(broker, workload, other) && (
            awaits(broker, workload, other) ==> data_of(after, workload)->0.pending[other]
                == data_of(broker, workload)->0.pending[other])
            &&& waiting ==> data_of(after, workload)->0.tombstones == data_of(
                broker,
                workload,
            )->0.tombstones && data_of(after, workload)->0.running == data_of(
                broker,
                workload,
            )->0.running && data_of(after, workload)->0.lifecycle == data_of(
                broker,
                workload,
            )->0.lifecycle
            &&& !waiting ==> after == broker
            &&& components_of(after, workload) == components_of(broker, workload)
            &&& after.answered == broker.answered
            &&& after.listeners == broker.listeners
        }),
{
    lemma_answer_place(broker.answered, id);
}

/// A message that was handled is one less that is being handled in its workload, where the workload
/// is still the one that it came through; nothing else changes.
pub proof fn law_handled_messages_are_counted(
    broker: BrokerView,
    workload: Seq<char>,
    instance: u64,
)
    ensures
        ({
            let after = handled(broker, workload, instance);
            let counts = data_of(broker, workload) matches Some(data) && data.instance == instance
                && data.running > 0;
            &&& counts ==> data_of(after, workload) == Some(
                WorkloadView {
                    running: (data_of(broker, workload)->0.running - 1) as u64,
                    ..data_of(broker, workload)->0
                },
            ) && components_of(after, workload) == components_of(broker, workload)
            &&& !counts ==> after == broker
            &&& after.components == broker.components
            &&& after.listeners == broker.listeners
            &&& after.answered == broker.answered
            &&& after.next == broker.next
        }),
{
}

/// A message that a component fetches is one more that is being handled in its workload, and leaves
/// the component's inbox; nothing else changes.
pub proof fn law_fetched_messages_are_counted(
    broker: BrokerView,
    component: Seq<char>,
    other: Seq<char>,
)
    requires
        has_component(broker, component),
        component_of(broker, component).inbox.items.len() > 0,
        data_of(broker, broker.components[component]) is Some,
        data_of(broker, broker.components[component])->0.running < u64::MAX,
        other != component,
    ensures
        ({
            let workload = broker.components[component];
            let after = message_taken(broker, component);
            let was = component_of(broker, component);
            &&& data_of(after, workload) == Some(
                WorkloadView {
                    running: (data_of(broker, workload)->0.running + 1) as u64,
                    ..data_of(broker, workload)->0
                },
            )
            &&& component_of(after, component) == (ComponentView {
                inbox: QueueView { items: was.inbox.items.skip(1), ..was.inbox },
                ..was
            })
            &&& components_of(after, workload).contains_key(other) == components_of(
                broker,
                workload,
            ).contains_key(other)
            &&& components_of(broker, workload).contains_key(other) ==> components_of(
                after,
                workload,
            )[other] == components_of(broker, workload)[other]
            &&& after.components == broker.components
            &&& after.listeners == broker.listeners
            &&& after.answered == broker.answered
            &&& after.next == broker.next
        }),
{
    let items = component_of(broker, component).inbox.items;
    assert(items.drop_first() =~= items.skip(1));
}

/// A workload that leaves takes its own components along, and no other.
pub proof fn law_other_components_stay(
    broker: BrokerView,
    workload: Seq<char>,
    component: Seq<char>,
)
    requires
        has_component(broker, component),
        broker.components[component] != workload,
        !components_of(broker, workload).contains_key(component),
    ensures
        has_component(unbound(broker, workload), component),
        component_of(unbound(broker, workload), component) == component_of(broker, component),
        unbound(broker, workload).components[component] == broker.components[component],
{
}

/// A broker that serves no workloads holds nothing and begins to count from zero.
pub proof fn law_brokers_begin_empty(workload: Seq<char>, component: Seq<char>)
    ensures
        data_of(empty_broker(), workload) is None,
        components_of(empty_broker(), workload) == Map::<Seq<char>, ComponentView>::empty(),
        !has_component(empty_broker(), component),
        admission(empty_broker(), workload) == Err::<WorkloadView, MessagingError>(
            MessagingError::NotBound,
        ),
        empty_broker().listeners.len() == 0,
        empty_broker().answered.len() == 0,
        empty_broker().next == 0,
{
}

/// A workload asks for messaging exactly where one of its interfaces is of the package
/// `wasmcloud:messaging`.
pub proof fn law_messaging_is_asked_for_by_package(interfaces: Seq<WitInterface>)
    ensures
        asks_for_messaging(interfaces) == exists|i: int|
            0 <= i < interfaces.len() && (#[trigger] interfaces[i])@.namespace == "wasmcloud"@
                && interfaces[i]@.package == "messaging"@,
{
    assert forall|i: int| 0 <= i < interfaces.len() implies of_package(
        (#[trigger] interfaces[i])@,
        "wasmcloud"@,
        "messaging"@,
    ) == (interfaces[i]@.namespace == "wasmcloud"@ && interfaces[i]@.package == "messaging"@) by {}
}

/// What an observer receives is the message that was put to it, with what was done with it and by
/// whom; what a responder receives is the request, with the ticket to answer it with.
pub proof fn law_listeners_receive_what_was_put_to_them(
    observed: Received<ObservedMessage>,
    requested: Received<ResponderRequest>,
    from: Taken,
)
    requires
        observation(observed, from),
        request_received(requested, from),
    ensures
        from matches Taken::Item(envelope) ==> {
            &&& observed matches Received::Item(seen)
            &&& seen.operation == envelope.operation
            &&& seen.origin == envelope.origin
            &&& seen.message@ == envelope.message@
            &&& requested matches Received::Item(request)
            &&& request.message@ == envelope.message@
            &&& request.reply is Some == envelope.reply is Some
            &&& envelope.reply matches Some(ticket) ==> request.reply->0@ == ticket@
        },
        from is Empty ==> observed is Pending && requested is Pending,
        from is Ended ==> observed is Ended && requested is Ended,
{
}

/// The number of a request is that of its ticket, and what a look at it shows is what came of it.
pub proof fn law_requests_are_known_by_their_tickets(
    ticket: RequestTicket,
    error: MessagingError,
    message: HostMessage,
)
    ensures
        request_number(Ok(ticket)) == Ok::<u64, MessagingError>(ticket.id),
        request_number(Err(error)) == Err::<u64, MessagingError>(error),
        poll_outcome(RequestPoll::Waiting) is Waiting,
        poll_outcome(RequestPoll::Done(Ok(message))) == Outcome::Replied(message@),
        poll_outcome(RequestPoll::Done(Err(error))) == Outcome::Failed(error),
{
}

/// The inbox of a component is made for ten thousand messages, and a state is told by its number:
/// 0 reserved, 1 bound, 2 closing, 3 closed.
pub proof fn law_inboxes_and_states_have_their_numbers(lifecycle: Lifecycle)
    ensures
        MAX_QUEUE_SIZE == 10_000,
        lifecycle_number(Lifecycle::Reserved) == 0,
        lifecycle_number(Lifecycle::Bound) == 1,
        lifecycle_number(Lifecycle::Closing) == 2,
        lifecycle_number(Lifecycle::Closed) == 3,
        ServiceError::WrongState(lifecycle).words() == "workload cannot be bound from lifecycle state "@
            + decimal(lifecycle_number(lifecycle)),
{
}

/// A listener that is not there cannot leave, and has nothing to receive.
pub proof fn law_absent_listeners_change_nothing(
    before: BrokerView,
    after: BrokerView,
    id: u64,
    out: Taken,
)
    requires
        forall|i: int| 0 <= i < before.listeners.len() ==> (#[trigger] before.listeners[i]).id != id,
    ensures
        listener_removed(before, id) == before,
        listener_poll(before, after, id, out) ==> after == before && out is Ended,
{
    lemma_listener_is_absent(before.listeners, id);
}

/// A number that no listener has is found nowhere.
proof fn lemma_listener_is_absent(listeners: Seq<ListenerView>, id: u64)
    requires
        forall|i: int| 0 <= i < listeners.len() ==> (#[trigger] listeners[i]).id != id,
    ensures
        listener_place(listeners, id) == listeners.len(),
    decreases listeners.len(),
{
    if listeners.len() > 0 {
        let rest = listeners.drop_first();
        assert(listeners[0].id != id);
        assert forall|i: int| 0 <= i < rest.len() implies (#[trigger] rest[i]).id != id by {
            assert(rest[i] == listeners[i + 1]);
        }
        lemma_listener_is_absent(rest, id);
    }
}

/// A component is served exactly where the index knows its workload and that workload has it.
pub proof fn law_components_stand_in_their_workload(broker: BrokerView, component: Seq<char>)
    ensures
        has_component(broker, component) <==> exists|workload: Seq<char>|
            {
                &&& broker.components.contains_key(component)
                &&& broker.components[component] == workload
                &&& broker.workloads.contains_key(workload)
                &&& #[trigger] broker.workloads[workload].components.contains_key(component)
            },
        has_component(broker, component) ==> component_of(broker, component)
            == broker.workloads[broker.components[component]].components[component],
{
}

} // verus!
