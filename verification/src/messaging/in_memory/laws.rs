//! What holds of the in-process broker as a whole.
use vstd::prelude::*;

use crate::messaging::in_memory::model::admission;
use crate::messaging::in_memory::model::all_take;
use crate::messaging::in_memory::model::binding;
use crate::messaging::in_memory::model::closing;
use crate::messaging::in_memory::model::component_of;
use crate::messaging::in_memory::model::components_of;
use crate::messaging::in_memory::model::data_of;
use crate::messaging::in_memory::model::given_up;
use crate::messaging::in_memory::model::has_component;
use crate::messaging::in_memory::model::heard;
use crate::messaging::in_memory::model::idle;
use crate::messaging::in_memory::model::is_reply;
use crate::messaging::in_memory::model::listens;
use crate::messaging::in_memory::model::publishing;
use crate::messaging::in_memory::model::refusal;
use crate::messaging::in_memory::model::replying_to;
use crate::messaging::in_memory::model::requesting;
use crate::messaging::in_memory::model::started;
use crate::messaging::in_memory::model::unbound;
use crate::messaging::in_memory::model::waits;
use crate::messaging::in_memory::model::BrokerView;
use crate::messaging::in_memory::model::Lifecycle;
use crate::messaging::in_memory::model::PendingView;
use crate::messaging::in_memory::model::WorkloadView;
use crate::messaging::in_memory::runs::can_fetch;
use crate::messaging::in_memory::runs::lemma_answer_place;
use crate::messaging::in_memory::runs::numbered;
use crate::messaging::in_memory::runs::run;
use crate::messaging::in_memory::runs::step_taken;
use crate::messaging::in_memory::runs::Step;
use crate::messaging::message::HostMessageView;
use crate::messaging::message::MessageOrigin;
use crate::messaging::message::MessagingError;
use crate::messaging::message::ObservedOperation;
use crate::messaging::queue::offer_outcome;
use crate::messaging::queue::EnvelopeView;
use crate::messaging::queue::Offer;
use crate::messaging::subject::subscribed;

verus! {

/// Whether two states of the broker agree on everything outside the workload: on the other
/// workloads with their components, and on the listeners of the other workloads.
pub open spec fn same_elsewhere(
    before: BrokerView,
    after: BrokerView,
    workload: Seq<char>,
) -> bool {
    &&& after.components == before.components
    &&& forall|other: Seq<char>|
        other != workload ==> (#[trigger] after.workloads.contains_key(other)
            == before.workloads.contains_key(other)) && (before.workloads.contains_key(other)
            ==> after.workloads[other] == before.workloads[other])
    &&& after.listeners.len() == before.listeners.len()
    &&& forall|i: int|
        0 <= i < before.listeners.len() && before.listeners[i].workload != workload
            ==> #[trigger] after.listeners[i] == before.listeners[i]
}

/// A message that is published in a workload stays there: nothing changes in any other workload,
/// whoever sent the message and whether or not it was taken.
pub proof fn law_published_messages_stay_in_their_workload(
    before: BrokerView,
    after: BrokerView,
    workload: Seq<char>,
    message: HostMessageView,
    origin: MessageOrigin,
    result: Result<(), MessagingError>,
)
    requires
        publishing(before, after, workload, message, origin, result),
    ensures
        same_elsewhere(before, after, workload),
{
}

/// A request in a workload stays there too.
pub proof fn law_requests_stay_in_their_workload(
    before: BrokerView,
    after: BrokerView,
    workload: Seq<char>,
    message: HostMessageView,
    origin: MessageOrigin,
    inbox: Seq<char>,
    result: Result<u64, MessagingError>,
)
    requires
        requesting(before, after, workload, message, origin, inbox, result),
    ensures
        same_elsewhere(before, after, workload),
{
}

/// A message that is no reply comes to every component of its workload that subscribed to its
/// subject, or, where one of these has no room, to none of them; to no other component it comes
/// in either case.
pub proof fn law_routing_is_all_or_nothing(
    before: BrokerView,
    after: BrokerView,
    workload: Seq<char>,
    message: HostMessageView,
    origin: MessageOrigin,
    result: Result<(), MessagingError>,
    component: Seq<char>,
)
    requires
        publishing(before, after, workload, message, origin, result),
        admission(before, workload) matches Ok(data) && !is_reply(data, message.subject),
        components_of(before, workload).contains_key(component),
    ensures
        components_of(after, workload).contains_key(component),
        ({
            let was = components_of(before, workload)[component];
            let is = components_of(after, workload)[component];
            if result is Ok && subscribed(was.subscriptions, message.subject) {
                &&& is.inbox.items == was.inbox.items.push(
                    EnvelopeView {
                        message,
                        operation: ObservedOperation::Publish,
                        origin,
                        reply: None,
                    },
                )
                &&& is.inbox.items.last().message == message
            } else {
                is == was
            }
        }),
{
    let components = components_of(before, workload);
    if result is Ok {
        assert(components_of(heard(before, workload, ObservedOperation::Publish, message, origin), workload)
            == components);
    }
}

/// Whether a message that is no reply is taken is for the components of the workload alone to
/// say: listeners, however full, neither hold it up nor fail it.
pub proof fn law_listeners_do_not_decide(
    before: BrokerView,
    after: BrokerView,
    workload: Seq<char>,
    message: HostMessageView,
    origin: MessageOrigin,
    result: Result<(), MessagingError>,
)
    requires
        publishing(before, after, workload, message, origin, result),
        admission(before, workload) is Ok,
    ensures
        result is Ok == (is_reply(admission(before, workload)->Ok_0, message.subject) || all_take(
            components_of(before, workload),
            message.subject,
        )),
{
    let components = components_of(before, workload);
    let known = heard(before, workload, ObservedOperation::Publish, message, origin);
    assert(components_of(known, workload) == components);
    if !is_reply(admission(before, workload)->Ok_0, message.subject) && result is Err {
        let id = choose|id: Seq<char>| #[trigger]
            components.contains_key(id) && subscribed(components[id].subscriptions, message.subject)
                && refusal(offer_outcome(components[id].inbox)) == Some(result->Err_0);
        assert(offer_outcome(components[id].inbox) != Offer::Taken);
    }
}

/// What the host injects is not observed: no listener hears of it, whether it is published or
/// requested.
pub proof fn law_host_messages_are_not_observed(
    before: BrokerView,
    published: BrokerView,
    requested: BrokerView,
    workload: Seq<char>,
    message: HostMessageView,
    inbox: Seq<char>,
    result: Result<(), MessagingError>,
    number: Result<u64, MessagingError>,
)
    requires
        publishing(before, published, workload, message, MessageOrigin::HostInjected, result),
        requesting(
            before,
            requested,
            workload,
            message,
            MessageOrigin::HostInjected,
            inbox,
            number,
        ),
    ensures
        published.listeners == before.listeners,
        requested.listeners == before.listeners,
{
}

/// What a guest publishes is observed: each observer of its workload that is still open and has
/// room gets it last, as a reply where a request waits or waited on its subject, even if no
/// component takes it.
pub proof fn law_guest_messages_are_observed(
    before: BrokerView,
    after: BrokerView,
    workload: Seq<char>,
    message: HostMessageView,
    result: Result<(), MessagingError>,
    observer: int,
)
    requires
        publishing(before, after, workload, message, MessageOrigin::Guest, result),
        admission(before, workload) is Ok,
        0 <= observer < before.listeners.len(),
        listens(before.listeners[observer], workload, true, message.subject),
        offer_outcome(before.listeners[observer].queue) == Offer::Taken,
    ensures
        after.listeners[observer].queue.items == before.listeners[observer].queue.items.push(
            EnvelopeView {
                message,
                operation: if is_reply(admission(before, workload)->Ok_0, message.subject) {
                    ObservedOperation::Reply
                } else {
                    ObservedOperation::Publish
                },
                origin: MessageOrigin::Guest,
                reply: None,
            },
        ),
{
}

/// What a guest requests is observed too: each observer of its workload that is still open and has
/// room gets the request last, with the inbox for its reply, even if a component refuses it.
pub proof fn law_guest_requests_are_observed(
    before: BrokerView,
    after: BrokerView,
    workload: Seq<char>,
    message: HostMessageView,
    inbox: Seq<char>,
    result: Result<u64, MessagingError>,
    observer: int,
)
    requires
        requesting(before, after, workload, message, MessageOrigin::Guest, inbox, result),
        admission(before, workload) is Ok,
        0 <= observer < before.listeners.len(),
        listens(before.listeners[observer], workload, true, message.subject),
        offer_outcome(before.listeners[observer].queue) == Offer::Taken,
    ensures
        after.listeners[observer].queue.items == before.listeners[observer].queue.items.push(
            EnvelopeView {
                message: replying_to(message, inbox),
                operation: ObservedOperation::Request,
                origin: MessageOrigin::Guest,
                reply: None,
            },
        ),
{
}

/// A request that nobody could take and that ran out of time leaves an idle workload idle.
pub proof fn law_timed_out_requests_leave_no_work(
    before: BrokerView,
    waiting: BrokerView,
    workload: Seq<char>,
    message: HostMessageView,
    origin: MessageOrigin,
    inbox: Seq<char>,
    id: u64,
)
    requires
        admission(before, workload) is Ok,
        idle(before, workload, admission(before, workload)->Ok_0),
        forall|component: Seq<char>| #[trigger]
            components_of(before, workload).contains_key(component) ==> !subscribed(
                components_of(before, workload)[component].subscriptions,
                message.subject,
            ),
        requesting(before, waiting, workload, message, origin, inbox, Ok(id)),
        numbered(before),
    ensures
        ({
            let over = given_up(waiting, workload, inbox, id);
            &&& admission(over, workload) is Ok
            &&& idle(over, workload, admission(over, workload)->Ok_0)
        }),
{
    lemma_answer_place(waiting.answered, id);
    let over = given_up(waiting, workload, inbox, id);
    let data = admission(before, workload)->Ok_0;
    assert(waiting.answered == before.answered);
    assert(admission(over, workload)->Ok_0.pending =~= Map::<Seq<char>, PendingView>::empty());
    assert forall|component: Seq<char>| #[trigger]
        components_of(over, workload).contains_key(component) implies components_of(
        over,
        workload,
    )[component].inbox.items.len() == 0 by {
        assert(components_of(before, workload).contains_key(component));
    }
}

/// An idle workload has nothing left to do: no component of it has a message to fetch.
pub proof fn law_idle_workloads_have_nothing_to_fetch(
    broker: BrokerView,
    workload: Seq<char>,
    component: Seq<char>,
)
    requires
        admission(broker, workload) is Ok,
        idle(broker, workload, admission(broker, workload)->Ok_0),
        has_component(broker, component),
        broker.components[component] == workload,
    ensures
        component_of(broker, component).inbox.items.len() == 0,
        forall|inbox: Seq<char>, id: u64| !waits(broker, workload, inbox, id),
{
    assert(components_of(broker, workload).contains_key(component));
}

/// Whether a step fetches a message for a component of the workload.
pub open spec fn fetches_for(broker: BrokerView, step: Step, workload: Seq<char>) -> bool {
    step matches Step::Fetch { component } && can_fetch(broker, component)
        && broker.components[component] == workload
}

/// Whether a step says that a message of this instance of the workload was handled.
pub open spec fn finishes(step: Step, workload: Seq<char>, instance: u64) -> bool {
    step == (Step::Finish { workload, instance })
}

/// How many messages of a workload are being handled.
pub open spec fn running(broker: BrokerView, workload: Seq<char>) -> int {
    data_of(broker, workload)->0.running as int
}

/// A workload in which a message is being handled is not idle, and as many are being handled as
/// before, whatever goes on, one more where one is fetched, and one less only where one of this
/// very workload was handled, until the workload leaves.
pub proof fn law_work_is_counted(
    before: BrokerView,
    step: Step,
    after: BrokerView,
    workload: Seq<char>,
)
    requires
        step_taken(before, step, after),
        data_of(before, workload) is Some,
        step != (Step::Unbind { workload }),
    ensures
        ({
            let instance = data_of(before, workload)->0.instance;
            &&& data_of(after, workload) is Some
            &&& data_of(after, workload)->0.instance == instance
            &&& running(before, workload) > 0 ==> !idle(
                before,
                workload,
                data_of(before, workload)->0,
            )
            &&& running(after, workload) == (if fetches_for(before, step, workload) {
                running(before, workload) + 1
            } else if finishes(step, workload, instance) && running(before, workload) > 0 {
                running(before, workload) - 1
            } else {
                running(before, workload)
            })
        }),
{
}

/// How many messages of a workload are fetched in the first steps of a run.
pub open spec fn fetched(
    states: Seq<BrokerView>,
    steps: Seq<Step>,
    workload: Seq<char>,
    to: int,
) -> nat
    decreases to,
{
    if to <= 0 {
        0
    } else {
        fetched(states, steps, workload, to - 1) + if fetches_for(
            states[to - 1],
            steps[to - 1],
            workload,
        ) {
            1nat
        } else {
            0nat
        }
    }
}

/// How many messages of this instance of a workload are handled in the first steps of a run.
pub open spec fn finished(steps: Seq<Step>, workload: Seq<char>, instance: u64, to: int) -> nat
    decreases to,
{
    if to <= 0 {
        0
    } else {
        finished(steps, workload, instance, to - 1) + if finishes(
            steps[to - 1],
            workload,
            instance,
        ) {
            1nat
        } else {
            0nat
        }
    }
}

/// A message is work from when it is fetched until it is handled, whatever goes on in between: as
/// long as fewer messages of a workload were handled than were being handled before or fetched
/// since, the workload is not idle.
pub proof fn law_messages_are_work_until_handled(
    states: Seq<BrokerView>,
    steps: Seq<Step>,
    workload: Seq<char>,
    instance: u64,
    at: int,
)
    requires
        run(states, steps),
        0 <= at < states.len(),
        data_of(states[0], workload) matches Some(data) && data.instance == instance,
        forall|i: int| 0 <= i < at ==> #[trigger] steps[i] != (Step::Unbind { workload }),
    ensures
        data_of(states[at], workload) matches Some(data) && data.instance == instance,
        running(states[at], workload) + finished(steps, workload, instance, at) >= running(
            states[0],
            workload,
        ) + fetched(states, steps, workload, at),
        finished(steps, workload, instance, at) < running(states[0], workload) + fetched(
            states,
            steps,
            workload,
            at,
        ) ==> !idle(states[at], workload, data_of(states[at], workload)->0),
    decreases at,
{
    if at > 0 {
        law_messages_are_work_until_handled(states, steps, workload, instance, at - 1);
        let step = steps[at - 1];
        law_work_is_counted(states[at - 1], step, states[at], workload);
    }
}

/// A reserved workload cannot send before it is bound, cannot be reserved again, and is bound
/// once: whoever binds it a second time is told that it is bound.
pub proof fn law_reserved_workloads_are_bound_once(broker: BrokerView, workload: Seq<char>)
    requires
        !broker.workloads.contains_key(workload),
    ensures
        ({
            let reserved = started(broker, workload, Lifecycle::Reserved);
            let (first, bound) = binding(reserved, workload);
            let (second, still) = binding(bound, workload);
            &&& reserved.workloads.contains_key(workload)
            &&& admission(reserved, workload) == Err::<WorkloadView, MessagingError>(
                MessagingError::NotBound,
            )
            &&& first is Ok
            &&& admission(bound, workload) is Ok
            &&& second == Err::<(), Lifecycle>(Lifecycle::Bound)
            &&& still == bound
        }),
{
}

/// A closed workload is closed to everything: it takes no message, request or listener, no
/// request in it still waits, what its listeners have not received yet is all that they will
/// receive, and closing it again changes none of this.
pub proof fn law_closed_workloads_refuse(broker: BrokerView, workload: Seq<char>, listener: int)
    requires
        data_of(broker, workload) matches Some(data) && data.lifecycle != Lifecycle::Closed,
        0 <= listener < broker.listeners.len(),
    ensures
        ({
            let (result, closed) = closing(broker, workload);
            let (again, twice) = closing(closed, workload);
            &&& result is Ok
            &&& again is Ok
            &&& admission(closed, workload) == Err::<WorkloadView, MessagingError>(
                MessagingError::Closed,
            )
            &&& admission(twice, workload) == Err::<WorkloadView, MessagingError>(
                MessagingError::Closed,
            )
            &&& forall|inbox: Seq<char>, id: u64| !waits(closed, workload, inbox, id)
            &&& broker.listeners[listener].workload == workload
                ==> closed.listeners[listener].ended && closed.listeners[listener].queue
                == broker.listeners[listener].queue
            &&& broker.listeners[listener].workload != workload ==> closed.listeners[listener]
                == broker.listeners[listener]
            &&& twice.listeners == closed.listeners
        }),
{
}

/// A workload that left is as if it had never been: it cannot send, none of its components has a
/// message to fetch, and its id can be reserved anew.
pub proof fn law_unbound_workloads_are_gone(
    broker: BrokerView,
    workload: Seq<char>,
    component: Seq<char>,
)
    requires
        components_of(broker, workload).contains_key(component),
    ensures
        ({
            let after = unbound(broker, workload);
            &&& !after.workloads.contains_key(workload)
            &&& admission(after, workload) == Err::<WorkloadView, MessagingError>(
                MessagingError::NotBound,
            )
            &&& !has_component(after, component)
            &&& closing(after, workload).0 == Err::<(), MessagingError>(MessagingError::Closed)
        }),
{
}

/// A workload changes its state only where it is bound or closed, and is the same one until it
/// leaves, whatever goes on: a reserved one stays reserved until it is bound or closed, a bound one
/// stays bound until it is closed, and one that is closing or closed never sends again.
pub proof fn law_workloads_change_by_binding_and_closing(
    before: BrokerView,
    step: Step,
    after: BrokerView,
    workload: Seq<char>,
)
    requires
        step_taken(before, step, after),
        data_of(before, workload) is Some,
        step != (Step::Unbind { workload }),
    ensures
        data_of(after, workload) is Some,
        data_of(after, workload)->0.instance == data_of(before, workload)->0.instance,
        data_of(after, workload)->0.lifecycle == (match data_of(before, workload)->0.lifecycle {
            Lifecycle::Reserved => if step == (Step::Bind { workload }) {
                Lifecycle::Bound
            } else if step == (Step::Close { workload }) {
                Lifecycle::Closed
            } else {
                Lifecycle::Reserved
            },
            Lifecycle::Bound => if step == (Step::Close { workload }) {
                Lifecycle::Closed
            } else {
                Lifecycle::Bound
            },
            Lifecycle::Closed => if step == (Step::Close { workload }) {
                Lifecycle::Closing
            } else {
                Lifecycle::Closed
            },
            Lifecycle::Closing => if step == (Step::Close { workload }) {
                Lifecycle::Closed
            } else {
                Lifecycle::Closing
            },
        }),
{
}

/// A workload in which no request waits and that is not bound gets none, whatever goes on, until it
/// is bound or leaves.
pub proof fn law_requests_wait_in_bound_workloads(
    before: BrokerView,
    step: Step,
    after: BrokerView,
    workload: Seq<char>,
)
    requires
        step_taken(before, step, after),
        data_of(before, workload) is Some,
        step != (Step::Unbind { workload }),
        admission(before, workload) is Err ==> data_of(before, workload)->0.pending == Map::<
            Seq<char>,
            PendingView,
        >::empty(),
    ensures
        admission(after, workload) is Err ==> data_of(after, workload)->0.pending == Map::<
            Seq<char>,
            PendingView,
        >::empty(),
{
}

/// Whether a step is about the workload, or about a component of it.
pub open spec fn concerns(broker: BrokerView, step: Step, workload: Seq<char>) -> bool {
    match step {
        Step::Publish { workload: w, .. } => w == workload,
        Step::Request { workload: w, .. } => w == workload,
        Step::Look { workload: w, .. } => w == workload,
        Step::GiveUp { workload: w, .. } => w == workload,
        Step::Answer { ticket, .. } => ticket.workload == workload,
        Step::Reserve { workload: w } => w == workload,
        Step::Bind { workload: w } => w == workload,
        Step::Close { workload: w } => w == workload,
        Step::Unbind { workload: w } => w == workload,
        Step::AddComponent { workload: w, .. } => w == workload,
        Step::StartComponent { component } => broker.components.contains_key(component)
            && broker.components[component] == workload,
        Step::Fetch { component } => broker.components.contains_key(component)
            && broker.components[component] == workload,
        Step::Finish { workload: w, .. } => w == workload,
        Step::Abandon { component } => broker.components.contains_key(component)
            && broker.components[component] == workload,
        Step::Listen { workload: w, .. } => w == workload,
        Step::Receive { .. } => false,
        Step::Leave { .. } => false,
    }
}

/// Workloads are apart: whatever is done to or in others makes no difference to a workload and to
/// its components.
pub proof fn law_workloads_are_apart(
    before: BrokerView,
    step: Step,
    after: BrokerView,
    workload: Seq<char>,
)
    requires
        step_taken(before, step, after),
        !concerns(before, step, workload),
    ensures
        after.workloads.contains_key(workload) == before.workloads.contains_key(workload),
        before.workloads.contains_key(workload) ==> after.workloads[workload]
            == before.workloads[workload],
{
}

/// Messages wait in the inbox of a component in the order in which they came, whatever goes on:
/// only fetching takes one out, at the front, and a new one comes in behind the others, unless the
/// component gives its inbox up, comes anew or leaves. Its subscriptions stay as they are.
pub proof fn law_inboxes_keep_their_order(
    before: BrokerView,
    step: Step,
    after: BrokerView,
    workload: Seq<char>,
    component: Seq<char>,
)
    requires
        step_taken(before, step, after),
        components_of(before, workload).contains_key(component),
        before.components.contains_key(component),
        before.components[component] == workload,
        step != (Step::Unbind { workload }),
        step != (Step::Abandon { component }),
        !(step matches Step::AddComponent { workload: w, component: c, .. } && w == workload && c
            == component),
    ensures
        components_of(after, workload).contains_key(component),
        components_of(after, workload)[component].subscriptions == components_of(
            before,
            workload,
        )[component].subscriptions,
        ({
            let was = components_of(before, workload)[component].inbox.items;
            let is = components_of(after, workload)[component].inbox.items;
            if step == (Step::Fetch { component }) && can_fetch(before, component) {
                is == was.drop_first()
            } else {
                is == was || (is.len() == was.len() + 1 && is.drop_last() == was)
            }
        }),
{
    let was = components_of(before, workload)[component].inbox.items;
    let is = components_of(after, workload)[component].inbox.items;
    match step {
        Step::Publish { .. } => {
            if is.len() > was.len() {
                assert(is.drop_last() =~= was);
            }
        },
        Step::Request { .. } => {
            if is.len() > was.len() {
                assert(is.drop_last() =~= was);
            }
        },
        _ => {},
    }
}

} // verus!
