//! What goes on in the in-process broker: any of its operations, one after another.
use vstd::prelude::*;

use crate::messaging::in_memory::broker::fetching;
use crate::messaging::in_memory::broker::NextMessage;
use crate::messaging::in_memory::model::abandoned;
use crate::messaging::in_memory::model::admission;
use crate::messaging::in_memory::model::answer_place;
use crate::messaging::in_memory::model::answer_removed;
use crate::messaging::in_memory::model::answering;
use crate::messaging::in_memory::model::binding;
use crate::messaging::in_memory::model::closing;
use crate::messaging::in_memory::model::component_added;
use crate::messaging::in_memory::model::component_of;
use crate::messaging::in_memory::model::data_of;
use crate::messaging::in_memory::model::empty_broker;
use crate::messaging::in_memory::model::given_up;
use crate::messaging::in_memory::model::handled;
use crate::messaging::in_memory::model::has_component;
use crate::messaging::in_memory::model::is_reply;
use crate::messaging::in_memory::model::listener_place;
use crate::messaging::in_memory::model::listener_poll;
use crate::messaging::in_memory::model::listener_removed;
use crate::messaging::in_memory::model::listener_taken;
use crate::messaging::in_memory::model::listening;
use crate::messaging::in_memory::model::look;
use crate::messaging::in_memory::model::message_taken;
use crate::messaging::in_memory::model::publishing;
use crate::messaging::in_memory::model::requesting;
use crate::messaging::in_memory::model::started;
use crate::messaging::in_memory::model::unbound;
use crate::messaging::in_memory::model::with_component;
use crate::messaging::in_memory::model::AnsweredView;
use crate::messaging::in_memory::model::BrokerView;
use crate::messaging::in_memory::model::ComponentView;
use crate::messaging::in_memory::model::Lifecycle;
use crate::messaging::message::HostMessageView;
use crate::messaging::message::MessageOrigin;
use crate::messaging::message::MessagingError;
use crate::messaging::queue::RequestTicketView;
use crate::messaging::queue::Taken;

verus! {

/// An operation of the broker, with what it was given and, where that decides what it does, what
/// it gave back.
pub enum Step {
    Publish {
        workload: Seq<char>,
        message: HostMessageView,
        origin: MessageOrigin,
        result: Result<(), MessagingError>,
    },
    Request {
        workload: Seq<char>,
        message: HostMessageView,
        origin: MessageOrigin,
        inbox: Seq<char>,
        number: Result<u64, MessagingError>,
    },
    Look { workload: Seq<char>, inbox: Seq<char>, id: u64 },
    GiveUp { workload: Seq<char>, inbox: Seq<char>, id: u64 },
    Answer { ticket: RequestTicketView, message: HostMessageView },
    Reserve { workload: Seq<char> },
    Bind { workload: Seq<char> },
    Close { workload: Seq<char> },
    Unbind { workload: Seq<char> },
    AddComponent {
        workload: Seq<char>,
        component: Seq<char>,
        subscriptions: Seq<Seq<char>>,
        bound: nat,
    },
    StartComponent { component: Seq<char> },
    Fetch { component: Seq<char> },
    Finish { workload: Seq<char>, instance: u64 },
    Abandon { component: Seq<char> },
    Listen { workload: Seq<char>, pattern: Option<Seq<char>>, bound: nat },
    Receive { listener: u64 },
    Leave { listener: u64 },
}

/// Whether a component has a message to fetch, and its workload can count one more.
pub open spec fn can_fetch(broker: BrokerView, component: Seq<char>) -> bool {
    &&& has_component(broker, component)
    &&& component_of(broker, component).inbox.items.len() > 0
    &&& data_of(broker, broker.components[component]) matches Some(data) ==> data.running < u64::MAX
}

/// Whether an operation leads from one state of the broker to the other.
pub open spec fn step_taken(before: BrokerView, step: Step, after: BrokerView) -> bool {
    match step {
        Step::Publish { workload, message, origin, result } => publishing(
            before,
            after,
            workload,
            message,
            origin,
            result,
        ),
        Step::Request { workload, message, origin, inbox, number } => requesting(
            before,
            after,
            workload,
            message,
            origin,
            inbox,
            number,
        ),
        Step::Look { workload, inbox, id } => after == look(before, workload, inbox, id).1,
        Step::GiveUp { workload, inbox, id } => after == given_up(before, workload, inbox, id),
        Step::Answer { ticket, message } => after == answering(before, ticket, message).1,
        Step::Reserve { workload } => after == if before.workloads.contains_key(workload) {
            before
        } else {
            started(before, workload, Lifecycle::Reserved)
        },
        Step::Bind { workload } => after == binding(before, workload).1,
        Step::Close { workload } => after == closing(before, workload).1,
        Step::Unbind { workload } => after == unbound(before, workload),
        Step::AddComponent { workload, component, subscriptions, bound } => after
            == component_added(before, workload, component, subscriptions, bound),
        Step::StartComponent { component } => after == if has_component(before, component)
            && !component_of(before, component).started {
            with_component(
                before,
                component,
                ComponentView { started: true, ..component_of(before, component) },
            )
        } else {
            before
        },
        Step::Fetch { component } => after == if can_fetch(before, component) {
            message_taken(before, component)
        } else {
            before
        },
        Step::Finish { workload, instance } => after == handled(before, workload, instance),
        Step::Abandon { component } => after == abandoned(before, component),
        Step::Listen { workload, pattern, bound } => after == if admission(
            before,
            workload,
        ) is Ok {
            listening(before, workload, pattern, bound)
        } else {
            before
        },
        Step::Receive { listener } => {
            let place = listener_place(before.listeners, listener);
            after == if place < before.listeners.len() {
                listener_taken(before, place)
            } else {
                before
            }
        },
        Step::Leave { listener } => after == listener_removed(before, listener),
    }
}

/// What fetching a message and receiving as a listener come to are steps.
pub proof fn law_fetching_and_receiving_are_steps(
    before: BrokerView,
    after: BrokerView,
    component: Seq<char>,
    out: NextMessage,
    listener: u64,
    received: Taken,
)
    ensures
        fetching(before, after, component, out) ==> step_taken(
            before,
            Step::Fetch { component },
            after,
        ),
        listener_poll(before, after, listener, received) ==> step_taken(
            before,
            Step::Receive { listener },
            after,
        ),
{
}

/// Whether the operations lead from each of the states to the next.
pub open spec fn run(states: Seq<BrokerView>, steps: Seq<Step>) -> bool {
    &&& states.len() == steps.len() + 1
    &&& forall|i: int|
        0 <= i < steps.len() ==> step_taken(states[i], #[trigger] steps[i], states[i + 1])
}

/// Whether there are numbers left throughout a run.
pub open spec fn numbers_left(states: Seq<BrokerView>) -> bool {
    forall|i: int| 0 <= i < states.len() ==> (#[trigger] states[i]).next < u64::MAX
}

// ---------------------------------------------------------------------------
// Numbers
// ---------------------------------------------------------------------------

/// Whether a request waits on the inbox of a workload.
pub open spec fn awaits(broker: BrokerView, workload: Seq<char>, inbox: Seq<char>) -> bool {
    data_of(broker, workload) matches Some(data) && data.pending.contains_key(inbox)
}

/// The number of the request that waits on the inbox of a workload.
pub open spec fn waiter(broker: BrokerView, workload: Seq<char>, inbox: Seq<char>) -> u64 {
    data_of(broker, workload)->0.pending[inbox].id
}

/// Whether none of the replies is to the request.
pub open spec fn no_reply(answered: Seq<AnsweredView>, id: u64) -> bool {
    forall|i: int| 0 <= i < answered.len() ==> (#[trigger] answered[i]).id != id
}

/// Whether no number is that of two requests: all that wait, and all whose reply is still to be
/// fetched, have numbers of their own, which came before the next one.
pub open spec fn numbered(broker: BrokerView) -> bool {
    &&& forall|i: int|
        0 <= i < broker.answered.len() ==> (#[trigger] broker.answered[i]).id < broker.next
    &&& forall|i: int, j: int|
        0 <= i < j < broker.answered.len() ==> (#[trigger] broker.answered[i]).id != (
        #[trigger] broker.answered[j]).id
    &&& forall|workload: Seq<char>, inbox: Seq<char>| #[trigger]
        awaits(broker, workload, inbox) ==> waiter(broker, workload, inbox) < broker.next
            && no_reply(broker.answered, waiter(broker, workload, inbox))
    &&& forall|w: Seq<char>, i: Seq<char>, v: Seq<char>, j: Seq<char>|
        #![trigger awaits(broker, w, i), awaits(broker, v, j)]
        awaits(broker, w, i) && awaits(broker, v, j) && waiter(broker, w, i) == waiter(broker, v, j)
            ==> w == v && i == j
}

/// Where the reply to a request stands, if there is one.
pub proof fn lemma_answer_place(answered: Seq<AnsweredView>, id: u64)
    ensures
        0 <= answer_place(answered, id) <= answered.len(),
        answer_place(answered, id) < answered.len() ==> answered[answer_place(answered, id)].id
            == id,
        no_reply(answered, id) == (answer_place(answered, id) >= answered.len()),
    decreases answered.len(),
{
    if answered.len() > 0 && answered[0].id != id {
        let rest = answered.drop_first();
        lemma_answer_place(rest, id);
        if no_reply(rest, id) {
            assert forall|i: int| 0 <= i < answered.len() implies (#[trigger] answered[i]).id
                != id by {
                if i > 0 {
                    assert(rest[i - 1] == answered[i]);
                }
            }
        } else {
            let k = answer_place(rest, id);
            assert(answered[k + 1] == rest[k]);
        }
    } else if answered.len() > 0 {
        assert(answered[0].id == id);
    }
}

/// Where no request and no reply comes in, and no number is taken back, all is numbered still.
proof fn lemma_stays_numbered(before: BrokerView, after: BrokerView)
    requires
        numbered(before),
        after.answered == before.answered,
        after.next >= before.next,
        forall|workload: Seq<char>, inbox: Seq<char>| #[trigger]
            awaits(after, workload, inbox) ==> awaits(before, workload, inbox) && waiter(
                after,
                workload,
                inbox,
            ) == waiter(before, workload, inbox),
    ensures
        numbered(after),
{
}

/// Taking a reply out leaves the others.
pub proof fn lemma_replies_stay_numbered(broker: BrokerView, id: u64)
    requires
        numbered(broker),
    ensures
        numbered(answer_removed(broker, id)),
        no_reply(answer_removed(broker, id).answered, id),
{
    let after = answer_removed(broker, id);
    let place = answer_place(broker.answered, id);
    lemma_answer_place(broker.answered, id);
    if place < broker.answered.len() {
        assert forall|i: int|
            0 <= i < after.answered.len() implies #[trigger] after.answered[i]
            == broker.answered[if i < place {
            i
        } else {
            i + 1
        }] by {}
        assert forall|w: Seq<char>, i: Seq<char>| #[trigger]
            awaits(after, w, i) implies awaits(broker, w, i) && waiter(after, w, i) == waiter(
            broker,
            w,
            i,
        ) by {}
    }
}

/// Publishing keeps the numbers.
proof fn lemma_publishing_stays_numbered(
    before: BrokerView,
    after: BrokerView,
    workload: Seq<char>,
    message: HostMessageView,
    origin: MessageOrigin,
    result: Result<(), MessagingError>,
)
    requires
        numbered(before),
        publishing(before, after, workload, message, origin, result),
    ensures
        numbered(after),
{
    assert forall|w: Seq<char>, i: Seq<char>| #[trigger] awaits(after, w, i) implies awaits(
        before,
        w,
        i,
    ) && waiter(after, w, i) == waiter(before, w, i) && (admission(before, workload) is Ok
        && is_reply(admission(before, workload)->Ok_0, message.subject) ==> w != workload || i
        != message.subject) by {}
    if awaits(before, workload, message.subject) && admission(before, workload) is Ok {
        let new = waiter(before, workload, message.subject);
        assert(after.answered == before.answered.push(after.answered.last()));
        assert(after.answered.last().id == new);
        assert forall|i: int| 0 <= i < before.answered.len() implies #[trigger] after.answered[i]
            == before.answered[i] by {}
        assert forall|w: Seq<char>, i: Seq<char>| #[trigger] awaits(after, w, i) implies no_reply(
            after.answered,
            waiter(after, w, i),
        ) by {
            assert(awaits(before, w, i));
            assert(no_reply(before.answered, waiter(before, w, i)));
            assert(waiter(before, w, i) != new);
        }
    } else {
        assert(after.answered == before.answered);
        lemma_stays_numbered(before, after);
    }
}

/// A request keeps the numbers, while there are any left.
proof fn lemma_requesting_stays_numbered(
    before: BrokerView,
    after: BrokerView,
    workload: Seq<char>,
    message: HostMessageView,
    origin: MessageOrigin,
    inbox: Seq<char>,
    result: Result<u64, MessagingError>,
)
    requires
        numbered(before),
        before.next < u64::MAX,
        requesting(before, after, workload, message, origin, inbox, result),
    ensures
        numbered(after),
{
    if admission(before, workload) is Ok {
        assert(after.answered == before.answered);
        assert(after.next == before.next + 1);
        assert forall|w: Seq<char>, i: Seq<char>| #[trigger]
            awaits(after, w, i) implies (if w == workload && i == inbox {
            waiter(after, w, i) == before.next
        } else {
            awaits(before, w, i) && waiter(after, w, i) == waiter(before, w, i)
        }) by {}
    }
}

/// No number is that of two requests: a new broker has given none, and whatever the broker does
/// from then on, each request keeps a number of its own, as long as there are numbers left.
pub proof fn law_numbers_are_given_once(before: BrokerView, step: Step, after: BrokerView)
    requires
        numbered(before),
        before.next < u64::MAX,
        step_taken(before, step, after),
    ensures
        numbered(empty_broker()),
        numbered(after),
{
    match step {
        Step::Publish { workload, message, origin, result } => {
            lemma_publishing_stays_numbered(before, after, workload, message, origin, result);
        },
        Step::Request { workload, message, origin, inbox, number } => {
            lemma_requesting_stays_numbered(
                before,
                after,
                workload,
                message,
                origin,
                inbox,
                number,
            );
        },
        Step::Look { workload, inbox, id } => {
            lemma_replies_stay_numbered(before, id);
            if answer_place(before.answered, id) >= before.answered.len() {
                lemma_stays_numbered(before, after);
            }
        },
        Step::GiveUp { workload, inbox, id } => {
            lemma_replies_stay_numbered(before, id);
            lemma_stays_numbered(answer_removed(before, id), after);
        },
        _ => {
            lemma_stays_numbered(before, after);
        },
    }
}

/// No number is that of two requests in any state of a run.
pub proof fn lemma_runs_stay_numbered(states: Seq<BrokerView>, steps: Seq<Step>, at: int)
    requires
        run(states, steps),
        numbers_left(states),
        numbered(states[0]),
        0 <= at < states.len(),
    ensures
        numbered(states[at]),
    decreases at,
{
    if at > 0 {
        lemma_runs_stay_numbered(states, steps, at - 1);
        let step = steps[at - 1];
        law_numbers_are_given_once(states[at - 1], step, states[at]);
    }
}

} // verus!
