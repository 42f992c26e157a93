//! What becomes of requests, whatever else goes on in the broker.
use vstd::prelude::*;

use crate::messaging::in_memory::laws::law_workloads_change_by_binding_and_closing;
use crate::messaging::in_memory::model::admission;
use crate::messaging::in_memory::model::answer_place;
use crate::messaging::in_memory::model::answer_removed;
use crate::messaging::in_memory::model::answering;
use crate::messaging::in_memory::model::components_of;
use crate::messaging::in_memory::model::data_of;
use crate::messaging::in_memory::model::given_up;
use crate::messaging::in_memory::model::idle;
use crate::messaging::in_memory::model::is_reply;
use crate::messaging::in_memory::model::look;
use crate::messaging::in_memory::model::publishing;
use crate::messaging::in_memory::model::replying_to;
use crate::messaging::in_memory::model::requesting;
use crate::messaging::in_memory::model::waits;
use crate::messaging::in_memory::model::BrokerView;
use crate::messaging::in_memory::model::Outcome;
use crate::messaging::in_memory::model::WorkloadView;
use crate::messaging::in_memory::runs::awaits;
use crate::messaging::in_memory::runs::lemma_answer_place;
use crate::messaging::in_memory::runs::lemma_replies_stay_numbered;
use crate::messaging::in_memory::runs::lemma_runs_stay_numbered;
use crate::messaging::in_memory::runs::no_reply;
use crate::messaging::in_memory::runs::numbered;
use crate::messaging::in_memory::runs::numbers_left;
use crate::messaging::in_memory::runs::run;
use crate::messaging::in_memory::runs::step_taken;
use crate::messaging::in_memory::runs::waiter;
use crate::messaging::in_memory::runs::Step;
use crate::messaging::message::host_form;
use crate::messaging::message::HostMessageView;
use crate::messaging::message::MessageOrigin;
use crate::messaging::message::MessagingError;
use crate::messaging::queue::offer_outcome;
use crate::messaging::queue::Offer;
use crate::messaging::queue::RequestTicketView;
use crate::messaging::subject::subject_match;
use crate::messaging::tombstones::law_remembering_remembers;
use crate::messaging::tombstones::remembered;
use crate::messaging::tombstones::MAX_TOMBSTONES;

verus! {

/// Whether a request waits in a workload that is bound, and no reply to it is there yet.
pub open spec fn unanswered(
    broker: BrokerView,
    workload: Seq<char>,
    inbox: Seq<char>,
    id: u64,
) -> bool {
    &&& admission(broker, workload) is Ok
    &&& waits(broker, workload, inbox, id)
    &&& no_reply(broker.answered, id)
}

/// The answers of responders that are kept for the request that waits on the inbox, oldest first.
pub open spec fn kept(broker: BrokerView, workload: Seq<char>, inbox: Seq<char>) -> Seq<
    HostMessageView,
> {
    data_of(broker, workload)->0.pending[inbox].replies
}

/// Whether the reply to the request is there to be fetched.
pub open spec fn reply_ready(broker: BrokerView, id: u64, reply: HostMessageView) -> bool {
    exists|i: int|
        0 <= i < broker.answered.len() && (#[trigger] broker.answered[i]).id == id && host_form(
            broker.answered[i].reply,
        ) == reply
}

/// Whether a step may end the wait of a request on the inbox: a message comes there, another
/// request takes the inbox over, the requester gives up, or the workload closes or leaves.
pub open spec fn settles(step: Step, workload: Seq<char>, inbox: Seq<char>, id: u64) -> bool {
    match step {
        Step::Publish { workload: w, message, .. } => w == workload && message.subject == inbox,
        Step::Request { workload: w, inbox: i, .. } => w == workload && i == inbox,
        Step::GiveUp { workload: w, inbox: i, id: n } => w == workload && i == inbox && n == id,
        Step::Close { workload: w } => w == workload,
        Step::Unbind { workload: w } => w == workload,
        _ => false,
    }
}

/// Whether a step hands a responder's answer to the request in.
pub open spec fn answers(step: Step, workload: Seq<char>, inbox: Seq<char>, id: u64) -> bool {
    step matches Step::Answer { ticket, .. } && ticket == (RequestTicketView {
        workload,
        inbox,
        id,
    })
}

/// Whether a step is a look of the requester.
pub open spec fn looks(step: Step, workload: Seq<char>, inbox: Seq<char>, id: u64) -> bool {
    step matches Step::Look { workload: w, inbox: i, id: n } && w == workload && i == inbox && n
        == id
}

/// Whether a step fetches the reply to the request with the number, or gives it up.
pub open spec fn fetches(step: Step, id: u64) -> bool {
    match step {
        Step::Look { id: n, .. } => n == id,
        Step::GiveUp { id: n, .. } => n == id,
        _ => false,
    }
}

/// A request that was taken waits, nothing is there for it yet, and its inbox is remembered, a new
/// one as the newest.
pub proof fn law_requests_begin_unanswered(
    before: BrokerView,
    after: BrokerView,
    workload: Seq<char>,
    message: HostMessageView,
    origin: MessageOrigin,
    inbox: Seq<char>,
    id: u64,
)
    requires
        numbered(before),
        requesting(before, after, workload, message, origin, inbox, Ok(id)),
    ensures
        unanswered(after, workload, inbox, id),
        kept(after, workload, inbox).len() == 0,
        look(after, workload, inbox, id) == (Outcome::Waiting, after),
        tombstones_of(after, workload).contains(inbox),
        !tombstones_of(before, workload).contains(inbox) ==> remembered_within(
            tombstones_of(after, workload),
            inbox,
            0,
        ),
{
    lemma_answer_place(after.answered, id);
    let tombstones = tombstones_of(after, workload);
    law_remembering_remembers(tombstones_of(before, workload), inbox);
    if !tombstones_of(before, workload).contains(inbox) {
        assert(tombstones[tombstones.len() - 1] == inbox);
    }
}

/// A request stays as it is, whatever else goes on: nothing but a message to its inbox, another
/// request there, its requester, a responder that has its ticket, or the end of its workload
/// makes a difference to it. An answer is kept behind those that came before it, and a look that
/// finds none changes nothing.
pub proof fn law_requests_stay_unanswered(
    before: BrokerView,
    step: Step,
    after: BrokerView,
    workload: Seq<char>,
    inbox: Seq<char>,
    id: u64,
)
    requires
        numbered(before),
        step_taken(before, step, after),
        unanswered(before, workload, inbox, id),
        !settles(step, workload, inbox, id),
        looks(step, workload, inbox, id) ==> kept(before, workload, inbox).len() == 0,
    ensures
        unanswered(after, workload, inbox, id),
        kept(after, workload, inbox) == (if answers(step, workload, inbox, id) {
            kept(before, workload, inbox).push(step->Answer_message)
        } else {
            kept(before, workload, inbox)
        }),
{
    assert(awaits(before, workload, inbox));
    match step {
        Step::Publish { workload: w, message, .. } => {
            if awaits(before, w, message.subject) {
                assert(waiter(before, w, message.subject) != id);
            }
        },
        Step::Look { workload: w, inbox: i, id: n } => {
            lemma_answer_place(before.answered, n);
            lemma_removal_leaves_none(before, n, id);
            if awaits(before, w, i) && waiter(before, w, i) == n {
                assert(n == id ==> w == workload && i == inbox);
            }
        },
        Step::GiveUp { workload: w, inbox: i, id: n } => {
            lemma_removal_leaves_none(before, n, id);
            let gone = answer_removed(before, n);
            if waits(gone, w, i, n) {
                assert(awaits(before, w, i));
            }
        },
        Step::Answer { ticket, message } => {
            if waits(before, ticket.workload, ticket.inbox, ticket.id) {
                assert(awaits(before, ticket.workload, ticket.inbox));
            }
        },
        _ => {},
    }
}

/// Where there is no reply to a request, taking out another's makes none.
proof fn lemma_removal_leaves_none(broker: BrokerView, gone: u64, id: u64)
    requires
        no_reply(broker.answered, id),
    ensures
        no_reply(answer_removed(broker, gone).answered, id),
{
    let after = answer_removed(broker, gone).answered;
    let place = answer_place(broker.answered, gone);
    lemma_answer_place(broker.answered, gone);
    if place < broker.answered.len() {
        assert forall|i: int| 0 <= i < after.len() implies (#[trigger] after[i]).id != id by {
            assert(after[i] == broker.answered[if i < place {
                i
            } else {
                i + 1
            }]);
        }
    }
}

/// The first message that is published to the inbox of a request that still waits is its reply,
/// from whatever state and whoever sends it: it is taken, comes to no component, and is there for
/// the requester.
pub proof fn law_first_replies_are_taken(
    before: BrokerView,
    after: BrokerView,
    workload: Seq<char>,
    inbox: Seq<char>,
    id: u64,
    reply: HostMessageView,
    origin: MessageOrigin,
    result: Result<(), MessagingError>,
)
    requires
        unanswered(before, workload, inbox, id),
        publishing(before, after, workload, reply, origin, result),
        reply.subject == inbox,
    ensures
        result is Ok,
        components_of(after, workload) == components_of(before, workload),
        reply_ready(after, id, reply),
        !awaits(after, workload, inbox),
        data_of(after, workload)->0.tombstones.contains(inbox),
{
    let answer = after.answered[before.answered.len() as int];
    assert(answer.id == id && host_form(answer.reply) == reply);
    law_remembering_remembers(data_of(before, workload)->0.tombstones, inbox);
}

/// A reply that is there stays until it is fetched or given up, whatever goes on, even if its
/// workload closes or leaves.
pub proof fn law_replies_stay_until_fetched(
    before: BrokerView,
    step: Step,
    after: BrokerView,
    id: u64,
    reply: HostMessageView,
)
    requires
        numbered(before),
        step_taken(before, step, after),
        reply_ready(before, id, reply),
        !fetches(step, id),
    ensures
        reply_ready(after, id, reply),
{
    let k = choose|k: int|
        0 <= k < before.answered.len() && (#[trigger] before.answered[k]).id == id && host_form(
            before.answered[k].reply,
        ) == reply;
    match step {
        Step::Publish { .. } => {
            assert(after.answered[k] == before.answered[k]);
        },
        Step::Look { id: n, .. } => {
            lemma_removal_leaves_it(before, n, k);
        },
        Step::GiveUp { id: n, .. } => {
            lemma_removal_leaves_it(before, n, k);
        },
        _ => {
            assert(after.answered == before.answered);
        },
    }
}

/// Taking out the reply to one request leaves those to others.
proof fn lemma_removal_leaves_it(broker: BrokerView, gone: u64, k: int)
    requires
        0 <= k < broker.answered.len(),
        broker.answered[k].id != gone,
    ensures
        exists|i: int|
            0 <= i < answer_removed(broker, gone).answered.len()
                && #[trigger] answer_removed(broker, gone).answered[i] == broker.answered[k],
        answer_place(broker.answered, gone) >= broker.answered.len() ==> answer_removed(
            broker,
            gone,
        ) == broker,
{
    let after = answer_removed(broker, gone).answered;
    let place = answer_place(broker.answered, gone);
    lemma_answer_place(broker.answered, gone);
    if place < broker.answered.len() {
        assert(place != k);
        if k < place {
            assert(after[k] == broker.answered[k]);
        } else {
            assert(after[k - 1] == broker.answered[k]);
        }
    } else {
        assert(after[k] == broker.answered[k]);
    }
}

/// A reply that is there is what the requester sees when it looks.
pub proof fn law_replies_are_seen(
    broker: BrokerView,
    workload: Seq<char>,
    inbox: Seq<char>,
    id: u64,
    reply: HostMessageView,
)
    requires
        numbered(broker),
        reply_ready(broker, id, reply),
    ensures
        look(broker, workload, inbox, id).0 == Outcome::Replied(reply),
        no_reply(look(broker, workload, inbox, id).1.answered, id),
{
    let k = choose|k: int|
        0 <= k < broker.answered.len() && (#[trigger] broker.answered[k]).id == id && host_form(
            broker.answered[k].reply,
        ) == reply;
    let place = answer_place(broker.answered, id);
    lemma_answer_place(broker.answered, id);
    assert(place == k);
    lemma_replies_stay_numbered(broker, id);
}

/// While nothing answers or settles a request, it waits in every state of a run.
proof fn lemma_runs_stay_unanswered(
    states: Seq<BrokerView>,
    steps: Seq<Step>,
    workload: Seq<char>,
    inbox: Seq<char>,
    id: u64,
    from: int,
    at: int,
)
    requires
        run(states, steps),
        numbers_left(states),
        numbered(states[0]),
        0 <= from <= at < states.len(),
        unanswered(states[from], workload, inbox, id),
        kept(states[from], workload, inbox).len() == 0,
        forall|i: int|
            from <= i < at ==> !settles(#[trigger] steps[i], workload, inbox, id) && !answers(
                steps[i],
                workload,
                inbox,
                id,
            ),
    ensures
        unanswered(states[at], workload, inbox, id),
        kept(states[at], workload, inbox).len() == 0,
    decreases at,
{
    if from < at {
        lemma_runs_stay_unanswered(states, steps, workload, inbox, id, from, at - 1);
        lemma_runs_stay_numbered(states, steps, at - 1);
        let step = steps[at - 1];
        law_requests_stay_unanswered(states[at - 1], step, states[at], workload, inbox, id);
    }
}

/// While nobody fetches a reply, it is there in every state of a run.
proof fn lemma_runs_keep_the_reply(
    states: Seq<BrokerView>,
    steps: Seq<Step>,
    id: u64,
    reply: HostMessageView,
    from: int,
    at: int,
)
    requires
        run(states, steps),
        numbers_left(states),
        numbered(states[0]),
        0 <= from <= at < states.len(),
        reply_ready(states[from], id, reply),
        forall|i: int| from <= i < at ==> !fetches(#[trigger] steps[i], id),
    ensures
        reply_ready(states[at], id, reply),
    decreases at,
{
    if from < at {
        lemma_runs_keep_the_reply(states, steps, id, reply, from, at - 1);
        lemma_runs_stay_numbered(states, steps, at - 1);
        let step = steps[at - 1];
        law_replies_stay_until_fetched(states[at - 1], step, states[at], id, reply);
    }
}

/// A request gets its reply, whatever goes on before the reply, and whatever goes on between it
/// and the look of the requester. Until the reply comes, the requester sees that it waits; the
/// first message that is published to the inbox, by whomever, is taken and comes to no component;
/// and from then on the requester sees that message, whole, until it fetches it or gives up.
pub proof fn law_requests_get_their_replies(
    states: Seq<BrokerView>,
    steps: Seq<Step>,
    workload: Seq<char>,
    message: HostMessageView,
    origin: MessageOrigin,
    inbox: Seq<char>,
    id: u64,
    at: int,
    reply: HostMessageView,
    replier: MessageOrigin,
    result: Result<(), MessagingError>,
)
    requires
        run(states, steps),
        numbers_left(states),
        numbered(states[0]),
        0 < at < steps.len(),
        steps[0] == (Step::Request { workload, message, origin, inbox, number: Ok(id) }),
        steps[at] == (Step::Publish { workload, message: reply, origin: replier, result }),
        reply.subject == inbox,
        forall|i: int|
            0 < i < at ==> !settles(#[trigger] steps[i], workload, inbox, id) && !answers(
                steps[i],
                workload,
                inbox,
                id,
            ),
        forall|i: int| at < i < steps.len() ==> !fetches(#[trigger] steps[i], id),
    ensures
        forall|i: int|
            0 < i <= at ==> look(#[trigger] states[i], workload, inbox, id) == (
                Outcome::Waiting,
                states[i],
            ),
        result is Ok,
        components_of(states[at + 1], workload) == components_of(states[at], workload),
        forall|i: int|
            at < i < states.len() ==> look(#[trigger] states[i], workload, inbox, id).0
                == Outcome::Replied(reply),
{
    assert(step_taken(states[0], steps[0], states[1]));
    law_requests_begin_unanswered(states[0], states[1], workload, message, origin, inbox, id);
    assert forall|i: int| 0 < i <= at implies look(#[trigger] states[i], workload, inbox, id) == (
        Outcome::Waiting,
        states[i],
    ) by {
        lemma_runs_stay_unanswered(states, steps, workload, inbox, id, 1, i);
        lemma_answer_place(states[i].answered, id);
    }
    lemma_runs_stay_unanswered(states, steps, workload, inbox, id, 1, at);
    assert(step_taken(states[at], steps[at], states[at + 1]));
    law_first_replies_are_taken(
        states[at],
        states[at + 1],
        workload,
        inbox,
        id,
        reply,
        replier,
        result,
    );
    assert forall|i: int| at < i < states.len() implies look(
        #[trigger] states[i],
        workload,
        inbox,
        id,
    ).0 == Outcome::Replied(reply) by {
        lemma_runs_keep_the_reply(states, steps, id, reply, at + 1, i);
        lemma_runs_stay_numbered(states, steps, i);
        law_replies_are_seen(states[i], workload, inbox, id, reply);
    }
}

/// While nothing settles a request and its requester does not look, the oldest answer that is
/// kept for it stays the oldest in every state of a run.
proof fn lemma_runs_keep_the_answer(
    states: Seq<BrokerView>,
    steps: Seq<Step>,
    workload: Seq<char>,
    inbox: Seq<char>,
    id: u64,
    answer: HostMessageView,
    from: int,
    at: int,
)
    requires
        run(states, steps),
        numbers_left(states),
        numbered(states[0]),
        0 <= from <= at < states.len(),
        unanswered(states[from], workload, inbox, id),
        kept(states[from], workload, inbox).len() > 0,
        kept(states[from], workload, inbox)[0] == answer,
        forall|i: int|
            from <= i < at ==> !settles(#[trigger] steps[i], workload, inbox, id) && !looks(
                steps[i],
                workload,
                inbox,
                id,
            ),
    ensures
        unanswered(states[at], workload, inbox, id),
        kept(states[at], workload, inbox).len() > 0,
        kept(states[at], workload, inbox)[0] == answer,
    decreases at,
{
    if from < at {
        lemma_runs_keep_the_answer(states, steps, workload, inbox, id, answer, from, at - 1);
        lemma_runs_stay_numbered(states, steps, at - 1);
        let step = steps[at - 1];
        law_requests_stay_unanswered(states[at - 1], step, states[at], workload, inbox, id);
    }
}

/// A responder's answer gets to the guest that asked, whatever goes on in between. A guest's
/// request is put to every responder of its workload that has room and whose pattern matches; the
/// first answer that is handed in under the ticket that stands there is taken; and from then on
/// the requester sees it, on the subject of its inbox, unless a message came to the inbox itself.
pub proof fn law_responders_answer_guests(
    states: Seq<BrokerView>,
    steps: Seq<Step>,
    workload: Seq<char>,
    message: HostMessageView,
    inbox: Seq<char>,
    id: u64,
    responder: int,
    pattern: Seq<char>,
    at: int,
    reply: HostMessageView,
)
    requires
        run(states, steps),
        numbers_left(states),
        numbered(states[0]),
        0 < at < steps.len(),
        steps[0] == (Step::Request {
            workload,
            message,
            origin: MessageOrigin::Guest,
            inbox,
            number: Ok(id),
        }),
        0 <= responder < states[0].listeners.len(),
        states[0].listeners[responder].workload == workload,
        states[0].listeners[responder].pattern == Some(pattern),
        !states[0].listeners[responder].ended,
        subject_match(pattern, message.subject),
        offer_outcome(states[0].listeners[responder].queue) == Offer::Taken,
        steps[at] == (Step::Answer {
            ticket: RequestTicketView { workload, inbox, id },
            message: reply,
        }),
        forall|i: int|
            0 < i < at ==> !settles(#[trigger] steps[i], workload, inbox, id) && !answers(
                steps[i],
                workload,
                inbox,
                id,
            ),
        forall|i: int|
            at < i < steps.len() ==> !settles(#[trigger] steps[i], workload, inbox, id) && !looks(
                steps[i],
                workload,
                inbox,
                id,
            ),
    ensures
        ({
            let put = states[1].listeners[responder].queue.items.last();
            &&& put.message == replying_to(message, inbox)
            &&& put.reply == Some(RequestTicketView { workload, inbox, id })
        }),
        answering(states[at], RequestTicketView { workload, inbox, id }, reply).0 is Ok,
        forall|i: int|
            at < i < states.len() ==> look(#[trigger] states[i], workload, inbox, id).0
                == Outcome::Replied(HostMessageView { subject: inbox, ..reply }),
{
    assert(step_taken(states[0], steps[0], states[1]));
    law_requests_begin_unanswered(
        states[0],
        states[1],
        workload,
        message,
        MessageOrigin::Guest,
        inbox,
        id,
    );
    lemma_runs_stay_unanswered(states, steps, workload, inbox, id, 1, at);
    lemma_runs_stay_numbered(states, steps, at);
    assert(step_taken(states[at], steps[at], states[at + 1]));
    law_requests_stay_unanswered(states[at], steps[at], states[at + 1], workload, inbox, id);
    assert forall|i: int| at < i < states.len() implies look(
        #[trigger] states[i],
        workload,
        inbox,
        id,
    ).0 == Outcome::Replied(HostMessageView { subject: inbox, ..reply }) by {
        lemma_runs_keep_the_answer(states, steps, workload, inbox, id, reply, at + 1, i);
        lemma_answer_place(states[i].answered, id);
    }
}

// ---------------------------------------------------------------------------
// Replies that come too late
// ---------------------------------------------------------------------------

/// Whether a subject is remembered, with at most so many newer ones behind it.
pub open spec fn remembered_within(
    tombstones: Seq<Seq<char>>,
    subject: Seq<char>,
    newer: nat,
) -> bool {
    exists|k: int|
        0 <= k < tombstones.len() && #[trigger] tombstones[k] == subject && tombstones.len() - 1 - k
            <= newer
}

/// The subjects that a workload remembers.
pub open spec fn tombstones_of(broker: BrokerView, workload: Seq<char>) -> Seq<Seq<char>> {
    data_of(broker, workload)->0.tombstones
}

/// How many of the steps between two states of a run made a workload remember a new subject.
pub open spec fn newcomers(
    states: Seq<BrokerView>,
    workload: Seq<char>,
    from: int,
    to: int,
) -> nat
    decreases to - from,
{
    if to <= from {
        0
    } else {
        newcomers(states, workload, from, to - 1) + if tombstones_of(states[to], workload)
            == tombstones_of(states[to - 1], workload) {
            0nat
        } else {
            1nat
        }
    }
}

/// Remembering another subject puts one more behind those that are remembered.
proof fn lemma_remembering_ages(
    tombstones: Seq<Seq<char>>,
    other: Seq<char>,
    subject: Seq<char>,
    newer: nat,
)
    requires
        remembered_within(tombstones, subject, newer),
        newer + 1 < MAX_TOMBSTONES,
    ensures
        remembered_within(remembered(tombstones, other), subject, newer + 1),
{
    let k = choose|k: int|
        0 <= k < tombstones.len() && #[trigger] tombstones[k] == subject && tombstones.len() - 1 - k
            <= newer;
    let after = remembered(tombstones, other);
    if tombstones.contains(other) {
        assert(after[k] == subject);
    } else if tombstones.len() < MAX_TOMBSTONES {
        assert(after[k] == subject);
    } else {
        let dropped = tombstones.len() + 1 - MAX_TOMBSTONES;
        assert(after[k - dropped] == tombstones.push(other)[k]);
        assert(after[k - dropped] == subject);
    }
}

/// A subject that a workload remembers stays remembered, whatever goes on, until as many new ones
/// came as are remembered at most, or the workload leaves.
pub proof fn law_subjects_stay_remembered(
    before: BrokerView,
    step: Step,
    after: BrokerView,
    workload: Seq<char>,
    subject: Seq<char>,
    newer: nat,
)
    requires
        step_taken(before, step, after),
        data_of(before, workload) is Some,
        remembered_within(tombstones_of(before, workload), subject, newer),
        step != (Step::Unbind { workload }),
    ensures
        data_of(after, workload) is Some,
        newer + 1 < MAX_TOMBSTONES ==> remembered_within(
            tombstones_of(after, workload),
            subject,
            newer + 1,
        ),
{
    let tombstones = tombstones_of(before, workload);
    assert(remembered_within(tombstones, subject, newer + 1));
    if newer + 1 < MAX_TOMBSTONES {
        match step {
            Step::Publish { message, .. } => {
                lemma_remembering_ages(tombstones, message.subject, subject, newer);
            },
            Step::Request { inbox, .. } => {
                lemma_remembering_ages(tombstones, inbox, subject, newer);
            },
            Step::Look { inbox, .. } => {
                lemma_remembering_ages(tombstones, inbox, subject, newer);
            },
            _ => {},
        }
    }
}

/// Whether no request waits on a subject that a workload remembers, with at most so many newer
/// ones behind it.
pub open spec fn over(
    broker: BrokerView,
    workload: Seq<char>,
    inbox: Seq<char>,
    newer: nat,
) -> bool {
    &&& data_of(broker, workload) is Some
    &&& !awaits(broker, workload, inbox)
    &&& remembered_within(tombstones_of(broker, workload), inbox, newer)
}

/// Whether a step starts a request on the inbox anew, or lets the workload go.
pub open spec fn renews(step: Step, workload: Seq<char>, inbox: Seq<char>) -> bool {
    match step {
        Step::Request { workload: w, inbox: i, .. } => w == workload && i == inbox,
        Step::Unbind { workload: w } => w == workload,
        _ => false,
    }
}

/// Whether a step closes the workload.
pub open spec fn closes(step: Step, workload: Seq<char>) -> bool {
    step == (Step::Close { workload })
}

/// A request that is over stays over, until it is forgotten or its inbox is used anew.
proof fn lemma_runs_stay_over(
    states: Seq<BrokerView>,
    steps: Seq<Step>,
    workload: Seq<char>,
    inbox: Seq<char>,
    newer: nat,
    from: int,
    at: int,
)
    requires
        run(states, steps),
        0 <= from <= at < states.len(),
        over(states[from], workload, inbox, newer),
        newer + newcomers(states, workload, from, at) < MAX_TOMBSTONES,
        forall|i: int| from <= i < at ==> !renews(#[trigger] steps[i], workload, inbox),
    ensures
        over(
            states[at],
            workload,
            inbox,
            (newer + newcomers(states, workload, from, at)) as nat,
        ),
    decreases at,
{
    if from < at {
        let before = states[at - 1];
        let after = states[at];
        let step = steps[at - 1];
        let so_far = (newer + newcomers(states, workload, from, at - 1)) as nat;
        lemma_runs_stay_over(states, steps, workload, inbox, newer, from, at - 1);
        assert(step_taken(before, step, after));
        law_subjects_stay_remembered(before, step, after, workload, inbox, so_far);
        assert(!awaits(after, workload, inbox));
    }
}

/// A workload that is bound stays so through a run in which it is not closed and does not leave.
proof fn lemma_runs_stay_bound(
    states: Seq<BrokerView>,
    steps: Seq<Step>,
    workload: Seq<char>,
    from: int,
    at: int,
)
    requires
        run(states, steps),
        0 <= from <= at < states.len(),
        admission(states[from], workload) is Ok,
        forall|i: int|
            from <= i < at ==> !closes(#[trigger] steps[i], workload) && steps[i] != (
            Step::Unbind { workload }),
    ensures
        admission(states[at], workload) is Ok,
    decreases at,
{
    if from < at {
        lemma_runs_stay_bound(states, steps, workload, from, at - 1);
        let step = steps[at - 1];
        law_workloads_change_by_binding_and_closing(states[at - 1], step, states[at], workload);
    }
}

/// A message to the inbox of a request that is over reaches nobody, from whatever state and
/// whoever sends it: a workload that is bound takes it, and it changes no component, no request
/// and no reply. Where a guest sent it, it counts as a reply to its observers.
pub proof fn law_late_replies_reach_nobody(
    before: BrokerView,
    after: BrokerView,
    workload: Seq<char>,
    inbox: Seq<char>,
    newer: nat,
    late: HostMessageView,
    origin: MessageOrigin,
    result: Result<(), MessagingError>,
)
    requires
        over(before, workload, inbox, newer),
        publishing(before, after, workload, late, origin, result),
        late.subject == inbox,
    ensures
        (result is Ok) == (admission(before, workload) is Ok),
        is_reply(data_of(before, workload)->0, inbox),
        after.answered == before.answered,
        components_of(after, workload) == components_of(before, workload),
        data_of(after, workload) == data_of(before, workload),
        origin == MessageOrigin::HostInjected ==> after.listeners == before.listeners,
{
    let data = data_of(before, workload)->0;
    assert(data.tombstones.contains(inbox));
    assert(data.pending.remove(inbox) =~= data.pending);
}

/// The first reply answers a request, and a second reaches nobody, whatever goes on before,
/// between and after: both are taken, neither comes to a component, and the requester sees the
/// first until it fetches it or gives up. Fewer new subjects may come behind the inbox than are
/// remembered; behind a new inbox there are none at first.
pub proof fn law_second_replies_reach_nobody(
    states: Seq<BrokerView>,
    steps: Seq<Step>,
    workload: Seq<char>,
    message: HostMessageView,
    origin: MessageOrigin,
    inbox: Seq<char>,
    id: u64,
    newer: nat,
    at: int,
    first: HostMessageView,
    replier: MessageOrigin,
    result: Result<(), MessagingError>,
    again: int,
    second: HostMessageView,
    straggler: MessageOrigin,
    outcome: Result<(), MessagingError>,
)
    requires
        run(states, steps),
        numbers_left(states),
        numbered(states[0]),
        0 < at < again < steps.len(),
        remembered_within(tombstones_of(states[1], workload), inbox, newer),
        newer + newcomers(states, workload, 1, again) < MAX_TOMBSTONES,
        steps[0] == (Step::Request { workload, message, origin, inbox, number: Ok(id) }),
        steps[at] == (Step::Publish { workload, message: first, origin: replier, result }),
        steps[again] == (Step::Publish {
            workload,
            message: second,
            origin: straggler,
            result: outcome,
        }),
        first.subject == inbox,
        second.subject == inbox,
        forall|i: int|
            0 < i < at ==> !settles(#[trigger] steps[i], workload, inbox, id) && !answers(
                steps[i],
                workload,
                inbox,
                id,
            ),
        forall|i: int|
            at < i < again ==> !renews(#[trigger] steps[i], workload, inbox) && !closes(
                steps[i],
                workload,
            ),
    ensures
        result is Ok,
        outcome is Ok,
        components_of(states[at + 1], workload) == components_of(states[at], workload),
        components_of(states[again + 1], workload) == components_of(states[again], workload),
        is_reply(data_of(states[at], workload)->0, inbox),
        is_reply(data_of(states[again], workload)->0, inbox),
        states[again + 1].answered == states[again].answered,
        data_of(states[again + 1], workload) == data_of(states[again], workload),
        (forall|i: int| at < i < again ==> !fetches(#[trigger] steps[i], id)) ==> look(
            states[again + 1],
            workload,
            inbox,
            id,
        ).0 == Outcome::Replied(first),
{
    assert(step_taken(states[0], steps[0], states[1]));
    law_requests_begin_unanswered(states[0], states[1], workload, message, origin, inbox, id);
    lemma_runs_stay_unanswered(states, steps, workload, inbox, id, 1, at);
    assert(step_taken(states[at], steps[at], states[at + 1]));
    law_first_replies_are_taken(
        states[at],
        states[at + 1],
        workload,
        inbox,
        id,
        first,
        replier,
        result,
    );
    lemma_newcomers_add_up(states, workload, 1, at + 1, again);
    lemma_runs_stay_remembered(states, steps, workload, inbox, newer, 1, at + 1);
    let so_far = (newer + newcomers(states, workload, 1, at + 1)) as nat;
    lemma_runs_stay_over(states, steps, workload, inbox, so_far, at + 1, again);
    lemma_runs_stay_bound(states, steps, workload, at + 1, again);
    assert(step_taken(states[again], steps[again], states[again + 1]));
    law_late_replies_reach_nobody(
        states[again],
        states[again + 1],
        workload,
        inbox,
        (so_far + newcomers(states, workload, at + 1, again)) as nat,
        second,
        straggler,
        outcome,
    );
    if forall|i: int| at < i < again ==> !fetches(#[trigger] steps[i], id) {
        lemma_runs_keep_the_reply(states, steps, id, first, at + 1, again + 1);
        lemma_runs_stay_numbered(states, steps, again + 1);
        law_replies_are_seen(states[again + 1], workload, inbox, id, first);
    }
}

/// What comes new between two states comes before or after a third between them.
proof fn lemma_newcomers_add_up(
    states: Seq<BrokerView>,
    workload: Seq<char>,
    from: int,
    middle: int,
    to: int,
)
    requires
        from <= middle <= to,
    ensures
        newcomers(states, workload, from, to) == newcomers(states, workload, from, middle)
            + newcomers(states, workload, middle, to),
    decreases to - middle,
{
    if middle < to {
        lemma_newcomers_add_up(states, workload, from, middle, to - 1);
    }
}

/// A subject that is remembered stays so through a run.
proof fn lemma_runs_stay_remembered(
    states: Seq<BrokerView>,
    steps: Seq<Step>,
    workload: Seq<char>,
    inbox: Seq<char>,
    newer: nat,
    from: int,
    at: int,
)
    requires
        run(states, steps),
        0 <= from <= at < states.len(),
        data_of(states[from], workload) is Some,
        remembered_within(tombstones_of(states[from], workload), inbox, newer),
        newer + newcomers(states, workload, from, at) < MAX_TOMBSTONES,
        forall|i: int| from <= i < at ==> #[trigger] steps[i] != (Step::Unbind { workload }),
    ensures
        data_of(states[at], workload) is Some,
        remembered_within(
            tombstones_of(states[at], workload),
            inbox,
            (newer + newcomers(states, workload, from, at)) as nat,
        ),
    decreases at,
{
    if from < at {
        let so_far = (newer + newcomers(states, workload, from, at - 1)) as nat;
        lemma_runs_stay_remembered(states, steps, workload, inbox, newer, from, at - 1);
        let step = steps[at - 1];
        assert(step_taken(states[at - 1], step, states[at]));
        law_subjects_stay_remembered(states[at - 1], step, states[at], workload, inbox, so_far);
    }
}

/// A request that is given up leaves nothing behind that waits, from whatever state: a look at it
/// fails, an answer to it is refused, and what was remembered of it still is, so that a message
/// that comes to its inbox later is taken for the late reply that it is.
pub proof fn law_requests_given_up_are_over(
    broker: BrokerView,
    workload: Seq<char>,
    inbox: Seq<char>,
    id: u64,
    newer: nat,
    late: HostMessageView,
)
    requires
        numbered(broker),
        waits(broker, workload, inbox, id),
        remembered_within(tombstones_of(broker, workload), inbox, newer),
    ensures
        ({
            let after = given_up(broker, workload, inbox, id);
            &&& !waits(after, workload, inbox, id)
            &&& look(after, workload, inbox, id).0 == Outcome::Failed(MessagingError::Closed)
            &&& answering(after, RequestTicketView { workload, inbox, id }, late).0 == Err::<
                (),
                MessagingError,
            >(MessagingError::Closed)
            &&& after.answered == broker.answered
            &&& over(after, workload, inbox, newer)
        }),
{
    assert(awaits(broker, workload, inbox));
    lemma_answer_place(broker.answered, id);
}

/// A message that comes to the inbox of a request after it was given up reaches nobody, whatever
/// goes on in between, as long as fewer new subjects came than are remembered.
pub proof fn law_replies_to_given_up_requests_reach_nobody(
    states: Seq<BrokerView>,
    steps: Seq<Step>,
    workload: Seq<char>,
    inbox: Seq<char>,
    id: u64,
    newer: nat,
    at: int,
    late: HostMessageView,
    origin: MessageOrigin,
    result: Result<(), MessagingError>,
)
    requires
        run(states, steps),
        numbered(states[0]),
        waits(states[0], workload, inbox, id),
        remembered_within(tombstones_of(states[0], workload), inbox, newer),
        0 < at < steps.len(),
        steps[0] == (Step::GiveUp { workload, inbox, id }),
        steps[at] == (Step::Publish { workload, message: late, origin, result }),
        late.subject == inbox,
        newer + newcomers(states, workload, 1, at) < MAX_TOMBSTONES,
        forall|i: int| 0 < i < at ==> !renews(#[trigger] steps[i], workload, inbox),
    ensures
        (result is Ok) == (admission(states[at], workload) is Ok),
        is_reply(data_of(states[at], workload)->0, inbox),
        states[at + 1].answered == states[at].answered,
        components_of(states[at + 1], workload) == components_of(states[at], workload),
        data_of(states[at + 1], workload) == data_of(states[at], workload),
{
    assert(step_taken(states[0], steps[0], states[1]));
    law_requests_given_up_are_over(states[0], workload, inbox, id, newer, late);
    lemma_runs_stay_over(states, steps, workload, inbox, newer, 1, at);
    assert(step_taken(states[at], steps[at], states[at + 1]));
    law_late_replies_reach_nobody(
        states[at],
        states[at + 1],
        workload,
        inbox,
        (newer + newcomers(states, workload, 1, at)) as nat,
        late,
        origin,
        result,
    );
}

/// A request that is given up is no work any longer: where nothing else goes on in its workload,
/// the workload is idle.
pub proof fn law_given_up_requests_are_no_work(
    broker: BrokerView,
    workload: Seq<char>,
    inbox: Seq<char>,
    id: u64,
)
    requires
        numbered(broker),
        waits(broker, workload, inbox, id),
        idle(
            broker,
            workload,
            WorkloadView {
                pending: data_of(broker, workload)->0.pending.remove(inbox),
                ..data_of(broker, workload)->0
            },
        ),
    ensures
        ({
            let after = given_up(broker, workload, inbox, id);
            &&& data_of(after, workload) is Some
            &&& idle(after, workload, data_of(after, workload)->0)
        }),
{
    assert(awaits(broker, workload, inbox));
    lemma_answer_place(broker.answered, id);
}

} // verus!
