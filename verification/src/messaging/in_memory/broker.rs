//! The in-process broker.
use vstd::prelude::*;

use crate::messaging::handler::exports_messaging_handler;
use crate::messaging::handler::handler_names;
use crate::messaging::handler::messaging_world;
use crate::messaging::handler::PLUGIN_MESSAGING_MEMORY_ID;
use crate::messaging::in_memory::model::abandoned;
use crate::messaging::in_memory::model::admission;
use crate::messaging::in_memory::model::all_take;
use crate::messaging::in_memory::model::answer_place;
use crate::messaging::in_memory::model::answer_removed;
use crate::messaging::in_memory::model::answering;
use crate::messaging::in_memory::model::asked;
use crate::messaging::in_memory::model::at_least_one;
use crate::messaging::in_memory::model::binding;
use crate::messaging::in_memory::model::closing;
use crate::messaging::in_memory::model::component_added;
use crate::messaging::in_memory::model::component_of;
use crate::messaging::in_memory::model::components_of;
use crate::messaging::in_memory::model::data_of;
use crate::messaging::in_memory::model::empty_broker;
use crate::messaging::in_memory::model::ended_for;
use crate::messaging::in_memory::model::following;
use crate::messaging::in_memory::model::given_up;
use crate::messaging::in_memory::model::handled;
use crate::messaging::in_memory::model::has_component;
use crate::messaging::in_memory::model::idle;
use crate::messaging::in_memory::model::is_reply;
use crate::messaging::in_memory::model::listener_place;
use crate::messaging::in_memory::model::listener_poll;
use crate::messaging::in_memory::model::listener_removed;
use crate::messaging::in_memory::model::listener_taken;
use crate::messaging::in_memory::model::listening;
use crate::messaging::in_memory::model::listens;
use crate::messaging::in_memory::model::look;
use crate::messaging::in_memory::model::message_taken;
use crate::messaging::in_memory::model::new_workload;
use crate::messaging::in_memory::model::observed;
use crate::messaging::in_memory::model::publishing;
use crate::messaging::in_memory::model::replied;
use crate::messaging::in_memory::model::replying_to;
use crate::messaging::in_memory::model::requesting;
use crate::messaging::in_memory::model::routed;
use crate::messaging::in_memory::model::routed_one;
use crate::messaging::in_memory::model::routing;
use crate::messaging::in_memory::model::some_refuses;
use crate::messaging::in_memory::model::started;
use crate::messaging::in_memory::model::told;
use crate::messaging::in_memory::model::unasked;
use crate::messaging::in_memory::model::unbound;
use crate::messaging::in_memory::model::waits;
use crate::messaging::in_memory::model::with_component;
use crate::messaging::in_memory::model::with_data;
use crate::messaging::in_memory::model::AnsweredView;
use crate::messaging::in_memory::model::BrokerView;
use crate::messaging::in_memory::model::ComponentView;
use crate::messaging::in_memory::model::Lifecycle;
use crate::messaging::in_memory::model::ListenerView;
use crate::messaging::in_memory::model::Outcome;
use crate::messaging::in_memory::model::PendingView;
use crate::messaging::in_memory::model::WorkloadItemView;
use crate::messaging::in_memory::model::WorkloadView;
use crate::messaging::message::error_text;
use crate::messaging::message::routed_form;
use crate::messaging::message::to_host;
use crate::messaging::message::to_routed;
use crate::messaging::message::HostMessage;
use crate::messaging::message::HostMessageView;
use crate::messaging::message::MessageOrigin;
use crate::messaging::message::MessagingError;
use crate::messaging::message::ObservedMessage;
use crate::messaging::message::ObservedOperation;
use crate::messaging::message::RoutedMessage;
use crate::messaging::queue::offer_outcome;
use crate::messaging::queue::optional_ticket;
use crate::messaging::queue::taken;
use crate::messaging::queue::Envelope;
use crate::messaging::queue::MessageQueue;
use crate::messaging::queue::Offer;
use crate::messaging::queue::RequestTicket;
use crate::messaging::queue::Taken;
use crate::messaging::reply_slot::ready_slot;
use crate::messaging::reply_slot::ReplySlot;
use crate::messaging::subject::parse_subscriptions;
use crate::messaging::subject::subject_matches;
use crate::messaging::subject::subscribed;
use crate::messaging::subject::subscription_list;
use crate::messaging::subject::subscriptions_match;
use crate::messaging::tombstones::remembered;
use crate::messaging::tombstones::Tombstones;
use crate::table::Table;
use crate::text::decimal;
use crate::text::optional_str;
use crate::text::optional_text;
use crate::text::push_decimal;
use crate::text::push_text;
use crate::text::same_text;
use crate::text::texts;
use crate::tracker::WorkloadTracker;
use crate::tracker::WorkloadTrackerItem;
use crate::wit::find_package;
use crate::wit::of_package;
use crate::wit::some_covers;
use crate::wit::written_as;
use crate::wit::WitInterface;
use crate::wit::WitWorld;

verus! {

/// How many messages wait for a component at most.
pub const MAX_QUEUE_SIZE: usize = 10000;

/// The contents of messages.
pub open spec fn messages(list: Seq<HostMessage>) -> Seq<HostMessageView> {
    list.map_values(|message: HostMessage| message@)
}

struct PendingRequest {
    id: u64,
    replies: Vec<HostMessage>,
    slot: ReplySlot,
}

impl View for PendingRequest {
    type V = PendingView;

    closed spec fn view(&self) -> PendingView {
        PendingView { id: self.id, replies: messages(self.replies@) }
    }
}

struct WorkloadData {
    instance: u64,
    lifecycle: Lifecycle,
    pending: Table<PendingRequest>,
    tombstones: Tombstones,
    running: u64,
}

spec fn pending_views(pending: Map<Seq<char>, PendingRequest>) -> Map<Seq<char>, PendingView> {
    pending.map_values(|request: PendingRequest| request@)
}

impl View for WorkloadData {
    type V = WorkloadView;

    closed spec fn view(&self) -> WorkloadView {
        WorkloadView {
            instance: self.instance,
            lifecycle: self.lifecycle,
            pending: pending_views(self.pending@),
            tombstones: self.tombstones@,
            running: self.running,
        }
    }
}

struct ComponentData {
    subscriptions: Vec<String>,
    inbox: MessageQueue,
    started: bool,
}

impl View for ComponentData {
    type V = ComponentView;

    closed spec fn view(&self) -> ComponentView {
        ComponentView {
            subscriptions: texts(self.subscriptions@),
            inbox: self.inbox@,
            started: self.started,
        }
    }
}

struct Listener {
    id: u64,
    workload: String,
    pattern: Option<String>,
    queue: MessageQueue,
    ended: bool,
}

impl View for Listener {
    type V = ListenerView;

    closed spec fn view(&self) -> ListenerView {
        ListenerView {
            id: self.id,
            workload: self.workload@,
            pattern: optional_text(self.pattern),
            queue: self.queue@,
            ended: self.ended,
        }
    }
}

struct Answered {
    id: u64,
    instance: u64,
    slot: ReplySlot,
}

impl View for Answered {
    type V = AnsweredView;

    closed spec fn view(&self) -> AnsweredView {
        AnsweredView { id: self.id, instance: self.instance, reply: self.slot@.items[0] }
    }
}

/// A broker inside the process, for development and tests: what a workload sends is handled
/// within that workload.
pub struct InMemoryMessaging {
    tracker: WorkloadTracker<WorkloadData, ComponentData>,
    listeners: Vec<Listener>,
    answered: Vec<Answered>,
    next: u64,
}

spec fn data_view(data: Option<WorkloadData>) -> Option<WorkloadView> {
    match data {
        Some(data) => Some(data@),
        None => None,
    }
}

spec fn component_views(components: Map<Seq<char>, ComponentData>) -> Map<
    Seq<char>,
    ComponentView,
> {
    components.map_values(|component: ComponentData| component@)
}

spec fn item_view(item: WorkloadTrackerItem<WorkloadData, ComponentData>) -> WorkloadItemView {
    WorkloadItemView {
        data: data_view(item.workload_data),
        components: component_views(item.components@),
    }
}

spec fn item_views(
    items: Map<Seq<char>, WorkloadTrackerItem<WorkloadData, ComponentData>>,
) -> Map<Seq<char>, WorkloadItemView> {
    items.map_values(|item: WorkloadTrackerItem<WorkloadData, ComponentData>| item_view(item))
}

spec fn listener_views(listeners: Seq<Listener>) -> Seq<ListenerView> {
    listeners.map_values(|listener: Listener| listener@)
}

spec fn answered_views(answered: Seq<Answered>) -> Seq<AnsweredView> {
    answered.map_values(|answer: Answered| answer@)
}

impl View for InMemoryMessaging {
    type V = BrokerView;

    closed spec fn view(&self) -> BrokerView {
        BrokerView {
            workloads: item_views(self.tracker.items()),
            components: self.tracker.index(),
            listeners: listener_views(self.listeners@),
            answered: answered_views(self.answered@),
            next: self.next,
        }
    }
}

spec fn data_wf(data: Option<WorkloadData>) -> bool {
    match data {
        Some(data) => data.wf(),
        None => true,
    }
}

impl WorkloadData {
    /// Requests wait in bound workloads only, and nothing was sent to those that wait.
    spec fn wf(&self) -> bool {
        &&& self.pending.wf()
        &&& forall|inbox: Seq<char>| #[trigger]
            self.pending@.contains_key(inbox) ==> self.pending@[inbox].slot@ == ready_slot()
        &&& self.tombstones.wf()
        &&& self.lifecycle != Lifecycle::Bound ==> self@.pending == Map::<
            Seq<char>,
            PendingView,
        >::empty()
    }

    fn new(instance: u64, lifecycle: Lifecycle) -> (data: WorkloadData)
        ensures
            data.wf(),
            data@ == new_workload(instance, lifecycle),
    {
        let data = WorkloadData {
            instance,
            lifecycle,
            pending: Table::new(),
            tombstones: Tombstones::new(),
            running: 0,
        };
        assert(data@ =~= new_workload(instance, lifecycle));
        data
    }

    fn require_bound(&self) -> (result: Result<(), MessagingError>)
        ensures
            match self@.lifecycle {
                Lifecycle::Bound => result is Ok,
                Lifecycle::Closing | Lifecycle::Closed => result == Err::<(), MessagingError>(
                    MessagingError::Closed,
                ),
                Lifecycle::Reserved => result == Err::<(), MessagingError>(
                    MessagingError::NotBound,
                ),
            },
    {
        match self.lifecycle {
            Lifecycle::Bound => Ok(()),
            Lifecycle::Closing | Lifecycle::Closed => Err(MessagingError::Closed),
            Lifecycle::Reserved => Err(MessagingError::NotBound),
        }
    }
}

/// Changing one item changes its view alone.
proof fn lemma_item_views_insert(
    items: Map<Seq<char>, WorkloadTrackerItem<WorkloadData, ComponentData>>,
    workload: Seq<char>,
    item: WorkloadTrackerItem<WorkloadData, ComponentData>,
)
    ensures
        item_views(items.insert(workload, item)) == item_views(items).insert(
            workload,
            item_view(item),
        ),
{
    assert(item_views(items.insert(workload, item)) =~= item_views(items).insert(
        workload,
        item_view(item),
    ));
}

impl InMemoryMessaging {
    /// The id of the plugin.
    pub fn id(&self) -> (id: &'static str)
        ensures
            id@ == "wasmcloud-messaging-memory"@,
    {
        PLUGIN_MESSAGING_MEMORY_ID
    }

    /// What the plugin offers to guests.
    pub fn world(&self) -> (world: WitWorld)
        ensures
            world.imports@.len() == 1,
            written_as(world.imports@[0], "wasmcloud:messaging/consumer,types@0.4.0"@),
            world.exports@.len() == 1,
            written_as(world.exports@[0], "wasmcloud:messaging/handler@0.4.0"@),
    {
        messaging_world()
    }

    /// The tables of the broker are in order, and every answered request has its reply.
    pub closed spec fn wf(&self) -> bool {
        &&& self.tracker.wf()
        &&& forall|i: int|
            0 <= i < self.answered@.len() ==> (#[trigger] self.answered@[i]).slot@.items.len() == 1
        &&& forall|workload: Seq<char>| #[trigger]
            self.tracker.items().contains_key(workload) ==> data_wf(
                self.tracker.items()[workload].workload_data,
            )
    }

    /// A broker that serves no workloads.
    pub fn new() -> (broker: InMemoryMessaging)
        ensures
            broker.wf(),
            broker@ == empty_broker(),
    {
        let broker = InMemoryMessaging {
            tracker: WorkloadTracker::new(),
            listeners: Vec::new(),
            answered: Vec::new(),
            next: 0,
        };
        assert(broker@ =~= empty_broker());
        broker
    }

    /// The next number.
    fn draw(&mut self) -> (id: u64)
        requires
            old(self).wf(),
        ensures
            final(self).wf(),
            id == old(self)@.next,
            final(self)@ == (BrokerView { next: following(old(self)@.next), ..old(self)@ }),
            final(self).tracker == old(self).tracker,
    {
        let id: u64 = self.next;
        self.next = if id == u64::MAX {
            0
        } else {
            id + 1
        };
        id
    }

    /// Whether the workload may send.
    fn permit(&self, workload: &str) -> (result: Result<(), MessagingError>)
        ensures
            match admission(self@, workload@) {
                Ok(_) => result is Ok,
                Err(error) => result == Err::<(), MessagingError>(error),
            },
    {
        match self.tracker.get_workload_data(workload) {
            Some(data) => data.require_bound(),
            None => Err(MessagingError::NotBound),
        }
    }

    /// Gives a workload new data.
    fn start(&mut self, workload: String, lifecycle: Lifecycle)
        requires
            old(self).wf(),
        ensures
            final(self).wf(),
            final(self)@ == started(old(self)@, workload@, lifecycle),
    {
        let ghost before = self@;
        let instance: u64 = self.draw();
        let ghost items = self.tracker.items();
        let ghost name = workload@;
        self.tracker.add_unresolved_workload(workload, WorkloadData::new(instance, lifecycle));
        proof {
            assert forall|id: Seq<char>| #[trigger]
                self.tracker.items().contains_key(id) implies data_wf(
                self.tracker.items()[id].workload_data,
            ) by {
                if id != name {
                    assert(items.contains_key(id));
                }
            }
            assert(self@.workloads =~= started(before, name, lifecycle).workloads) by {
                assert forall|id: Seq<char>| #[trigger]
                    self@.workloads.contains_key(id) implies self@.workloads[id] == started(
                    before,
                    name,
                    lifecycle,
                ).workloads[id] by {
                    if id != name {
                        assert(items.contains_key(id));
                    }
                }
            }
        }
    }

    /// Reserves a workload before it is bound.
    pub(crate) fn reserve(&mut self, workload: String) -> (result: Result<(), MessagingError>)
        requires
            old(self).wf(),
        ensures
            final(self).wf(),
            match result {
                Ok(()) => !old(self)@.workloads.contains_key(workload@) && final(self)@ == started(
                    old(self)@,
                    workload@,
                    Lifecycle::Reserved,
                ),
                Err(error) => {
                    &&& old(self)@.workloads.contains_key(workload@)
                    &&& error == MessagingError::AlreadyReserved
                    &&& final(self)@ == old(self)@
                },
            },
    {
        if self.tracker.workloads.contains_key(workload.as_str()) {
            return Err(MessagingError::AlreadyReserved);
        }
        self.start(workload, Lifecycle::Reserved);
        Ok(())
    }
}

/// The listener at a place, and that no earlier one has its number.
proof fn lemma_listener_place(listeners: Seq<ListenerView>, id: u64)
    ensures
        0 <= listener_place(listeners, id) <= listeners.len(),
        listener_place(listeners, id) < listeners.len() ==> listeners[listener_place(
            listeners,
            id,
        )].id == id,
        forall|i: int|
            0 <= i < listener_place(listeners, id) ==> (#[trigger] listeners[i]).id != id,
    decreases listeners.len(),
{
    if listeners.len() == 0 || listeners[0].id == id {
    } else {
        let rest = listeners.drop_first();
        lemma_listener_place(rest, id);
        assert forall|i: int| 0 <= i < listener_place(listeners, id) implies (
        #[trigger] listeners[i]).id != id by {
            if i > 0 {
                assert(rest[i - 1] == listeners[i]);
            }
        }
    }
}

impl Listener {
    /// Whether this is an observer of the workload, or a responder to the subject in it.
    fn listens(&self, workload: &str, observers: bool, subject: &str) -> (yes: bool)
        ensures
            yes == listens(self@, workload@, observers, subject@),
    {
        if self.ended || !same_text(self.workload.as_str(), workload) {
            return false;
        }
        match &self.pattern {
            None => observers,
            Some(pattern) => !observers && subject_matches(pattern.as_str(), subject),
        }
    }
}

impl InMemoryMessaging {
    /// Offers a message to those who listen.
    fn tell(&mut self, workload: &str, observers: bool, envelope: &Envelope)
        requires
            old(self).wf(),
        ensures
            final(self).wf(),
            final(self).tracker == old(self).tracker,
            final(self)@ == (BrokerView {
                listeners: told(old(self)@.listeners, workload@, observers, envelope@),
                ..old(self)@
            }),
    {
        let n: usize = self.listeners.len();
        let ghost before = *self;
        let ghost goal = told(before@.listeners, workload@, observers, envelope@);
        let mut i: usize = 0;
        while i < n
            invariant
                i <= n,
                n == self.listeners@.len(),
                n == before.listeners@.len(),
                goal == told(before@.listeners, workload@, observers, envelope@),
                self.tracker == before.tracker,
                self.answered == before.answered,
                self.next == before.next,
                forall|j: int| 0 <= j < i ==> (#[trigger] self.listeners@[j])@ == goal[j],
                forall|j: int| i <= j < n ==> #[trigger] self.listeners@[j] == before.listeners@[j],
            decreases n - i,
        {
            assert(self.listeners@[i as int] == before.listeners@[i as int]);
            assert(before@.listeners[i as int] == before.listeners@[i as int]@);
            if self.listeners[i].listens(workload, observers, envelope.message.subject.as_str()) {
                self.listeners[i].queue.offer(envelope.duplicate());
            }
            assert(self.listeners@[i as int]@ == goal[i as int]);
            i = i + 1;
        }
        assert(self@.listeners =~= goal);
    }

    /// Shows a guest's message to the observers of its workload.
    fn observe_message(
        &mut self,
        workload: &str,
        operation: ObservedOperation,
        message: HostMessage,
    )
        requires
            old(self).wf(),
        ensures
            final(self).wf(),
            final(self).tracker == old(self).tracker,
            final(self)@ == (BrokerView {
                listeners: observed(old(self)@.listeners, workload@, operation, message@),
                ..old(self)@
            }),
    {
        let envelope = Envelope { message, operation, origin: MessageOrigin::Guest, reply: None };
        self.tell(workload, true, &envelope);
    }

    /// Adds a listener to a bound workload.
    fn listen(&mut self, workload: &str, pattern: Option<String>, capacity: usize) -> (result:
        Result<u64, MessagingError>)
        requires
            old(self).wf(),
            capacity <= usize::MAX / 8,
        ensures
            final(self).wf(),
            match admission(old(self)@, workload@) {
                Ok(_) => {
                    &&& result == Ok::<u64, MessagingError>(old(self)@.next)
                    &&& final(self)@ == listening(
                        old(self)@,
                        workload@,
                        optional_text(pattern),
                        at_least_one(capacity),
                    )
                },
                Err(error) => result == Err::<u64, MessagingError>(error) && final(self)@ == old(
                    self,
                )@,
            },
    {
        match self.permit(workload) {
            Err(error) => {
                return Err(error);
            },
            Ok(()) => {},
        }
        let bound: usize = if capacity == 0 {
            1
        } else {
            capacity
        };
        let ghost before = *self;
        let id: u64 = self.draw();
        let listener = Listener {
            id,
            workload: workload.to_string(),
            pattern,
            queue: MessageQueue::new(bound),
            ended: false,
        };
        self.listeners.push(listener);
        assert(self@ =~= listening(
            before@,
            workload@,
            optional_text(pattern),
            at_least_one(capacity),
        )) by {
            assert(self@.listeners =~= before@.listeners.push(listener@));
        }
        Ok(id)
    }

    /// Takes the oldest message of a listener.
    fn take_from_listener(&mut self, id: u64) -> (out: Taken)
        requires
            old(self).wf(),
        ensures
            final(self).wf(),
            listener_poll(old(self)@, final(self)@, id, out),
    {
        let n: usize = self.listeners.len();
        let ghost before = *self;
        proof {
            lemma_listener_place(self@.listeners, id);
        }
        let mut i: usize = 0;
        while i < n && self.listeners[i].id != id
            invariant
                i <= n,
                n == self.listeners@.len(),
                *self == before,
                i <= listener_place(before@.listeners, id) <= n,
                listener_place(before@.listeners, id) < n ==> before@.listeners[listener_place(
                    before@.listeners,
                    id,
                )].id == id,
                forall|j: int|
                    0 <= j < listener_place(before@.listeners, id) ==> (
                    #[trigger] before@.listeners[j]).id != id,
            decreases n - i,
        {
            assert(before@.listeners[i as int] == before.listeners@[i as int]@);
            i = i + 1;
        }
        if i == n {
            return Taken::Ended;
        }
        assert(before@.listeners[i as int] == before.listeners@[i as int]@);
        let out = self.listeners[i].queue.take();
        assert(self@.listeners =~= listener_taken(before@, i as int).listeners) by {
            assert forall|j: int| 0 <= j < n implies self@.listeners[j] == listener_taken(
                before@,
                i as int,
            ).listeners[j] by {
                assert(self@.listeners[j] == self.listeners@[j]@);
                assert(before@.listeners[j] == before.listeners@[j]@);
            }
        }
        match out {
            Taken::Item(envelope) => Taken::Item(envelope),
            Taken::Empty => if self.listeners[i].ended {
                Taken::Ended
            } else {
                Taken::Empty
            },
            Taken::Ended => Taken::Ended,
        }
    }
}

/// Offers a message to every component that subscribed to its subject, if all of them have room.
fn route(components: &mut Table<ComponentData>, envelope: &Envelope) -> (result: Result<
    (),
    MessagingError,
>)
    requires
        old(components).wf(),
    ensures
        final(components).wf(),
        match result {
            Ok(()) => {
                &&& all_take(component_views(old(components)@), envelope@.message.subject)
                &&& component_views(final(components)@) == routed(
                    component_views(old(components)@),
                    envelope@,
                )
            },
            Err(error) => {
                &&& some_refuses(
                    component_views(old(components)@),
                    envelope@.message.subject,
                    error,
                )
                &&& component_views(final(components)@) == component_views(old(components)@)
            },
        },
{
    let ghost before = *components;
    let ghost views = component_views(before@);
    let ghost subject = envelope@.message.subject;
    let n: usize = components.len();
    for i in 0..n
        invariant
            *components == before,
            before.wf(),
            n == before.listing().len(),
            views == component_views(before@),
            subject == envelope@.message.subject,
            forall|j: int|
                0 <= j < i && subscribed(
                    (#[trigger] before.listing()[j]).1@.subscriptions,
                    subject,
                ) ==> offer_outcome(before.listing()[j].1@.inbox) == Offer::Taken,
    {
        let component = components.value_at(i);
        proof {
            before.lemma_entry(i as int);
        }
        let ghost id = before.listing()[i as int].0;
        assert(views.contains_key(id) && views[id] == component@);
        if subscriptions_match(
            component.subscriptions.as_slice(),
            envelope.message.subject.as_str(),
        ) {
            match component.inbox.outlook() {
                Offer::Taken => {},
                Offer::Full => {
                    return Err(MessagingError::QueueFull);
                },
                Offer::Closed => {
                    return Err(MessagingError::Closed);
                },
            }
        }
    }
    assert(all_take(views, subject)) by {
        assert forall|id: Seq<char>| #[trigger]
            views.contains_key(id) && subscribed(views[id].subscriptions, subject) implies offer_outcome(
            views[id].inbox,
        ) == Offer::Taken by {
            let j = before.lemma_key(id);
        }
    }
    let mut i: usize = 0;
    while i < n
        invariant
            before.wf(),
            components.wf(),
            i <= n,
            n == before.listing().len(),
            n == components.listing().len(),
            subject == envelope@.message.subject,
            forall|j: int|
                0 <= j < n ==> (#[trigger] components.listing()[j]).0 == before.listing()[j].0,
            forall|j: int|
                0 <= j < i ==> (#[trigger] components.listing()[j]).1@ == routed_one(
                    before.listing()[j].1@,
                    envelope@,
                ),
            forall|j: int| i <= j < n ==> #[trigger] components.listing()[j] == before.listing()[j],
        decreases n - i,
    {
        let ghost midway = *components;
        assert(midway.listing()[i as int] == before.listing()[i as int]);
        let component = components.value_at_mut(i);
        if subscriptions_match(
            component.subscriptions.as_slice(),
            envelope.message.subject.as_str(),
        ) {
            component.inbox.offer(envelope.duplicate());
        }
        proof {
            assert forall|j: int| 0 <= j < n implies (#[trigger] components.listing()[j]).0
                == before.listing()[j].0 by {
                assert(midway.listing()[j].0 == before.listing()[j].0);
            }
            assert forall|j: int| 0 <= j < i + 1 implies (#[trigger] components.listing()[j]).1@
                == routed_one(before.listing()[j].1@, envelope@) by {
                if j < i {
                    assert(components.listing()[j] == midway.listing()[j]);
                }
            }
        }
        i = i + 1;
    }
    proof {
        let goal = routed(views, envelope@);
        let reached = component_views(components@);
        assert forall|id: Seq<char>| #[trigger]
            reached.contains_key(id) == goal.contains_key(id) && (reached.contains_key(id)
            ==> reached[id] == goal[id]) by {
            if reached.contains_key(id) {
                let j = components.lemma_key(id);
                assert(components.listing()[j].0 == before.listing()[j].0);
                before.lemma_entry(j);
            }
            if goal.contains_key(id) {
                let j = before.lemma_key(id);
                assert(components.listing()[j].0 == before.listing()[j].0);
                components.lemma_entry(j);
            }
        }
        assert(reached =~= goal);
    }
    Ok(())
}

impl InMemoryMessaging {
    /// Routes a message to the components of a workload.
    fn route_to_subscribers(&mut self, workload: &str, envelope: &Envelope) -> (result: Result<
        (),
        MessagingError,
    >)
        requires
            old(self).wf(),
            old(self)@.workloads.contains_key(workload@),
        ensures
            final(self).wf(),
            routing(old(self)@, final(self)@, workload@, envelope@, result),
    {
        let ghost before = *self;
        let ghost items = self.tracker.items();
        match self.tracker.workloads.get_mut(workload) {
            Some(item) => {
                let result = route(&mut item.components, envelope);
                proof {
                    let changed = self.tracker.items()[workload@];
                    lemma_item_views_insert(items, workload@, changed);
                    assert(item_views(items).insert(workload@, item_view(items[workload@]))
                        =~= item_views(items));
                }
                result
            },
            None => Err(MessagingError::Closed),
        }
    }
}

impl WorkloadData {
    /// Lets no request wait on the subject any longer, and remembers that one did.
    fn settle(&mut self, subject: &str) -> (waiter: Option<(u64, ReplySlot)>)
        requires
            old(self).wf(),
        ensures
            final(self).wf(),
            final(self)@ == (WorkloadView {
                pending: old(self)@.pending.remove(subject@),
                tombstones: remembered(old(self)@.tombstones, subject@),
                ..old(self)@
            }),
            match waiter {
                Some((id, slot)) => {
                    &&& old(self)@.pending.contains_key(subject@)
                    &&& id == old(self)@.pending[subject@].id
                    &&& slot@ == ready_slot()
                },
                None => !old(self)@.pending.contains_key(subject@),
            },
    {
        let ghost before = self.pending@;
        let request = self.pending.remove(subject);
        self.tombstones.insert(subject.to_string());
        proof {
            assert(pending_views(before.remove(subject@)) =~= pending_views(before).remove(
                subject@,
            ));
            if self.lifecycle != Lifecycle::Bound {
                assert(self@.pending =~= Map::<Seq<char>, PendingView>::empty());
            }
        }
        match request {
            Some(request) => Some((request.id, request.slot)),
            None => None,
        }
    }

    /// Lets a request wait on the inbox.
    fn enroll(&mut self, inbox: &str, id: u64)
        requires
            old(self).wf(),
            old(self)@.lifecycle == Lifecycle::Bound,
        ensures
            final(self).wf(),
            final(self)@ == (WorkloadView {
                pending: old(self)@.pending.insert(
                    inbox@,
                    PendingView { id, replies: Seq::empty() },
                ),
                tombstones: remembered(old(self)@.tombstones, inbox@),
                ..old(self)@
            }),
    {
        let ghost before = self.pending@;
        let request = PendingRequest { id, replies: Vec::new(), slot: ReplySlot::new() };
        assert(request@ =~= (PendingView { id, replies: Seq::empty() }));
        self.pending.insert(inbox.to_string(), request);
        self.tombstones.insert(inbox.to_string());
        assert(pending_views(before.insert(inbox@, request)) =~= pending_views(before).insert(
            inbox@,
            request@,
        ));
    }

    /// Lets no request wait on the inbox any longer.
    fn withdraw(&mut self, inbox: &str)
        requires
            old(self).wf(),
        ensures
            final(self).wf(),
            final(self)@ == (WorkloadView {
                pending: old(self)@.pending.remove(inbox@),
                ..old(self)@
            }),
    {
        let ghost before = self.pending@;
        self.pending.remove(inbox);
        proof {
            assert(pending_views(before.remove(inbox@)) =~= pending_views(before).remove(inbox@));
            if self.lifecycle != Lifecycle::Bound {
                assert(self@.pending =~= Map::<Seq<char>, PendingView>::empty());
            }
        }
    }

    /// Keeps an answer for the request that waits on the inbox.
    fn keep_answer(&mut self, inbox: &str, message: HostMessage)
        requires
            old(self).wf(),
            old(self)@.pending.contains_key(inbox@),
        ensures
            final(self).wf(),
            final(self)@ == (WorkloadView {
                pending: old(self)@.pending.insert(
                    inbox@,
                    PendingView {
                        id: old(self)@.pending[inbox@].id,
                        replies: old(self)@.pending[inbox@].replies.push(message@),
                    },
                ),
                ..old(self)@
            }),
    {
        let ghost before = self.pending@;
        match self.pending.get_mut(inbox) {
            Some(request) => {
                let ghost earlier = request@;
                request.replies.push(message);
                assert(request@.replies =~= earlier.replies.push(message@));
            },
            None => {},
        }
        proof {
            let changed = self.pending@[inbox@];
            assert(pending_views(before.insert(inbox@, changed)) =~= pending_views(before).insert(
                inbox@,
                changed@,
            ));
            assert(changed@ =~= (PendingView {
                id: old(self)@.pending[inbox@].id,
                replies: old(self)@.pending[inbox@].replies.push(message@),
            }));
        }
    }
}

impl InMemoryMessaging {
    /// Other data of a workload make up another broker.
    proof fn lemma_data_changed(before: Self, after: Self, workload: Seq<char>, data: WorkloadData)
        requires
            before.wf(),
            before.tracker.items().contains_key(workload),
            after.tracker.wf(),
            after.tracker.items() == before.tracker.items().insert(
                workload,
                WorkloadTrackerItem {
                    workload_data: Some(data),
                    components: before.tracker.items()[workload].components,
                },
            ),
            after.tracker.components == before.tracker.components,
            after.listeners == before.listeners,
            after.answered == before.answered,
            after.next == before.next,
            data.wf(),
        ensures
            after.wf(),
            after@ == with_data(before@, workload, data@),
    {
        lemma_item_views_insert(
            before.tracker.items(),
            workload,
            after.tracker.items()[workload],
        );
        assert forall|id: Seq<char>| #[trigger] after.tracker.items().contains_key(id) implies data_wf(
            after.tracker.items()[id].workload_data,
        ) by {
            if id != workload {
                assert(before.tracker.items().contains_key(id));
            }
        }
        assert(after@ =~= with_data(before@, workload, data@));
    }

    /// Whether a message on the subject is a reply.
    fn expects(&self, workload: &str, subject: &str) -> (yes: bool)
        ensures
            match data_of(self@, workload@) {
                Some(data) => yes == is_reply(data, subject@),
                None => !yes,
            },
    {
        match self.tracker.get_workload_data(workload) {
            Some(data) => data.pending.contains_key(subject) || data.tombstones.contains(subject),
            None => false,
        }
    }

    /// Lets no request of a workload wait on the subject any longer.
    fn settle(&mut self, workload: &str, subject: &str) -> (waiter: Option<
        (u64, u64, ReplySlot),
    >)
        requires
            old(self).wf(),
            data_of(old(self)@, workload@) is Some,
        ensures
            final(self).wf(),
            ({
                let data = data_of(old(self)@, workload@)->0;
                &&& final(self)@ == with_data(
                    old(self)@,
                    workload@,
                    WorkloadView {
                        pending: data.pending.remove(subject@),
                        tombstones: remembered(data.tombstones, subject@),
                        ..data
                    },
                )
                &&& match waiter {
                    Some((id, instance, slot)) => {
                        &&& slot@ == ready_slot()
                        &&& data.pending.contains_key(subject@)
                        &&& id == data.pending[subject@].id
                        &&& instance == data.instance
                    },
                    None => !data.pending.contains_key(subject@),
                }
            }),
    {
        let ghost before = *self;
        match self.tracker.workloads.get_mut(workload) {
            Some(item) => match &mut item.workload_data {
                Some(data) => {
                    let instance: u64 = data.instance;
                    let waiter = data.settle(subject);
                    proof {
                        let changed = self.tracker.items()[workload@].workload_data->0;
                        Self::lemma_data_changed(before, *self, workload@, changed);
                    }
                    match waiter {
                        Some((id, slot)) => Some((id, instance, slot)),
                        None => None,
                    }
                },
                None => None,
            },
            None => None,
        }
    }

    /// Publishes a message in a workload.
    pub fn publish_core(
        &mut self,
        workload: &str,
        message: HostMessage,
        origin: MessageOrigin,
    ) -> (result: Result<(), MessagingError>)
        requires
            old(self).wf(),
        ensures
            final(self).wf(),
            publishing(old(self)@, final(self)@, workload@, message@, origin, result),
    {
        match self.permit(workload) {
            Err(error) => {
                return Err(error);
            },
            Ok(()) => {},
        }
        let ghost before = self@;
        let ghost contents = message@;
        if self.expects(workload, message.subject.as_str()) {
            let waiter = self.settle(workload, message.subject.as_str());
            if origin == MessageOrigin::Guest {
                self.observe_message(workload, ObservedOperation::Reply, message.clone());
            }
            if let Some((id, instance, ready)) = waiter {
                let mut slot = ready;
                slot.send(to_routed(message));
                let answer = Answered { id, instance, slot };
                let ghost earlier = self@.answered;
                self.answered.push(answer);
                assert(self@.answered =~= earlier.push(answer@));
            }
            assert(self@ =~= replied(
                before,
                workload@,
                data_of(before, workload@)->0,
                contents,
                origin,
            ));
            return Ok(());
        }
        if origin == MessageOrigin::Guest {
            self.observe_message(workload, ObservedOperation::Publish, message.clone());
        }
        let envelope = Envelope {
            message,
            operation: ObservedOperation::Publish,
            origin,
            reply: None,
        };
        self.route_to_subscribers(workload, &envelope)
    }
}

/// Whether a text has the form of a random UUID: thirty-two small hexadecimal digits in five
/// groups, the first of the third group being `4`, and the first of the fourth `8`, `9`, `a` or
/// `b`.
pub open spec fn is_random_uuid(text: Seq<char>) -> bool {
    &&& text.len() == 36
    &&& text[14] == '4'
    &&& text[19] == '8' || text[19] == '9' || text[19] == 'a' || text[19] == 'b'
    &&& forall|i: int|
        0 <= i < 36 ==> if i == 8 || i == 13 || i == 18 || i == 23 {
            #[trigger] text[i] == '-'
        } else {
            ('0' <= text[i] <= '9') || ('a' <= text[i] <= 'f')
        }
}

/// Whether a text is the inbox of a request.
pub open spec fn is_inbox(text: Seq<char>) -> bool {
    exists|id: Seq<char>| #[trigger] is_random_uuid(id) && text == "_INBOX."@ + id
}

/// `uuid::Uuid::new_v4`, written out: a random UUID. Which one it is rests on chance.
#[verifier::external_body]
fn random_uuid() -> (id: String)
    ensures
        is_random_uuid(id@),
{
    uuid::Uuid::new_v4().to_string()
}

/// A fresh inbox.
fn new_inbox() -> (inbox: String)
    ensures
        is_inbox(inbox@),
{
    let id = random_uuid();
    let mut inbox = String::new();
    push_text(&mut inbox, "_INBOX.");
    push_text(&mut inbox, id.as_str());
    assert(inbox@ =~= "_INBOX."@ + id@);
    inbox
}

/// The answer at a place, and that no earlier one has its number.
proof fn lemma_answer_place(answered: Seq<AnsweredView>, id: u64)
    ensures
        0 <= answer_place(answered, id) <= answered.len(),
        answer_place(answered, id) < answered.len() ==> answered[answer_place(answered, id)].id
            == id,
        forall|i: int| 0 <= i < answer_place(answered, id) ==> (#[trigger] answered[i]).id != id,
    decreases answered.len(),
{
    if answered.len() == 0 || answered[0].id == id {
    } else {
        let rest = answered.drop_first();
        lemma_answer_place(rest, id);
        assert forall|i: int| 0 <= i < answer_place(answered, id) implies (
        #[trigger] answered[i]).id != id by {
            if i > 0 {
                assert(rest[i - 1] == answered[i]);
            }
        }
    }
}

/// How a look at a request ended.
pub enum RequestPoll {
    Waiting,
    Done(Result<HostMessage, MessagingError>),
}

/// What a look at a request showed.
pub open spec fn poll_outcome(poll: RequestPoll) -> Outcome {
    match poll {
        RequestPoll::Waiting => Outcome::Waiting,
        RequestPoll::Done(Ok(message)) => Outcome::Replied(message@),
        RequestPoll::Done(Err(error)) => Outcome::Failed(error),
    }
}

/// The number of a request that was started.
pub open spec fn request_number(result: Result<RequestTicket, MessagingError>) -> Result<
    u64,
    MessagingError,
> {
    match result {
        Ok(ticket) => Ok(ticket.id),
        Err(error) => Err(error),
    }
}

impl InMemoryMessaging {
    /// Lets a request of a workload wait on the inbox.
    fn enroll(&mut self, workload: &str, inbox: &str, id: u64)
        requires
            old(self).wf(),
            admission(old(self)@, workload@) is Ok,
        ensures
            final(self).wf(),
            ({
                let data = data_of(old(self)@, workload@)->0;
                final(self)@ == with_data(
                    old(self)@,
                    workload@,
                    WorkloadView {
                        pending: data.pending.insert(
                            inbox@,
                            PendingView { id, replies: Seq::empty() },
                        ),
                        tombstones: remembered(data.tombstones, inbox@),
                        ..data
                    },
                )
            }),
    {
        let ghost before = *self;
        match self.tracker.workloads.get_mut(workload) {
            Some(item) => match &mut item.workload_data {
                Some(data) => {
                    data.enroll(inbox, id);
                    proof {
                        let changed = self.tracker.items()[workload@].workload_data->0;
                        Self::lemma_data_changed(before, *self, workload@, changed);
                    }
                },
                None => {},
            },
            None => {},
        }
    }

    /// Lets no request of a workload wait on the inbox any longer.
    fn withdraw(&mut self, workload: &str, inbox: &str)
        requires
            old(self).wf(),
            data_of(old(self)@, workload@) is Some,
        ensures
            final(self).wf(),
            final(self)@ == unasked(old(self)@, workload@, inbox@),
    {
        let ghost before = *self;
        match self.tracker.workloads.get_mut(workload) {
            Some(item) => match &mut item.workload_data {
                Some(data) => {
                    data.withdraw(inbox);
                    proof {
                        let changed = self.tracker.items()[workload@].workload_data->0;
                        Self::lemma_data_changed(before, *self, workload@, changed);
                    }
                },
                None => {},
            },
            None => {},
        }
    }

    /// Starts a request whose reply is to come to `inbox`.
    pub fn begin_request(
        &mut self,
        workload: &str,
        message: HostMessage,
        origin: MessageOrigin,
        inbox: String,
    ) -> (result: Result<RequestTicket, MessagingError>)
        requires
            old(self).wf(),
        ensures
            final(self).wf(),
            requesting(
                old(self)@,
                final(self)@,
                workload@,
                message@,
                origin,
                inbox@,
                request_number(result),
            ),
            result matches Ok(ticket) ==> ticket@.workload == workload@ && ticket@.inbox == inbox@,
    {
        match self.permit(workload) {
            Err(error) => {
                return Err(error);
            },
            Ok(()) => {},
        }
        let ghost before = self@;
        let ghost contents = message@;
        let mut request = message;
        request.reply_to = Some(inbox.clone());
        assert(request@ == replying_to(contents, inbox@));
        let id: u64 = self.draw();
        assert(admission(self@, workload@) is Ok);
        self.enroll(workload, inbox.as_str(), id);
        let ticket = RequestTicket { workload: workload.to_string(), inbox, id };
        if origin == MessageOrigin::Guest {
            self.observe_message(workload, ObservedOperation::Request, request.clone());
            let call = Envelope {
                message: request.clone(),
                operation: ObservedOperation::Request,
                origin: MessageOrigin::Guest,
                reply: Some(ticket.duplicate()),
            };
            self.tell(workload, false, &call);
        }
        assert(self@ =~= asked(
            before,
            workload@,
            data_of(before, workload@)->0,
            contents,
            origin,
            ticket@.inbox,
        ));
        let envelope = Envelope {
            message: request,
            operation: ObservedOperation::Request,
            origin,
            reply: None,
        };
        match self.route_to_subscribers(workload, &envelope) {
            Ok(()) => Ok(ticket),
            Err(error) => {
                self.withdraw(workload, ticket.inbox.as_str());
                Err(error)
            },
        }
    }

    /// Starts a request, with a fresh inbox for its reply.
    pub fn request(&mut self, workload: &str, message: HostMessage, origin: MessageOrigin) -> (result:
        Result<RequestTicket, MessagingError>)
        requires
            old(self).wf(),
        ensures
            final(self).wf(),
            exists|inbox: Seq<char>| #[trigger]
                is_inbox(inbox) && requesting(
                    old(self)@,
                    final(self)@,
                    workload@,
                    message@,
                    origin,
                    inbox,
                    request_number(result),
                ) && (result matches Ok(ticket) ==> ticket@.workload == workload@ && ticket@.inbox
                    == inbox),
    {
        let inbox = new_inbox();
        let ghost name = inbox@;
        let result = self.begin_request(workload, message, origin, inbox);
        assert(is_inbox(name));
        result
    }

    /// Whether the request still waits.
    fn waits(&self, ticket: &RequestTicket) -> (yes: bool)
        ensures
            yes == waits(self@, ticket@.workload, ticket@.inbox, ticket@.id),
    {
        match self.tracker.get_workload_data(ticket.workload.as_str()) {
            Some(data) => match data.pending.get(ticket.inbox.as_str()) {
                Some(request) => request.id == ticket.id,
                None => false,
            },
            None => false,
        }
    }

    /// The oldest answer that is kept for a request, if there is any.
    fn kept_answer(&self, ticket: &RequestTicket) -> (answer: Option<HostMessage>)
        requires
            waits(self@, ticket@.workload, ticket@.inbox, ticket@.id),
        ensures
            ({
                let replies = data_of(self@, ticket@.workload)->0.pending[ticket@.inbox].replies;
                match answer {
                    Some(message) => replies.len() > 0 && message@ == replies[0],
                    None => replies.len() == 0,
                }
            }),
    {
        match self.tracker.get_workload_data(ticket.workload.as_str()) {
            Some(data) => match data.pending.get(ticket.inbox.as_str()) {
                Some(request) => if request.replies.len() > 0 {
                    assert(request@.replies[0] == request.replies@[0]@);
                    Some(request.replies[0].clone())
                } else {
                    None
                },
                None => None,
            },
            None => None,
        }
    }

    /// Takes out the reply to a request.
    fn take_answer(&mut self, id: u64) -> (answer: Option<RoutedMessage>)
        requires
            old(self).wf(),
        ensures
            final(self).wf(),
            final(self)@ == answer_removed(old(self)@, id),
            ({
                let place = answer_place(old(self)@.answered, id);
                match answer {
                    Some(reply) => place < old(self)@.answered.len() && reply@
                        == old(self)@.answered[place].reply,
                    None => place >= old(self)@.answered.len(),
                }
            }),
    {
        let n: usize = self.answered.len();
        let ghost before = *self;
        proof {
            lemma_answer_place(self@.answered, id);
        }
        let ghost place = answer_place(before@.answered, id);
        let mut i: usize = 0;
        while i < n && self.answered[i].id != id
            invariant
                i <= n,
                n == self.answered@.len(),
                *self == before,
                i <= place <= n,
                place < n ==> before@.answered[place].id == id,
                forall|j: int| 0 <= j < place ==> (#[trigger] before@.answered[j]).id != id,
            decreases n - i,
        {
            assert(before@.answered[i as int] == before.answered@[i as int]@);
            i = i + 1;
        }
        if i == n {
            return None;
        }
        assert(before@.answered[i as int] == before.answered@[i as int]@);
        let mut answer = self.answered.remove(i);
        assert(self@.answered =~= before@.answered.remove(i as int));
        answer.slot.take()
    }

    /// Looks whether a request is done.
    pub fn poll_request(&mut self, ticket: &RequestTicket) -> (poll: RequestPoll)
        requires
            old(self).wf(),
        ensures
            final(self).wf(),
            (poll_outcome(poll), final(self)@) == look(
                old(self)@,
                ticket@.workload,
                ticket@.inbox,
                ticket@.id,
            ),
    {
        let ghost before = self@;
        match self.take_answer(ticket.id) {
            Some(reply) => {
                return RequestPoll::Done(Ok(to_host(&reply)));
            },
            None => {},
        }
        if !self.waits(ticket) {
            return RequestPoll::Done(Err(MessagingError::Closed));
        }
        match self.kept_answer(ticket) {
            Some(answer) => {
                let mut reply = answer;
                reply.subject = ticket.inbox.clone();
                let ghost contents = reply@;
                self.settle(ticket.workload.as_str(), ticket.inbox.as_str());
                self.observe_message(
                    ticket.workload.as_str(),
                    ObservedOperation::Reply,
                    reply.clone(),
                );
                proof {
                    let data = data_of(before, ticket@.workload)->0;
                    let goal = BrokerView {
                        answered: before.answered,
                        ..replied(before, ticket@.workload, data, contents, MessageOrigin::Guest)
                    };
                    assert(self@ =~= goal);
                    assert(contents =~= (HostMessageView {
                        subject: ticket@.inbox,
                        ..data.pending[ticket@.inbox].replies[0]
                    }));
                }
                RequestPoll::Done(Ok(reply))
            },
            None => RequestPoll::Waiting,
        }
    }

    /// Gives a request up.
    pub fn cancel_request(&mut self, ticket: &RequestTicket)
        requires
            old(self).wf(),
        ensures
            final(self).wf(),
            final(self)@ == given_up(old(self)@, ticket@.workload, ticket@.inbox, ticket@.id),
    {
        let _ = self.take_answer(ticket.id);
        if self.waits(ticket) {
            self.withdraw(ticket.workload.as_str(), ticket.inbox.as_str());
        }
    }

    /// Gives a request up because its time has run out.
    pub fn expire_request(&mut self, ticket: &RequestTicket) -> (result: Result<
        HostMessage,
        MessagingError,
    >)
        requires
            old(self).wf(),
        ensures
            final(self).wf(),
            final(self)@ == given_up(old(self)@, ticket@.workload, ticket@.inbox, ticket@.id),
            result matches Err(error) && error == MessagingError::Timeout,
    {
        self.cancel_request(ticket);
        Err(MessagingError::Timeout)
    }

    /// Hands in a responder's answer to a request.
    pub fn answer(&mut self, ticket: RequestTicket, message: HostMessage) -> (result: Result<
        (),
        MessagingError,
    >)
        requires
            old(self).wf(),
        ensures
            final(self).wf(),
            (result, final(self)@) == answering(old(self)@, ticket@, message@),
    {
        let ghost before = *self;
        if self.waits(&ticket) {
            match self.tracker.workloads.get_mut(ticket.workload.as_str()) {
                Some(item) => match &mut item.workload_data {
                    Some(data) => {
                        data.keep_answer(ticket.inbox.as_str(), message);
                        proof {
                            let changed = self.tracker.items()[ticket@.workload].workload_data->0;
                            Self::lemma_data_changed(before, *self, ticket@.workload, changed);
                        }
                    },
                    None => {},
                },
                None => {},
            }
            return Ok(());
        }
        let n: usize = self.answered.len();
        proof {
            lemma_answer_place(self@.answered, ticket@.id);
        }
        for i in 0..n
            invariant
                n == self.answered@.len(),
                *self == before,
                before == *old(self),
                before.wf(),
                !waits(before@, ticket@.workload, ticket@.inbox, ticket@.id),
                i <= answer_place(before@.answered, ticket@.id),
                answer_place(before@.answered, ticket@.id) <= n,
                answer_place(before@.answered, ticket@.id) < n ==> before@.answered[answer_place(
                    before@.answered,
                    ticket@.id,
                )].id == ticket@.id,
                forall|j: int|
                    0 <= j < answer_place(before@.answered, ticket@.id) ==> (
                    #[trigger] before@.answered[j]).id != ticket@.id,
        {
            assert(before@.answered[i as int] == before.answered@[i as int]@);
            if self.answered[i].id == ticket.id {
                return Ok(());
            }
        }
        Err(MessagingError::Closed)
    }
}

/// The number of a state, as error messages give it.
pub open spec fn lifecycle_number(lifecycle: Lifecycle) -> nat {
    match lifecycle {
        Lifecycle::Reserved => 0,
        Lifecycle::Bound => 1,
        Lifecycle::Closing => 2,
        Lifecycle::Closed => 3,
    }
}

/// Why a workload or a component could not be served.
#[derive(Clone, Copy, Debug, PartialEq, Eq, Structural)]
pub enum ServiceError {
    WrongState(Lifecycle),
    AlreadyStarted,
}

impl ServiceError {
    /// The words for this error.
    pub open spec fn words(self) -> Seq<char> {
        match self {
            ServiceError::WrongState(lifecycle) => {
                "workload cannot be bound from lifecycle state "@ + decimal(
                    lifecycle_number(lifecycle),
                )
            },
            ServiceError::AlreadyStarted => "messaging processor already started"@,
        }
    }

    /// The words for this error.
    pub fn text(&self) -> (text: String)
        ensures
            text@ == self.words(),
    {
        match self {
            ServiceError::WrongState(lifecycle) => {
                let number: u64 = match lifecycle {
                    Lifecycle::Reserved => 0,
                    Lifecycle::Bound => 1,
                    Lifecycle::Closing => 2,
                    Lifecycle::Closed => 3,
                };
                let mut text = "workload cannot be bound from lifecycle state ".to_string();
                push_decimal(&mut text, number);
                text
            },
            ServiceError::AlreadyStarted => "messaging processor already started".to_string(),
        }
    }
}

/// Whether a workload asks for messaging.
pub open spec fn asks_for_messaging(interfaces: Seq<WitInterface>) -> bool {
    exists|i: int|
        0 <= i < interfaces.len() && of_package(
            (#[trigger] interfaces[i])@,
            "wasmcloud"@,
            "messaging"@,
        )
}

/// Whether a workload asks for messaging.
pub fn wants_messaging(interfaces: &[WitInterface]) -> (yes: bool)
    ensures
        yes == asks_for_messaging(interfaces@),
{
    match find_package(interfaces, "wasmcloud", "messaging") {
        Some(_) => true,
        None => false,
    }
}

impl InMemoryMessaging {
    /// Binds a workload that asks for messaging.
    pub fn on_workload_bind(&mut self, workload: &str, interfaces: &[WitInterface]) -> (result:
        Result<(), ServiceError>)
        requires
            old(self).wf(),
        ensures
            final(self).wf(),
            if asks_for_messaging(interfaces@) {
                let (outcome, after) = binding(old(self)@, workload@);
                &&& final(self)@ == after
                &&& match outcome {
                    Ok(()) => result is Ok,
                    Err(lifecycle) => result == Err::<(), ServiceError>(
                        ServiceError::WrongState(lifecycle),
                    ),
                }
            } else {
                result is Ok && final(self)@ == old(self)@
            },
    {
        if !wants_messaging(interfaces) {
            return Ok(());
        }
        let ghost before = *self;
        match self.tracker.get_workload_data(workload) {
            Some(data) => {
                let lifecycle = data.lifecycle;
                match lifecycle {
                    Lifecycle::Reserved => {},
                    _ => {
                        return Err(ServiceError::WrongState(lifecycle));
                    },
                }
            },
            None => {
                self.start(workload.to_string(), Lifecycle::Bound);
                return Ok(());
            },
        }
        match self.tracker.workloads.get_mut(workload) {
            Some(item) => match &mut item.workload_data {
                Some(data) => {
                    data.lifecycle = Lifecycle::Bound;
                    proof {
                        let changed = self.tracker.items()[workload@].workload_data->0;
                        Self::lemma_data_changed(before, *self, workload@, changed);
                    }
                },
                None => {},
            },
            None => {},
        }
        Ok(())
    }

    /// Lets nothing more come to the listeners of a workload.
    fn end_listeners(&mut self, workload: &str)
        requires
            old(self).wf(),
        ensures
            final(self).wf(),
            final(self).tracker == old(self).tracker,
            final(self)@ == (BrokerView {
                listeners: ended_for(old(self)@.listeners, workload@),
                ..old(self)@
            }),
    {
        let n: usize = self.listeners.len();
        let ghost before = *self;
        let ghost goal = ended_for(before@.listeners, workload@);
        let mut i: usize = 0;
        while i < n
            invariant
                i <= n,
                n == self.listeners@.len(),
                n == before.listeners@.len(),
                goal == ended_for(before@.listeners, workload@),
                self.tracker == before.tracker,
                self.answered == before.answered,
                self.next == before.next,
                forall|j: int| 0 <= j < i ==> (#[trigger] self.listeners@[j])@ == goal[j],
                forall|j: int| i <= j < n ==> #[trigger] self.listeners@[j] == before.listeners@[j],
            decreases n - i,
        {
            assert(self.listeners@[i as int] == before.listeners@[i as int]);
            assert(before@.listeners[i as int] == before.listeners@[i as int]@);
            if same_text(self.listeners[i].workload.as_str(), workload) {
                self.listeners[i].ended = true;
            }
            assert(self.listeners@[i as int]@ == goal[i as int]);
            i = i + 1;
        }
        assert(self@.listeners =~= goal);
    }

    /// Closes a workload.
    pub fn close_workload(&mut self, workload: &str) -> (result: Result<(), MessagingError>)
        requires
            old(self).wf(),
        ensures
            final(self).wf(),
            (result, final(self)@) == closing(old(self)@, workload@),
    {
        let ghost before = *self;
        let already = match self.tracker.get_workload_data(workload) {
            Some(data) => match data.lifecycle {
                Lifecycle::Closed => true,
                _ => false,
            },
            None => {
                return Err(MessagingError::Closed);
            },
        };
        match self.tracker.workloads.get_mut(workload) {
            Some(item) => match &mut item.workload_data {
                Some(data) => {
                    if already {
                        data.lifecycle = Lifecycle::Closing;
                    } else {
                        data.lifecycle = Lifecycle::Closed;
                        data.pending = Table::new();
                        assert(pending_views(data.pending@) =~= Map::<
                            Seq<char>,
                            PendingView,
                        >::empty());
                    }
                    proof {
                        let changed = self.tracker.items()[workload@].workload_data->0;
                        Self::lemma_data_changed(before, *self, workload@, changed);
                    }
                },
                None => {},
            },
            None => {},
        }
        if !already {
            self.end_listeners(workload);
        }
        Ok(())
    }

    /// Lets a workload go, and names its components, which are to stop.
    pub fn on_workload_unbind(&mut self, workload: &str) -> (components: Vec<String>)
        requires
            old(self).wf(),
        ensures
            final(self).wf(),
            final(self)@ == unbound(old(self)@, workload@),
            texts(components@).no_duplicates(),
            forall|id: Seq<char>| #[trigger]
                texts(components@).contains(id) == components_of(
                    old(self)@,
                    workload@,
                ).contains_key(id),
    {
        let ghost before = *self;
        match self.tracker.remove_workload(workload) {
            Some(item) => {
                proof {
                    assert(self@.workloads =~= before@.workloads.remove(workload@));
                    assert forall|id: Seq<char>| #[trigger]
                        self.tracker.items().contains_key(id) implies data_wf(
                        self.tracker.items()[id].workload_data,
                    ) by {
                        assert(before.tracker.items().contains_key(id));
                    }
                    assert(component_views(item.components@).dom() =~= item.components@.dom());
                }
                self.end_listeners(workload);
                assert(before@.workloads.contains_key(workload@));
                assert(self@ =~= unbound(before@, workload@));
                item.components.keys()
            },
            None => {
                let components: Vec<String> = Vec::new();
                assert(self@ =~= unbound(before@, workload@)) by {
                    assert(before.tracker.items().remove(workload@) =~= before.tracker.items());
                }
                assert(texts(components@) =~= Seq::<Seq<char>>::empty());
                components
            },
        }
    }
}

/// A message that is being handled in a workload.
#[derive(Debug, PartialEq, Eq)]
pub struct Activity {
    pub workload: String,
    pub instance: u64,
}

/// How an attempt to fetch a component's next message ended.
pub enum NextMessage {
    Message(RoutedMessage, Option<Activity>),
    Nothing,
    Stopped,
}

/// What fetching a component's next message comes to. A message counts as running from then on
/// in the workload that it came through; while as many run as can be counted, no more is fetched.
pub open spec fn fetching(
    before: BrokerView,
    after: BrokerView,
    component: Seq<char>,
    out: NextMessage,
) -> bool {
    if !has_component(before, component) {
        out is Stopped && after == before
    } else {
        let inbox = component_of(before, component).inbox;
        let data = data_of(before, before.components[component]);
        if data is Some && data->0.running == u64::MAX {
            out is Nothing && after == before
        } else if inbox.items.len() == 0 {
            &&& after == before
            &&& if inbox.closed {
                out is Stopped
            } else {
                out is Nothing
            }
        } else {
            &&& after == message_taken(before, component)
            &&& match out {
                NextMessage::Message(message, activity) => {
                    &&& message@ == routed_form(inbox.items[0].message)
                    &&& match activity {
                        Some(activity) => data is Some && activity.instance == data->0.instance
                            && activity.workload@ == before.components[component],
                        None => data is None,
                    }
                },
                _ => false,
            }
        }
    }
}

impl InMemoryMessaging {
    /// Something else kept of a component makes up another broker.
    proof fn lemma_component_changed(
        before: Self,
        after: Self,
        component: Seq<char>,
        data: ComponentData,
    )
        requires
            before.wf(),
            has_component(before@, component),
            after.tracker.wf(),
            ({
                let workload = before.tracker.index()[component];
                let item = before.tracker.items()[workload];
                &&& after.tracker.items().dom() =~= before.tracker.items().dom()
                &&& after.tracker.items()[workload].workload_data == item.workload_data
                &&& after.tracker.items()[workload].components@ == item.components@.insert(
                    component,
                    data,
                )
                &&& forall|id: Seq<char>|
                    id != workload && #[trigger] before.tracker.items().contains_key(id)
                        ==> after.tracker.items()[id] == before.tracker.items()[id]
            }),
            after.tracker.components == before.tracker.components,
            after.listeners == before.listeners,
            after.answered == before.answered,
            after.next == before.next,
        ensures
            after.wf(),
            after@ == with_component(before@, component, data@),
    {
        let workload = before.tracker.index()[component];
        let item = before.tracker.items()[workload];
        assert(component_views(item.components@.insert(component, data)) =~= component_views(
            item.components@,
        ).insert(component, data@));
        assert forall|id: Seq<char>| #[trigger] after.tracker.items().contains_key(id) implies data_wf(
            after.tracker.items()[id].workload_data,
        ) by {
            assert(before.tracker.items().contains_key(id));
        }
        let goal = with_component(before@, component, data@);
        assert forall|id: Seq<char>| #[trigger]
            after@.workloads.contains_key(id) implies after@.workloads[id] == goal.workloads[id] by {
            assert(before.tracker.items().contains_key(id));
        }
        assert(after@.workloads =~= goal.workloads);
    }

    /// Binds a component of a workload that asks for messaging, and says whether it does. One
    /// that handles messages gets an inbox for the subjects of its `subscriptions` setting.
    pub fn on_workload_item_bind(
        &mut self,
        workload: &str,
        component: &str,
        interfaces: &[WitInterface],
        world: &WitWorld,
        subscriptions: Option<&str>,
    ) -> (linked: bool)
        requires
            old(self).wf(),
        ensures
            final(self).wf(),
            linked == asks_for_messaging(interfaces@),
            final(self)@ == (if linked && some_covers(world.exports@, handler_names()) {
                component_added(
                    old(self)@,
                    workload@,
                    component@,
                    subscription_list(optional_str(subscriptions)),
                    MAX_QUEUE_SIZE as nat,
                )
            } else {
                old(self)@
            }),
    {
        if !wants_messaging(interfaces) {
            return false;
        }
        let subjects = parse_subscriptions(subscriptions);
        if exports_messaging_handler(world) {
            let ghost before = *self;
            let data = ComponentData {
                subscriptions: subjects,
                inbox: MessageQueue::new(MAX_QUEUE_SIZE),
                started: false,
            };
            self.tracker.add_component(workload.to_string(), component.to_string(), data);
            proof {
                let goal = component_added(
                    before@,
                    workload@,
                    component@,
                    subscription_list(optional_str(subscriptions)),
                    MAX_QUEUE_SIZE as nat,
                );
                let items = before.tracker.items();
                assert forall|id: Seq<char>| #[trigger]
                    self.tracker.items().contains_key(id) implies data_wf(
                    self.tracker.items()[id].workload_data,
                ) by {
                    assert(items.contains_key(id) || id == workload@);
                }
                let earlier = if items.contains_key(workload@) {
                    items[workload@].components@
                } else {
                    Map::<Seq<char>, ComponentData>::empty()
                };
                assert(component_views(earlier) =~= components_of(before@, workload@));
                assert(component_views(earlier.insert(component@, data)) =~= component_views(
                    earlier,
                ).insert(component@, data@));
                assert forall|id: Seq<char>| #[trigger]
                    self@.workloads.contains_key(id) implies self@.workloads[id]
                    == goal.workloads[id] by {
                    if id != workload@ {
                        assert(items.contains_key(id));
                    }
                }
                assert(self@.workloads =~= goal.workloads);
                assert(self@ =~= goal);
            }
        }
        true
    }

    /// Starts to process the messages of a component, if the broker serves it: says whether it
    /// does, and fails where its messages are processed already.
    pub fn on_workload_resolved(&mut self, component: &str) -> (result: Result<bool, ServiceError>)
        requires
            old(self).wf(),
        ensures
            final(self).wf(),
            if !has_component(old(self)@, component@) {
                result == Ok::<bool, ServiceError>(false) && final(self)@ == old(self)@
            } else if component_of(old(self)@, component@).started {
                result == Err::<bool, ServiceError>(ServiceError::AlreadyStarted) && final(self)@
                    == old(self)@
            } else {
                result == Ok::<bool, ServiceError>(true) && final(self)@ == with_component(
                    old(self)@,
                    component@,
                    ComponentView { started: true, ..component_of(old(self)@, component@) },
                )
            },
    {
        let ghost before = *self;
        match self.tracker.get_component_data(component) {
            None => {
                return Ok(false);
            },
            Some(data) => {
                if data.started {
                    return Err(ServiceError::AlreadyStarted);
                }
            },
        }
        let workload = self.workload_of(component);
        match self.tracker.workloads.get_mut(workload.as_str()) {
            Some(item) => match item.components.get_mut(component) {
                Some(data) => {
                    data.started = true;
                    proof {
                        let changed = self.tracker.items()[workload@].components@[component@];
                        Self::lemma_component_changed(before, *self, component@, changed);
                    }
                },
                None => {},
            },
            None => {},
        }
        Ok(true)
    }

    /// The workload of a component.
    fn workload_of(&self, component: &str) -> (workload: String)
        requires
            has_component(self@, component@),
        ensures
            workload@ == self@.components[component@],
    {
        match self.tracker.components.get(component) {
            Some(workload) => workload.clone(),
            None => String::new(),
        }
    }

    /// Fetches the next message of a component.
    pub fn next_message(&mut self, component: &str) -> (out: NextMessage)
        requires
            old(self).wf(),
        ensures
            final(self).wf(),
            fetching(old(self)@, final(self)@, component@, out),
    {
        let ghost before = *self;
        match self.tracker.get_component_data(component) {
            None => {
                return NextMessage::Stopped;
            },
            Some(_) => {},
        }
        let workload = self.workload_of(component);
        let activity: Option<Activity> = match self.tracker.get_workload_data(workload.as_str()) {
            Some(data) => {
                if data.running == u64::MAX {
                    return NextMessage::Nothing;
                }
                Some(Activity { workload: workload.clone(), instance: data.instance })
            },
            None => None,
        };
        let mut out = Taken::Empty;
        match self.tracker.workloads.get_mut(workload.as_str()) {
            Some(item) => match item.components.get_mut(component) {
                Some(data) => {
                    out = data.inbox.take();
                    proof {
                        let changed = self.tracker.items()[workload@].components@[component@];
                        Self::lemma_component_changed(before, *self, component@, changed);
                        let old_component = component_of(before@, component@);
                        assert(changed@ == (ComponentView {
                            inbox: taken(old_component.inbox),
                            ..old_component
                        }));
                        if old_component.inbox.items.len() == 0 {
                            let own = before@.workloads[workload@];
                            assert(own.components.insert(component@, old_component)
                                =~= own.components);
                            assert(self@ =~= before@);
                        }
                    }
                },
                None => {},
            },
            None => {},
        }
        match out {
            Taken::Item(envelope) => {
                let ghost midway = *self;
                match self.tracker.workloads.get_mut(workload.as_str()) {
                    Some(item) => match &mut item.workload_data {
                        Some(data) => {
                            data.running = data.running + 1;
                            proof {
                                let changed = self.tracker.items()[workload@].workload_data->0;
                                Self::lemma_data_changed(midway, *self, workload@, changed);
                            }
                        },
                        None => {
                            assert(self.tracker.items() =~= midway.tracker.items());
                        },
                    },
                    None => {},
                }
                assert(self@ =~= message_taken(before@, component@));
                NextMessage::Message(to_routed(envelope.message), activity)
            },
            Taken::Empty => NextMessage::Nothing,
            Taken::Ended => NextMessage::Stopped,
        }
    }

    /// Notes that a message was handled.
    pub fn finish(&mut self, activity: Activity)
        requires
            old(self).wf(),
        ensures
            final(self).wf(),
            final(self)@ == handled(old(self)@, activity.workload@, activity.instance),
    {
        let ghost before = *self;
        let counts = match self.tracker.get_workload_data(activity.workload.as_str()) {
            Some(data) => data.instance == activity.instance && data.running > 0,
            None => false,
        };
        if counts {
            match self.tracker.workloads.get_mut(activity.workload.as_str()) {
                Some(item) => match &mut item.workload_data {
                    Some(data) => {
                        data.running = data.running - 1;
                        proof {
                            let changed = self.tracker.items()[activity.workload@].workload_data->0;
                            Self::lemma_data_changed(before, *self, activity.workload@, changed);
                        }
                    },
                    None => {},
                },
                None => {},
            }
        }
    }

    /// Gives up the inbox of a component whose messages cannot be processed.
    pub fn abandon(&mut self, component: &str)
        requires
            old(self).wf(),
        ensures
            final(self).wf(),
            final(self)@ == abandoned(old(self)@, component@),
    {
        let ghost before = *self;
        match self.tracker.get_component_data(component) {
            None => {
                return ;
            },
            Some(_) => {},
        }
        let workload = self.workload_of(component);
        match self.tracker.workloads.get_mut(workload.as_str()) {
            Some(item) => match item.components.get_mut(component) {
                Some(data) => {
                    data.inbox.abandon();
                    proof {
                        let changed = self.tracker.items()[workload@].components@[component@];
                        Self::lemma_component_changed(before, *self, component@, changed);
                    }
                },
                None => {},
            },
            None => {},
        }
    }
}

/// An observer's end of what the guests of a workload send.
#[derive(Debug, PartialEq, Eq)]
pub struct ObservationReceiver {
    pub id: u64,
}

/// A responder's end of the requests that match its pattern.
#[derive(Debug, PartialEq, Eq)]
pub struct ResponderReceiver {
    pub id: u64,
}

/// A request as a responder receives it.
#[derive(Debug, PartialEq, Eq)]
pub struct ResponderRequest {
    pub message: HostMessage,
    pub reply: Option<RequestTicket>,
}

/// How an attempt to receive ended: with something, with nothing yet, or with nothing ever again.
pub enum Received<T> {
    Item(T),
    Pending,
    Ended,
}

/// What an observer received.
pub open spec fn observation(out: Received<ObservedMessage>, from: Taken) -> bool {
    match (out, from) {
        (Received::Item(observed), Taken::Item(envelope)) => {
            &&& observed.operation == envelope.operation
            &&& observed.origin == envelope.origin
            &&& observed.message@ == envelope@.message
        },
        (Received::Pending, Taken::Empty) => true,
        (Received::Ended, Taken::Ended) => true,
        _ => false,
    }
}

/// What a responder received.
pub open spec fn request_received(out: Received<ResponderRequest>, from: Taken) -> bool {
    match (out, from) {
        (Received::Item(request), Taken::Item(envelope)) => {
            &&& request.message@ == envelope@.message
            &&& optional_ticket(request.reply) == envelope@.reply
        },
        (Received::Pending, Taken::Empty) => true,
        (Received::Ended, Taken::Ended) => true,
        _ => false,
    }
}

impl InMemoryMessaging {
    /// Observes what the guests of a workload send, at most `capacity` messages ahead, and at
    /// least one.
    pub fn observe(&mut self, workload: &str, capacity: usize) -> (result: Result<
        ObservationReceiver,
        MessagingError,
    >)
        requires
            old(self).wf(),
            capacity <= usize::MAX / 8,
        ensures
            final(self).wf(),
            match admission(old(self)@, workload@) {
                Ok(_) => {
                    &&& result matches Ok(receiver) && receiver.id == old(self)@.next
                    &&& final(self)@ == listening(
                        old(self)@,
                        workload@,
                        None,
                        at_least_one(capacity),
                    )
                },
                Err(error) => {
                    &&& result matches Err(e) && e == error
                    &&& final(self)@ == old(self)@
                },
            },
    {
        match self.listen(workload, None, capacity) {
            Ok(id) => Ok(ObservationReceiver { id }),
            Err(error) => Err(error),
        }
    }

    /// Responds to the requests of the guests of a workload that match `subject`, at most
    /// `capacity` requests ahead, and at least one.
    pub fn register_responder(&mut self, workload: &str, subject: String, capacity: usize) -> (result:
        Result<ResponderReceiver, MessagingError>)
        requires
            old(self).wf(),
            capacity <= usize::MAX / 8,
        ensures
            final(self).wf(),
            match admission(old(self)@, workload@) {
                Ok(_) => {
                    &&& result matches Ok(receiver) && receiver.id == old(self)@.next
                    &&& final(self)@ == listening(
                        old(self)@,
                        workload@,
                        Some(subject@),
                        at_least_one(capacity),
                    )
                },
                Err(error) => {
                    &&& result matches Err(e) && e == error
                    &&& final(self)@ == old(self)@
                },
            },
    {
        match self.listen(workload, Some(subject), capacity) {
            Ok(id) => Ok(ResponderReceiver { id }),
            Err(error) => Err(error),
        }
    }

    /// Forgets a listener.
    fn forget_listener(&mut self, id: u64)
        requires
            old(self).wf(),
        ensures
            final(self).wf(),
            final(self)@ == listener_removed(old(self)@, id),
    {
        let n: usize = self.listeners.len();
        let ghost before = *self;
        proof {
            lemma_listener_place(self@.listeners, id);
        }
        let ghost place = listener_place(before@.listeners, id);
        let mut i: usize = 0;
        while i < n && self.listeners[i].id != id
            invariant
                i <= n,
                n == self.listeners@.len(),
                *self == before,
                i <= place <= n,
                place < n ==> before@.listeners[place].id == id,
                forall|j: int| 0 <= j < place ==> (#[trigger] before@.listeners[j]).id != id,
            decreases n - i,
        {
            assert(before@.listeners[i as int] == before.listeners@[i as int]@);
            i = i + 1;
        }
        if i < n {
            assert(before@.listeners[i as int] == before.listeners@[i as int]@);
            let _ = self.listeners.remove(i);
            assert(self@.listeners =~= before@.listeners.remove(i as int));
        }
    }

    /// Whether nothing is under way in a workload that is bound: no message is handled or waits to
    /// be, and no request waits for its reply or its requester.
    pub fn is_idle(&self, workload: &str) -> (result: Result<bool, MessagingError>)
        requires
            self.wf(),
        ensures
            match admission(self@, workload@) {
                Ok(data) => result == Ok::<bool, MessagingError>(idle(self@, workload@, data)),
                Err(error) => result == Err::<bool, MessagingError>(error),
            },
    {
        match self.permit(workload) {
            Err(error) => Err(error),
            Ok(()) => Ok(self.is_quiet(workload)),
        }
    }

    /// Whether nothing is under way in a workload, whatever its state. Nothing is in one that is
    /// not there.
    pub fn is_quiet(&self, workload: &str) -> (quiet: bool)
        requires
            self.wf(),
        ensures
            quiet == (match data_of(self@, workload@) {
                Some(data) => idle(self@, workload@, data),
                None => true,
            }),
    {
        match self.tracker.get_workload_data(workload) {
            Some(_) => {},
            None => {
                return true;
            },
        }
        let ghost data = data_of(self@, workload@)->0;
        match self.tracker.workloads.get(workload) {
            Some(item) => {
                match &item.workload_data {
                    Some(own) => {
                        if own.running != 0 {
                            return false;
                        }
                        if own.pending.len() != 0 {
                            proof {
                                own.pending.lemma_entry(0);
                                let inbox = own.pending.listing()[0].0;
                                assert(data.pending.contains_key(inbox));
                            }
                            return false;
                        }
                        assert(data.pending =~= Map::<Seq<char>, PendingView>::empty()) by {
                            assert forall|inbox: Seq<char>| !(#[trigger] data.pending.contains_key(
                                inbox,
                            )) by {
                                if data.pending.contains_key(inbox) {
                                    let i = own.pending.lemma_key(inbox);
                                }
                            }
                        }
                        let n: usize = self.answered.len();
                        for i in 0..n
                            invariant
                                n == self.answered@.len(),
                                own.instance == data.instance,
                                data_of(self@, workload@) == Some(data),
                                forall|j: int|
                                    0 <= j < i ==> (#[trigger] self@.answered[j]).instance
                                        != data.instance,
                        {
                            assert(self@.answered[i as int] == self.answered@[i as int]@);
                            if self.answered[i].instance == own.instance {
                                return false;
                            }
                        }
                    },
                    None => {},
                }
                let m: usize = item.components.len();
                let ghost views = components_of(self@, workload@);
                for i in 0..m
                    invariant
                        m == item.components.listing().len(),
                        item.components.wf(),
                        views == component_views(item.components@),
                        views == components_of(self@, workload@),
                        data_of(self@, workload@) == Some(data),
                        forall|j: int|
                            0 <= j < i ==> (
                            #[trigger] item.components.listing()[j]).1@.inbox.items.len() == 0,
                {
                    let component = item.components.value_at(i);
                    if !component.inbox.is_empty() {
                        proof {
                            item.components.lemma_entry(i as int);
                            let id = item.components.listing()[i as int].0;
                            assert(views.contains_key(id));
                        }
                        return false;
                    }
                }
                assert forall|id: Seq<char>| #[trigger] views.contains_key(id) implies views[id].inbox.items.len()
                    == 0 by {
                    let j = item.components.lemma_key(id);
                }
                true
            },
            None => true,
        }
    }

    /// Publishes a message that no guest sent, and says in words why it could not.
    pub fn publish(&mut self, workload: &str, subject: &str, body: Vec<u8>) -> (result: Result<
        (),
        String,
    >)
        requires
            old(self).wf(),
        ensures
            final(self).wf(),
            exists|outcome: Result<(), MessagingError>|
                {
                    &&& #[trigger] publishing(
                        old(self)@,
                        final(self)@,
                        workload@,
                        HostMessageView {
                            subject: subject@,
                            reply_to: None,
                            body: body@,
                            trace_context: None,
                        },
                        MessageOrigin::HostInjected,
                        outcome,
                    )
                    &&& match (outcome, result) {
                        (Ok(()), Ok(())) => true,
                        (Err(error), Err(text)) => text@ == error_text(error),
                        _ => false,
                    }
                },
    {
        let message = HostMessage {
            subject: subject.to_string(),
            reply_to: None,
            body,
            trace_context: None,
        };
        match self.publish_core(workload, message, MessageOrigin::HostInjected) {
            Ok(()) => Ok(()),
            Err(error) => Err(error.text().to_string()),
        }
    }
}

impl Default for InMemoryMessaging {
    fn default() -> (broker: InMemoryMessaging)
        ensures
            broker.wf(),
            broker@ == empty_broker(),
    {
        InMemoryMessaging::new()
    }
}

impl ObservationReceiver {
    /// Receives the next message that a guest of the observed workload sent.
    pub fn recv(&self, broker: &mut InMemoryMessaging) -> (out: Received<ObservedMessage>)
        requires
            old(broker).wf(),
        ensures
            final(broker).wf(),
            exists|from: Taken| #[trigger]
                listener_poll(old(broker)@, final(broker)@, self.id, from) && observation(out, from),
    {
        let from = broker.take_from_listener(self.id);
        let ghost taken = from;
        let out = match from {
            Taken::Item(envelope) => Received::Item(
                ObservedMessage {
                    operation: envelope.operation,
                    origin: envelope.origin,
                    message: envelope.message,
                },
            ),
            Taken::Empty => Received::Pending,
            Taken::Ended => Received::Ended,
        };
        assert(observation(out, taken));
        out
    }

    /// Stops to observe.
    pub fn release(self, broker: &mut InMemoryMessaging)
        requires
            old(broker).wf(),
        ensures
            final(broker).wf(),
            final(broker)@ == listener_removed(old(broker)@, self.id),
    {
        broker.forget_listener(self.id);
    }
}

impl ResponderReceiver {
    /// Receives the next request of a guest of the workload that matches the pattern.
    pub fn recv(&self, broker: &mut InMemoryMessaging) -> (out: Received<ResponderRequest>)
        requires
            old(broker).wf(),
        ensures
            final(broker).wf(),
            exists|from: Taken| #[trigger]
                listener_poll(old(broker)@, final(broker)@, self.id, from) && request_received(
                    out,
                    from,
                ),
    {
        let from = broker.take_from_listener(self.id);
        let ghost taken = from;
        let out = match from {
            Taken::Item(envelope) => Received::Item(
                ResponderRequest { message: envelope.message, reply: envelope.reply },
            ),
            Taken::Empty => Received::Pending,
            Taken::Ended => Received::Ended,
        };
        assert(request_received(out, taken));
        out
    }

    /// Stops to respond.
    pub fn release(self, broker: &mut InMemoryMessaging)
        requires
            old(broker).wf(),
        ensures
            final(broker).wf(),
            final(broker)@ == listener_removed(old(broker)@, self.id),
    {
        broker.forget_listener(self.id);
    }
}

impl ResponderRequest {
    /// Replies to the request. One whose reply was sent before is refused, and so is one that
    /// nobody waits for any longer.
    pub fn reply(self, broker: &mut InMemoryMessaging, message: HostMessage) -> (result: Result<
        (),
        MessagingError,
    >)
        requires
            old(broker).wf(),
        ensures
            final(broker).wf(),
            match self.reply {
                Some(ticket) => (result, final(broker)@) == answering(
                    old(broker)@,
                    ticket@,
                    message@,
                ),
                None => {
                    &&& result == Err::<(), MessagingError>(MessagingError::AlreadyReplied)
                    &&& final(broker)@ == old(broker)@
                },
            },
    {
        match self.reply {
            Some(ticket) => broker.answer(ticket, message),
            None => Err(MessagingError::AlreadyReplied),
        }
    }
}

} // verus!
