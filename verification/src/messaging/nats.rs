//! Messaging over NATS: what components subscribe to, and the headers of messages.
use vstd::prelude::*;

use crate::messaging::consumer_group::default_group;
use crate::messaging::consumer_group::group_name;
use crate::messaging::consumer_group::BROADCAST_CONSUMER_GROUP;
use crate::messaging::consumer_group::CONSUMER_GROUP_CONFIG;
use crate::messaging::consumer_group::ConsumerGroup;
use crate::messaging::consumer_group::ConsumerGroupError;
use crate::messaging::consumer_group::ConsumerGroupView;
use crate::messaging::handler::exports_messaging_handler;
use crate::messaging::handler::handler_names;
use crate::messaging::handler::messaging_world;
use crate::messaging::handler::PLUGIN_MESSAGING_ID;
use crate::messaging::message::optional_propagation;
use crate::messaging::report::optional_span;
use crate::messaging::report::parent_from;
use crate::messaging::subject::law_listed_subjects_are_clean;
use crate::messaging::subject::parse_subscriptions;
use crate::messaging::subject::subscription_list;
use crate::nats::headers::first_value;
use crate::nats::headers::header;
use crate::nats::headers::header_values;
use crate::nats::headers::new_headers;
use crate::nats::headers::set_header;
use crate::nats::trace::carried;
use crate::nats::trace::carried_context;
use crate::nats::trace::lemma_parent_text_is_one_line;
use crate::nats::trace::lemma_trace_header_names;
use crate::propagation::context_from_propagation;
use crate::propagation::identifies;
use crate::propagation::inject_context;
use crate::propagation::injected;
use crate::propagation::one_line;
use crate::propagation::propagated;
use crate::propagation::state_header;
use crate::propagation::state_members;
use crate::propagation::PropagationContext;
use crate::propagation::SpanContext;
use crate::propagation::SpanContextView;
use crate::propagation::TraceContextView;
use crate::table::Table;
use crate::text::optional_str;
use crate::text::push_text;
use crate::text::texts;
use crate::tracker::WorkloadTracker;
use crate::tracker::WorkloadTrackerItem;
use crate::wit::find_package;
use crate::wit::of_package;
use crate::wit::some_covers;
use crate::wit::written_as;
use crate::wit::WitInterface;
use crate::wit::WitWorld;

verus! {

// ---------------------------------------------------------------------------
// Headers
// ---------------------------------------------------------------------------

/// The values that the headers of a propagated context hold under a name.
pub open spec fn context_values(context: TraceContextView, name: Seq<char>) -> Seq<Seq<char>> {
    if name == "traceparent"@ && context.traceparent.len() > 0 {
        seq![context.traceparent]
    } else if name == "tracestate"@ && context.tracestate is Some {
        seq![context.tracestate->0]
    } else {
        Seq::empty()
    }
}

/// Headers that carry a context and nothing else.
pub fn headers_for(context: &PropagationContext) -> (headers: async_nats::HeaderMap)
    requires
        one_line(context@.traceparent),
        context@.tracestate matches Some(state) ==> one_line(state),
    ensures
        forall|name: Seq<char>| #[trigger]
            header_values(headers, name) == context_values(context@, name),
{
    let mut headers = new_headers();
    proof {
        lemma_trace_header_names();
        assert(forall|name: Seq<char>| #[trigger]
            header_values(headers, name) =~= Seq::<Seq<char>>::empty());
    }
    if context.traceparent.as_str().as_bytes().len() > 0 {
        assert(context@.traceparent.len() > 0) by {
            if context@.traceparent.len() == 0 {
                assert(vstd::utf8::encode_utf8(context@.traceparent).len() == 0);
            }
        }
        set_header(&mut headers, "traceparent", context.traceparent.as_str());
    } else {
        assert(context@.traceparent.len() == 0) by {
            if context@.traceparent.len() > 0 {
                vstd::utf8::encode_utf8_first_scalar(context@.traceparent);
                assert(vstd::utf8::encode_utf8(context@.traceparent).len() > 0);
            }
        }
    }
    match &context.tracestate {
        Some(state) => {
            set_header(&mut headers, "tracestate", state.as_str());
        },
        None => {},
    }
    headers
}

/// What is propagated with a message: the context of the span under which it is sent, or, where
/// that has no identity, the context that its sender gave, if that is well formed.
pub open spec fn sent_context(
    span: SpanContextView,
    sender: Option<SpanContextView>,
) -> TraceContextView {
    match sender {
        Some(sender) => if identifies(span) {
            injected(span)
        } else {
            injected(sender)
        },
        None => injected(span),
    }
}

/// What is propagated with a message, once it is known what its sender's context stands for.
pub fn chosen_context(span: &SpanContext, sender: &Option<SpanContext>) -> (context:
    PropagationContext)
    ensures
        context@ == sent_context(span@, optional_span(*sender)),
{
    if span.trace_id == 0 || span.span_id == 0 {
        match sender {
            Some(sender) => {
                return inject_context(sender);
            },
            None => {},
        }
    }
    inject_context(span)
}

/// The span that a sender's context stands for, if it gave one that is well formed.
pub open spec fn sender_span(parent: Option<TraceContextView>) -> Option<SpanContextView> {
    match parent {
        Some(parent) => match propagated(parent) {
            Ok(span) => Some(span),
            Err(_) => None,
        },
        None => None,
    }
}

/// The headers of a message that is sent under a span.
pub fn headers_for_span(span: &SpanContext, parent: &Option<PropagationContext>) -> (headers:
    async_nats::HeaderMap)
    requires
        one_line(state_header(span@.trace_state)),
        optional_propagation(*parent) matches Some(context) ==> (context.tracestate matches Some(
            state,
        ) ==> one_line(state)),
    ensures
        forall|name: Seq<char>| #[trigger]
            header_values(headers, name) == context_values(
                sent_context(span@, sender_span(optional_propagation(*parent))),
                name,
            ),
{
    let sender = match parent {
        Some(parent) => match context_from_propagation(parent) {
            Ok(sender) => Some(sender),
            Err(_) => None,
        },
        None => None,
    };
    let context = chosen_context(span, &sender);
    proof {
        lemma_injected_is_one_line(span@);
        if let Some(sender) = sender {
            lemma_injected_is_one_line(sender@);
        }
    }
    headers_for(&context)
}

/// What is propagated of a span stays on one line if its trace state does.
proof fn lemma_injected_is_one_line(span: SpanContextView)
    ensures
        one_line(injected(span).traceparent),
        one_line(state_header(span.trace_state)) ==> (injected(span).tracestate matches Some(
            state,
        ) ==> one_line(state)),
{
    lemma_parent_text_is_one_line(span.trace_id, span.span_id, span.sampled);
}

/// The span that a received message continues, and whether its context was rejected: one without
/// headers, or with neither trace header, has no context; one with a `tracestate` alone, or with a
/// malformed context, is rejected. What was propagated of a span with an identity stands for that
/// span.
pub fn message_parent(headers: &Option<async_nats::HeaderMap>) -> (parent: (
    Option<SpanContext>,
    bool,
))
    ensures
        match headers {
            None => parent.0 is None && !parent.1,
            Some(headers) => match carried(*headers) {
                None => parent.0 is None && parent.1 == first_value(
                    *headers,
                    "tracestate"@,
                ) is Some,
                Some(context) => match propagated(context) {
                    Ok(span) => optional_span(parent.0) == Some(span) && !parent.1,
                    Err(_) => parent.0 is None && parent.1,
                },
            },
        },
        headers matches Some(map) ==> forall|own: SpanContextView|
            identifies(own) && state_members(own.trace_state) && carried(*map) == Some(
                #[trigger] injected(own),
            ) ==> optional_span(parent.0) == Some(SpanContextView { is_remote: true, ..own })
                && !parent.1,
{
    match headers {
        None => (None, false),
        Some(headers) => {
            match carried_context(headers) {
                None => {
                    proof {
                        lemma_trace_header_names();
                    }
                    let state = header(headers, "tracestate");
                    (None, state.is_some())
                },
                Some(context) => parent_from(Some(context_from_propagation(&context))),
            }
        },
    }
}

/// What a message's headers carry is what was propagated with it.
pub proof fn law_headers_carry_the_context(
    headers: async_nats::HeaderMap,
    span: SpanContextView,
    sender: Option<SpanContextView>,
)
    requires
        identifies(span),
        forall|name: Seq<char>| #[trigger]
            header_values(headers, name) == context_values(sent_context(span, sender), name),
    ensures
        carried(headers) == Some(injected(span)),
{
    lemma_trace_header_names();
    assert(header_values(headers, "traceparent"@) == seq![injected(span).traceparent]);
    assert(header_values(headers, "tracestate"@) == context_values(
        injected(span),
        "tracestate"@,
    ));
    assert(carried(headers)->0.tracestate == injected(span).tracestate);
}

// ---------------------------------------------------------------------------
// Components
// ---------------------------------------------------------------------------

struct ComponentData {
    subscriptions: Vec<String>,
    consumer_group: ConsumerGroup,
}

/// What is kept of a component: the subjects that it subscribes to, and with whom it shares them.
#[verifier::ext_equal]
pub struct SubscriberView {
    pub subscriptions: Seq<Seq<char>>,
    pub consumer_group: ConsumerGroupView,
}

impl View for ComponentData {
    type V = SubscriberView;

    closed spec fn view(&self) -> SubscriberView {
        SubscriberView {
            subscriptions: texts(self.subscriptions@),
            consumer_group: self.consumer_group@,
        }
    }
}

/// What is kept of all workloads: the components of each, and where each component stands.
#[verifier::ext_equal]
pub struct SubscribersView {
    pub workloads: Map<Seq<char>, Map<Seq<char>, SubscriberView>>,
    pub components: Map<Seq<char>, Seq<char>>,
}

/// The subscriptions of the components that handle messages over NATS.
pub struct NatsMessaging {
    tracker: WorkloadTracker<(), ComponentData>,
}

spec fn subscriber_views(components: Map<Seq<char>, ComponentData>) -> Map<
    Seq<char>,
    SubscriberView,
> {
    components.map_values(|component: ComponentData| component@)
}

spec fn item_views(items: Map<Seq<char>, WorkloadTrackerItem<(), ComponentData>>) -> Map<
    Seq<char>,
    Map<Seq<char>, SubscriberView>,
> {
    items.map_values(
        |item: WorkloadTrackerItem<(), ComponentData>| subscriber_views(item.components@),
    )
}

impl View for NatsMessaging {
    type V = SubscribersView;

    closed spec fn view(&self) -> SubscribersView {
        SubscribersView {
            workloads: item_views(self.tracker.items()),
            components: self.tracker.index(),
        }
    }
}

/// A setting: that of the component itself, or else that of the workload's interface.
pub open spec fn setting(
    local: Map<Seq<char>, String>,
    interface: Map<Seq<char>, String>,
    key: Seq<char>,
) -> Option<Seq<char>> {
    if local.contains_key(key) {
        Some(local[key]@)
    } else if interface.contains_key(key) {
        Some(interface[key]@)
    } else {
        None
    }
}

/// A setting: that of the component itself, or else that of the workload's interface.
fn configured<'a>(local: &'a Table<String>, interface: &'a Table<String>, key: &str) -> (value:
    Option<&'a str>)
    ensures
        optional_str(value) == setting(local@, interface@, key@),
{
    match local.get(key) {
        Some(value) => Some(value.as_str()),
        None => match interface.get(key) {
            Some(value) => Some(value.as_str()),
            None => None,
        },
    }
}

/// The consumer group for a setting, or why there is none.
pub open spec fn resolved_group(
    setting: Option<Seq<char>>,
    namespace: Seq<char>,
    workload: Seq<char>,
    component: Seq<char>,
) -> Option<ConsumerGroupView> {
    match setting {
        None => Some(ConsumerGroupView::Grouped(default_group(namespace, workload, component))),
        Some(value) => if value == BROADCAST_CONSUMER_GROUP@ {
            Some(ConsumerGroupView::Broadcast)
        } else if group_name(value) {
            Some(ConsumerGroupView::Grouped(value))
        } else {
            None
        },
    }
}

/// The name under which a component shares its messages: services go by `service`.
pub open spec fn sharing_name(component: Option<Seq<char>>) -> Seq<char> {
    match component {
        Some(name) => name,
        None => "service"@,
    }
}

/// A component or service that is to be bound, with what is known of it.
pub struct BindingItem<'a> {
    pub workload_id: &'a str,
    pub workload_namespace: &'a str,
    pub workload_name: &'a str,
    pub id: &'a str,
    /// The name of a component; services have none.
    pub name: Option<&'a str>,
    pub config: &'a Table<String>,
    pub world: &'a WitWorld,
}

/// What is kept once a component subscribes.
pub open spec fn subscriber_added(
    before: SubscribersView,
    workload: Seq<char>,
    component: Seq<char>,
    data: SubscriberView,
) -> SubscribersView {
    let others = if before.workloads.contains_key(workload) {
        before.workloads[workload]
    } else {
        Map::empty()
    };
    SubscribersView {
        workloads: before.workloads.insert(workload, others.insert(component, data)),
        components: before.components.insert(component, workload),
    }
}

/// A subscription that is to be made.
#[derive(Debug, PartialEq, Eq)]
pub struct Subscription {
    pub subject: String,
    /// The group with whose members its messages are shared.
    pub group: Option<String>,
}

/// What is to be subscribed to for a component: each of its subjects, all in the same group.
pub open spec fn planned(list: Seq<Subscription>, data: SubscriberView) -> bool {
    &&& list.len() == data.subscriptions.len()
    &&& forall|i: int|
        0 <= i < list.len() ==> (#[trigger] list[i]).subject@ == data.subscriptions[i] && (match (
            list[i].group,
            data.consumer_group,
        ) {
            (Some(group), ConsumerGroupView::Grouped(name)) => group@ == name,
            (None, ConsumerGroupView::Broadcast) => true,
            _ => false,
        })
}

/// Whether anything is kept of the component.
pub open spec fn subscribes(view: SubscribersView, component: Seq<char>) -> bool {
    &&& view.components.contains_key(component)
    &&& view.workloads.contains_key(view.components[component])
    &&& view.workloads[view.components[component]].contains_key(component)
}

/// What is kept of the component.
pub open spec fn subscriber_of(view: SubscribersView, component: Seq<char>) -> SubscriberView {
    view.workloads[view.components[component]][component]
}

impl NatsMessaging {
    /// The tables are in order.
    pub closed spec fn wf(&self) -> bool {
        self.tracker.wf()
    }

    /// The id of the plugin.
    pub fn id(&self) -> (id: &'static str)
        ensures
            id@ == "wasmcloud-messaging"@,
    {
        PLUGIN_MESSAGING_ID
    }

    /// What the plugin offers to guests.
    pub fn world(&self) -> (world: WitWorld)
        ensures
            world.imports@.len() == 1,
            written_as(world.imports@[0], "wasmcloud:messaging/consumer,types@0.4.0"@),
            world.exports@.len() == 1,
            written_as(world.exports@[0], "wasmcloud:messaging/handler@0.4.0"@),
    {
        messaging_world()
    }

    /// No subscriptions.
    pub fn new() -> (messaging: NatsMessaging)
        ensures
            messaging.wf(),
            messaging@ == (SubscribersView { workloads: Map::empty(), components: Map::empty() }),
    {
        let messaging = NatsMessaging { tracker: WorkloadTracker::new() };
        assert(messaging@ =~= (SubscribersView {
            workloads: Map::empty(),
            components: Map::empty(),
        }));
        messaging
    }

    /// Binds a component or service of a workload, if the workload asks for messaging, and says
    /// whether it does. One that handles messages subscribes as its own settings say, or, where
    /// they are silent, as those of the workload's interface do; an invalid consumer group is an
    /// error.
    pub fn on_workload_item_bind(&mut self, item: &BindingItem, interfaces: &[WitInterface]) -> (result:
        Result<bool, ConsumerGroupError>)
        requires
            old(self).wf(),
        ensures
            final(self).wf(),
            (forall|i: int|
                0 <= i < interfaces@.len() ==> !of_package(
                    (#[trigger] interfaces@[i])@,
                    "wasmcloud"@,
                    "messaging"@,
                )) ==> (result matches Ok(linked) && !linked) && final(self)@ == old(self)@,
            forall|i: int|
                {
                    &&& 0 <= i < interfaces@.len()
                    &&& of_package(
                        (#[trigger] interfaces@[i])@,
                        "wasmcloud"@,
                        "messaging"@,
                    )
                    &&& forall|j: int|
                        0 <= j < i ==> !of_package(
                            (#[trigger] interfaces@[j])@,
                            "wasmcloud"@,
                            "messaging"@,
                        )
                } ==> if !some_covers(item.world.exports@, handler_names()) {
                    (result matches Ok(linked) && linked) && final(self)@ == old(self)@
                } else {
                    let value = setting(
                        item.config@,
                        interfaces@[i].config@,
                        CONSUMER_GROUP_CONFIG@,
                    );
                    match resolved_group(
                        value,
                        item.workload_namespace@,
                        item.workload_name@,
                        sharing_name(optional_str(item.name)),
                    ) {
                        Some(group) => {
                            &&& result matches Ok(linked) && linked
                            &&& final(self)@ == subscriber_added(
                                old(self)@,
                                item.workload_id@,
                                item.id@,
                                SubscriberView {
                                    subscriptions: subscription_list(
                                        setting(
                                            item.config@,
                                            interfaces@[i].config@,
                                            "subscriptions"@,
                                        ),
                                    ),
                                    consumer_group: group,
                                },
                            )
                        },
                        None => {
                            &&& final(self)@ == old(self)@
                            &&& match result {
                                Err(ConsumerGroupError::Empty) => value->0.len() == 0,
                                Err(ConsumerGroupError::Unsafe(text)) => value->0.len() > 0 && text@
                                    == value->0,
                                Ok(_) => false,
                            }
                        },
                    }
                },
    {
        let interface = match find_package(interfaces, "wasmcloud", "messaging") {
            Some(interface) => interface,
            None => {
                return Ok(false);
            },
        };
        let ghost at = choose|i: int|
            {
                &&& 0 <= i < interfaces@.len()
                &&& #[trigger] interfaces@[i] == *interface
                &&& of_package(interface@, "wasmcloud"@, "messaging"@)
                &&& forall|j: int|
                    0 <= j < i ==> !of_package(
                        (#[trigger] interfaces@[j])@,
                        "wasmcloud"@,
                        "messaging"@,
                    )
            };
        if !exports_messaging_handler(item.world) {
            return Ok(true);
        }
        let raw = configured(item.config, &interface.config, "subscriptions");
        let subjects = parse_subscriptions(raw);
        let name = match item.name {
            Some(name) => name,
            None => "service",
        };
        let value = configured(item.config, &interface.config, CONSUMER_GROUP_CONFIG);
        let group = match ConsumerGroup::resolve(
            value,
            item.workload_namespace,
            item.workload_name,
            name,
        ) {
            Ok(group) => group,
            Err(error) => {
                return Err(error);
            },
        };
        let ghost before = *self;
        let data = ComponentData { subscriptions: subjects, consumer_group: group };
        self.tracker.add_component(item.workload_id.to_string(), item.id.to_string(), data);
        proof {
            let items = before.tracker.items();
            let workload = item.workload_id@;
            let goal = subscriber_added(before@, workload, item.id@, data@);
            let earlier = if items.contains_key(workload) {
                items[workload].components@
            } else {
                Map::<Seq<char>, ComponentData>::empty()
            };
            assert(subscriber_views(earlier.insert(item.id@, data)) =~= subscriber_views(
                earlier,
            ).insert(item.id@, data@));
            if !items.contains_key(workload) {
                assert(subscriber_views(earlier) =~= Map::empty());
            }
            assert forall|id: Seq<char>| #[trigger]
                self@.workloads.contains_key(id) implies self@.workloads[id]
                == goal.workloads[id] by {
                if id != workload {
                    assert(items.contains_key(id));
                }
            }
            assert(self@.workloads =~= goal.workloads);
            assert(self@ =~= goal);
        }
        Ok(true)
    }

    /// What is to be subscribed to for a component. Nothing, where nothing is kept of it or it
    /// names no subjects.
    pub fn on_workload_resolved(&self, component: &str) -> (plan: Vec<Subscription>)
        ensures
            if subscribes(self@, component@) {
                planned(plan@, subscriber_of(self@, component@))
            } else {
                plan@.len() == 0
            },
    {
        let mut plan: Vec<Subscription> = Vec::new();
        match self.tracker.get_component_data(component) {
            Some(data) => {
                let n: usize = data.subscriptions.len();
                for i in 0..n
                    invariant
                        n == data.subscriptions@.len(),
                        plan@.len() == i,
                        forall|j: int|
                            0 <= j < i ==> (#[trigger] plan@[j]).subject@ == data@.subscriptions[j]
                                && (match (plan@[j].group, data@.consumer_group) {
                                (Some(group), ConsumerGroupView::Grouped(name)) => group@ == name,
                                (None, ConsumerGroupView::Broadcast) => true,
                                _ => false,
                            }),
                {
                    let group = match data.consumer_group.name() {
                        Some(name) => Some(name.to_string()),
                        None => None,
                    };
                    assert(data@.subscriptions[i as int] == data.subscriptions@[i as int]@);
                    plan.push(Subscription { subject: data.subscriptions[i].clone(), group });
                }
                assert(planned(plan@, data@));
            },
            None => {},
        }
        plan
    }

    /// Lets a workload go, and names its components, which are to stop.
    pub fn on_workload_unbind(&mut self, workload: &str) -> (components: Vec<String>)
        requires
            old(self).wf(),
        ensures
            final(self).wf(),
            if old(self)@.workloads.contains_key(workload@) {
                &&& final(self)@ == (SubscribersView {
                    workloads: old(self)@.workloads.remove(workload@),
                    components: old(self)@.components.remove_keys(
                        old(self)@.workloads[workload@].dom(),
                    ),
                })
                &&& texts(components@).no_duplicates()
                &&& forall|id: Seq<char>| #[trigger]
                    texts(components@).contains(id) == old(
                        self,
                    )@.workloads[workload@].contains_key(id)
            } else {
                final(self)@ == old(self)@ && components@.len() == 0
            },
    {
        let ghost before = *self;
        match self.tracker.remove_workload(workload) {
            Some(item) => {
                proof {
                    assert(self@.workloads =~= before@.workloads.remove(workload@));
                    assert(subscriber_views(item.components@).dom() =~= item.components@.dom());
                    assert(before@.workloads.contains_key(workload@));
                }
                item.components.keys()
            },
            None => {
                assert(before.tracker.items().remove(workload@) =~= before.tracker.items());
                Vec::new()
            },
        }
    }
}

/// How the round trip ended by which the server is known to have seen all earlier commands.
#[derive(Clone, Copy, Debug, PartialEq, Eq, Structural)]
pub enum RoundTrip {
    SubscribeFailed,
    PublishFailed,
    Returned,
    Ended,
    TimedOut,
}

/// The words for a round trip that failed.
pub open spec fn trip_words(trip: RoundTrip) -> Seq<char> {
    match trip {
        RoundTrip::Returned => Seq::empty(),
        RoundTrip::SubscribeFailed => "failed to subscribe to sync inbox"@,
        RoundTrip::PublishFailed => "failed to publish sync message"@,
        RoundTrip::Ended => "sync inbox subscription closed before sentinel arrived"@,
        RoundTrip::TimedOut => "sync with NATS timed out after 5s"@,
    }
}

/// What is made of the round trip after subscribing.
pub fn sync_outcome(trip: RoundTrip) -> (result: Result<(), &'static str>)
    ensures
        match result {
            Ok(()) => trip is Returned,
            Err(text) => !(trip is Returned) && text@ == trip_words(trip),
        },
{
    match trip {
        RoundTrip::Returned => Ok(()),
        RoundTrip::SubscribeFailed => Err("failed to subscribe to sync inbox"),
        RoundTrip::PublishFailed => Err("failed to publish sync message"),
        RoundTrip::Ended => Err("sync inbox subscription closed before sentinel arrived"),
        RoundTrip::TimedOut => Err("sync with NATS timed out after 5s"),
    }
}

/// What is done next while a component is started.
#[derive(Debug, PartialEq, Eq)]
pub enum SubscribeAction {
    /// Make the subscription at this place.
    Subscribe(usize),
    /// All are made: make a round trip, after which the server is known to have seen them.
    Synchronize,
    /// The server has seen all subscriptions: begin to receive, and report that the start
    /// succeeded.
    Receive,
    /// There is nothing to subscribe to: report that the start succeeded.
    Idle,
    /// Drop the subscriptions that were made, and fail with these words.
    Abandon(String),
}

/// The words for a start that failed because the round trip did.
pub open spec fn unsynchronized(trip: RoundTrip) -> Seq<char> {
    "failed to sync subscriptions with NATS server: "@ + trip_words(trip)
}

/// Whether an action is what is done next when the first `done` of the subscriptions are made,
/// the one after them may just have failed, and the round trip that comes when all are made may
/// have ended.
pub open spec fn start_step(
    plan: Seq<Subscription>,
    done: int,
    failed: bool,
    trip: Option<RoundTrip>,
    action: SubscribeAction,
) -> bool {
    if plan.len() == 0 {
        action is Idle
    } else if failed {
        action matches SubscribeAction::Abandon(text) && text@ == "failed to subscribe to "@
            + plan[done].subject@
    } else if done < plan.len() {
        action matches SubscribeAction::Subscribe(place) && place == done
    } else {
        match trip {
            None => action is Synchronize,
            Some(RoundTrip::Returned) => action is Receive,
            Some(trip) => action matches SubscribeAction::Abandon(text) && text@ == unsynchronized(
                trip,
            ),
        }
    }
}

/// What is done next when the first `done` of the subscriptions are made, the one after them may
/// just have failed, and the round trip that comes when all are made may have ended.
pub fn subscribe_next(
    plan: &Vec<Subscription>,
    done: usize,
    failed: bool,
    trip: Option<RoundTrip>,
) -> (action: SubscribeAction)
    requires
        done <= plan@.len(),
        failed ==> done < plan@.len(),
    ensures
        start_step(plan@, done as int, failed, trip, action),
{
    if plan.len() == 0 {
        return SubscribeAction::Idle;
    }
    if failed {
        let mut text = "failed to subscribe to ".to_string();
        push_text(&mut text, plan[done].subject.as_str());
        return SubscribeAction::Abandon(text);
    }
    if done < plan.len() {
        return SubscribeAction::Subscribe(done);
    }
    match trip {
        None => SubscribeAction::Synchronize,
        Some(trip) => match sync_outcome(trip) {
            Ok(()) => SubscribeAction::Receive,
            Err(words) => {
                let mut text = "failed to sync subscriptions with NATS server: ".to_string();
                push_text(&mut text, words);
                SubscribeAction::Abandon(text)
            },
        },
    }
}

/// A start that reports success has every subscription of the component made and seen by the
/// server, so that whoever sends to one of its subjects from then on finds it there.
pub proof fn law_started_components_are_subscribed(
    plan: Seq<Subscription>,
    done: int,
    failed: bool,
    trip: Option<RoundTrip>,
    action: SubscribeAction,
)
    requires
        0 <= done <= plan.len(),
        failed ==> done < plan.len(),
        start_step(plan, done, failed, trip, action),
    ensures
        action is Receive ==> done == plan.len() && trip == Some(RoundTrip::Returned),
        action is Idle ==> plan.len() == 0,
        plan.len() > 0 && done == plan.len() && trip == Some(RoundTrip::Returned)
            ==> action is Receive,
{
}

/// A component's own settings come before those of its workload's interface.
pub proof fn law_own_settings_come_first(
    local: Map<Seq<char>, String>,
    interface: Map<Seq<char>, String>,
    key: Seq<char>,
)
    ensures
        local.contains_key(key) ==> setting(local, interface, key) == Some(local[key]@),
        !local.contains_key(key) && interface.contains_key(key) ==> setting(local, interface, key)
            == Some(interface[key]@),
        setting(local, interface, key) is None == (!local.contains_key(key)
            && !interface.contains_key(key)),
{
}

/// A component for which no subjects are configured subscribes to nothing, and no component ever
/// subscribes to an empty subject.
pub proof fn law_no_subjects_no_subscriptions(
    plan: Seq<Subscription>,
    local: Map<Seq<char>, String>,
    interface: Map<Seq<char>, String>,
    group: ConsumerGroupView,
)
    requires
        planned(
            plan,
            SubscriberView {
                subscriptions: subscription_list(setting(local, interface, "subscriptions"@)),
                consumer_group: group,
            },
        ),
    ensures
        !local.contains_key("subscriptions"@) && !interface.contains_key("subscriptions"@)
            ==> plan.len() == 0,
        forall|i: int| 0 <= i < plan.len() ==> (#[trigger] plan[i]).subject@.len() > 0,
{
    if let Some(raw) = setting(local, interface, "subscriptions"@) {
        assert forall|i: int| 0 <= i < plan.len() implies (#[trigger] plan[i]).subject@.len()
            > 0 by {
            law_listed_subjects_are_clean(raw, i);
        }
    }
}

/// Replicas of a component, which share their identity, share their messages, unless they are
/// told not to; and the group that they get without being told has a name that could be given.
pub proof fn law_replicas_share_messages(
    setting: Option<Seq<char>>,
    namespace: Seq<char>,
    workload: Seq<char>,
    component: Seq<char>,
)
    ensures
        resolved_group(setting, namespace, workload, component) == Some(
            ConsumerGroupView::Broadcast,
        ) ==> setting == Some(BROADCAST_CONSUMER_GROUP@),
        resolved_group(setting, namespace, workload, component) matches Some(
            ConsumerGroupView::Grouped(name),
        ) ==> group_name(name),
{
    crate::messaging::consumer_group::law_default_groups_are_safe_and_bounded(
        namespace,
        workload,
        component,
    );
}

/// The headers of a propagated context hold its `traceparent`, unless that is empty, and its
/// `tracestate`, if there is one, each once; under any other name they hold nothing.
pub proof fn law_headers_hold_the_context_alone(context: TraceContextView, name: Seq<char>)
    ensures
        context.traceparent.len() > 0 ==> context_values(context, "traceparent"@) == seq![
            context.traceparent,
        ],
        context.traceparent.len() == 0 ==> context_values(context, "traceparent"@).len() == 0,
        context.tracestate matches Some(state) ==> context_values(context, "tracestate"@) == seq![
            state,
        ],
        context.tracestate is None ==> context_values(context, "tracestate"@).len() == 0,
        name != "traceparent"@ && name != "tracestate"@ ==> context_values(context, name).len() == 0,
{
    lemma_trace_header_names();
}

/// A message is sent with the context of the span that it is sent under. Only where that has no
/// identity, it is sent with the context that its sender gave, if that is well formed.
pub proof fn law_messages_are_sent_with_their_span(
    span: SpanContextView,
    sender: Option<TraceContextView>,
)
    ensures
        span.trace_id != 0 && span.span_id != 0 ==> sent_context(span, sender_span(sender))
            == injected(span),
        (span.trace_id == 0 || span.span_id == 0) && sender is Some && propagated(sender->0) is Ok
            ==> sent_context(span, sender_span(sender)) == injected(propagated(sender->0)->Ok_0),
        (span.trace_id == 0 || span.span_id == 0) && (sender is None || propagated(sender->0) is Err)
            ==> sent_context(span, sender_span(sender)).traceparent.len() == 0 && sent_context(
            span,
            sender_span(sender),
        ).tracestate is None,
{
}

/// A component's group is its default group without a setting, none with the setting `broadcast`,
/// and else the one that the setting names, if it can be a name; services go by `service`. The
/// setting stands under `consumer_group`.
pub proof fn law_groups_go_by_the_setting(
    value: Seq<char>,
    namespace: Seq<char>,
    workload: Seq<char>,
    component: Seq<char>,
)
    ensures
        resolved_group(None, namespace, workload, component) == Some(
            ConsumerGroupView::Grouped(default_group(namespace, workload, component)),
        ),
        resolved_group(Some("broadcast"@), namespace, workload, component) == Some(
            ConsumerGroupView::Broadcast,
        ),
        value != "broadcast"@ && group_name(value) ==> resolved_group(
            Some(value),
            namespace,
            workload,
            component,
        ) == Some(ConsumerGroupView::Grouped(value)),
        value != "broadcast"@ && !group_name(value) ==> resolved_group(
            Some(value),
            namespace,
            workload,
            component,
        ) is None,
        sharing_name(Some(component)) == component,
        sharing_name(None) == "service"@,
        CONSUMER_GROUP_CONFIG@ == "consumer_group"@,
{
}

/// What is kept of a component that subscribes is found under it, in its workload, and what is kept
/// of the other components stays.
pub proof fn law_subscribers_are_kept_apart(
    before: SubscribersView,
    workload: Seq<char>,
    component: Seq<char>,
    data: SubscriberView,
    other: Seq<char>,
)
    requires
        other != component,
    ensures
        ({
            let after = subscriber_added(before, workload, component, data);
            &&& subscribes(after, component)
            &&& subscriber_of(after, component) == data
            &&& after.components[component] == workload
            &&& after.workloads[workload].contains_key(component)
            &&& subscribes(before, other) ==> subscribes(after, other)
            &&& subscribes(before, other) ==> subscriber_of(after, other) == subscriber_of(
                before,
                other,
            )
            &&& before.components.contains_key(other) == after.components.contains_key(other)
        }),
{
}

/// A component subscribes to each of its subjects, in order, in its group, or in none where it
/// shares with nobody.
pub proof fn law_every_subject_is_subscribed_to(
    plan: Seq<Subscription>,
    data: SubscriberView,
    i: int,
)
    requires
        planned(plan, data),
        0 <= i < data.subscriptions.len(),
    ensures
        plan.len() == data.subscriptions.len(),
        plan[i].subject@ == data.subscriptions[i],
        data.consumer_group is Broadcast ==> plan[i].group is None,
        data.consumer_group matches ConsumerGroupView::Grouped(name) ==> (plan[i].group matches Some(
            group,
        ) && group@ == name),
{
    assert(plan[i].subject@ == data.subscriptions[i]);
}

/// The subscriptions of a component are made one after the other, then a round trip. Where one
/// fails, or the round trip does, the start fails and names what failed; while nothing failed it
/// goes on.
pub proof fn law_starts_go_step_by_step(
    plan: Seq<Subscription>,
    done: int,
    trip: RoundTrip,
    action: SubscribeAction,
)
    requires
        0 <= done <= plan.len(),
        plan.len() > 0,
    ensures
        done < plan.len() && start_step(plan, done, false, None, action) ==> (
        action matches SubscribeAction::Subscribe(place) && place == done),
        done < plan.len() && start_step(plan, done, true, None, action) ==> (
        action matches SubscribeAction::Abandon(text) && text@ == "failed to subscribe to "@
            + plan[done].subject@),
        done == plan.len() && start_step(plan, done, false, None, action)
            ==> action is Synchronize,
        done == plan.len() && start_step(plan, done, false, Some(trip), action) ==> match trip {
            RoundTrip::Returned => action is Receive,
            RoundTrip::SubscribeFailed => action matches SubscribeAction::Abandon(text) && text@
                == "failed to sync subscriptions with NATS server: "@
                + "failed to subscribe to sync inbox"@,
            RoundTrip::PublishFailed => action matches SubscribeAction::Abandon(text) && text@
                == "failed to sync subscriptions with NATS server: "@
                + "failed to publish sync message"@,
            RoundTrip::Ended => action matches SubscribeAction::Abandon(text) && text@
                == "failed to sync subscriptions with NATS server: "@
                + "sync inbox subscription closed before sentinel arrived"@,
            RoundTrip::TimedOut => action matches SubscribeAction::Abandon(text) && text@
                == "failed to sync subscriptions with NATS server: "@
                + "sync with NATS timed out after 5s"@,
        },
{
}

/// Something is kept of a component exactly where the index knows its workload and that workload
/// keeps something of it.
pub proof fn law_subscribers_stand_in_their_workload(view: SubscribersView, component: Seq<char>)
    ensures
        subscribes(view, component) <==> exists|workload: Seq<char>|
            {
                &&& view.components.contains_key(component)
                &&& view.components[component] == workload
                &&& view.workloads.contains_key(workload)
                &&& #[trigger] view.workloads[workload].contains_key(component)
            },
{
}

/// A received message with a well formed context continues its span; one with a malformed context,
/// or with a `tracestate` alone, continues none and is told to be rejected; one without headers, or
/// with neither, continues none and is not.
pub proof fn law_received_messages_continue_their_span(
    headers: &Option<async_nats::HeaderMap>,
    parent: (Option<SpanContext>, bool),
)
    requires
        call_ensures(message_parent, (headers,), parent),
    ensures
        *headers is None ==> parent.0 is None && !parent.1,
        headers matches Some(map) && header_values(*map, "traceparent"@).len() == 0 ==> parent.0 is None
            && parent.1 == (header_values((*headers)->0, "tracestate"@).len() > 0),
        headers matches Some(map) && header_values(*map, "traceparent"@).len() > 0 ==> ({
            let context = carried((*headers)->0)->0;
            &&& propagated(context) matches Ok(span) ==> optional_span(parent.0) == Some(span)
                && !parent.1
            &&& propagated(context) is Err ==> parent.0 is None && parent.1
        }),
{
}

} // verus!
