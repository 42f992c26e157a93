//! The OpenTelemetry plugin: its configuration, its components and what becomes of their spans.
use vstd::prelude::*;

use crate::otel::convert::clock_answers;
use crate::otel::convert::exported;
use crate::otel::convert::outer_view;
use crate::otel::convert::span_outcome;
use crate::otel::convert::try_into_sdk_span_data;
use crate::otel::types::ExportedSpan;
use crate::otel::types::ExportedSpanView;
use crate::otel::types::SpanConversionError;
use crate::otel::types::SpanConversionErrorView;
use crate::otel::types::SpanData;
use crate::propagation::pairs;
use crate::propagation::SpanContext;
use crate::table::Table;
use crate::text::characters;
use crate::text::optional_text;
use crate::text::same_text;
use crate::text::string_of;
use crate::text::texts;
use crate::text::trim;
use crate::text::trimmed;
use crate::tracker::WorkloadTracker;
use crate::tracker::WorkloadTrackerItem;
use crate::wit::written_as;
use crate::wit::WitInterface;
use crate::wit::WitWorld;

verus! {

/// The id of the plugin, which is also the service name without a configured one.
pub const WASI_OTEL_ID: &'static str = "wasi-otel";

/// How many spans of a component wait to be exported at most.
pub const SPAN_SUBMISSION_QUEUE_CAPACITY: usize = 2048;

/// How many seconds pass at least between two reports of lost spans.
pub const QUEUE_FULL_DIAGNOSTIC_SECONDS: u64 = 30;

/// Where telemetry goes when nothing else is said.
pub const DEFAULT_OTLP_GRPC_ENDPOINT: &'static str = "http://localhost:4317";

/// Configuration for the plugin. Make one with [`WasiOtelConfig::builder`] or by default.
#[derive(Debug, PartialEq, Eq)]
#[non_exhaustive]
pub struct WasiOtelConfig {
    /// The service name of all exported spans, metrics and logs.
    pub service_name: String,
}

/// Makes a [`WasiOtelConfig`].
pub struct WasiOtelConfigBuilder {
    service_name: Option<String>,
}

impl WasiOtelConfigBuilder {
    /// The service name that was set, if one was.
    pub closed spec fn name_set(&self) -> Option<Seq<char>> {
        optional_text(self.service_name)
    }

    /// Sets the service name.
    pub fn service_name(self, service_name: &str) -> (builder: WasiOtelConfigBuilder)
        ensures
            builder.name_set() == Some(service_name@),
    {
        WasiOtelConfigBuilder { service_name: Some(service_name.to_string()) }
    }

    /// Makes the configuration: the service name is that which was set last, or else the id of the
    /// plugin.
    pub fn build(self) -> (config: WasiOtelConfig)
        ensures
            config.service_name@ == (match self.name_set() {
                Some(name) => name,
                None => WASI_OTEL_ID@,
            }),
    {
        WasiOtelConfig {
            service_name: match self.service_name {
                Some(name) => name,
                None => WASI_OTEL_ID.to_string(),
            },
        }
    }
}

impl WasiOtelConfig {
    /// A builder with nothing set.
    pub fn builder() -> (builder: WasiOtelConfigBuilder)
        ensures
            builder.name_set() is None,
    {
        WasiOtelConfigBuilder { service_name: None }
    }
}

impl Clone for WasiOtelConfig {
    fn clone(&self) -> (copy: Self)
        ensures
            copy.service_name@ == self.service_name@,
    {
        WasiOtelConfig { service_name: self.service_name.clone() }
    }
}

impl Default for WasiOtelConfig {
    fn default() -> (config: WasiOtelConfig)
        ensures
            config.service_name@ == WASI_OTEL_ID@,
    {
        WasiOtelConfig::builder().build()
    }
}

// ---------------------------------------------------------------------------
// Resources
// ---------------------------------------------------------------------------

/// The service name of a component: the configured one, without the white space around it, unless
/// that is empty or the default; then the name of the workload.
pub open spec fn service_of(configured: Seq<char>, workload_name: Seq<char>) -> Seq<char> {
    if trimmed(configured).len() == 0 || trimmed(configured) == WASI_OTEL_ID@ {
        workload_name
    } else {
        trimmed(configured)
    }
}

/// What identifies a component in its telemetry.
pub open spec fn resource_attributes(
    configured: Seq<char>,
    component_id: Seq<char>,
    workload_id: Seq<char>,
    workload_name: Seq<char>,
    workload_namespace: Seq<char>,
) -> Seq<(Seq<char>, Seq<char>)> {
    seq![
        ("service.name"@, service_of(configured, workload_name)),
        ("service.namespace"@, workload_namespace),
        ("service.instance.id"@, workload_id),
        ("wasmcloud.workload.name"@, workload_name),
        ("wasmcloud.component.id"@, component_id),
    ]
}

/// What identifies a component in its telemetry.
pub fn component_resource(
    config: &WasiOtelConfig,
    component_id: &str,
    workload_id: &str,
    workload_name: &str,
    workload_namespace: &str,
) -> (attributes: Vec<(String, String)>)
    ensures
        pairs(attributes@) == resource_attributes(
            config.service_name@,
            component_id@,
            workload_id@,
            workload_name@,
            workload_namespace@,
        ),
{
    let letters = trim(&characters(config.service_name.as_str()));
    let configured = string_of(&letters);
    let service_name = if letters.len() == 0 || same_text(configured.as_str(), WASI_OTEL_ID) {
        workload_name.to_string()
    } else {
        configured
    };
    let mut attributes: Vec<(String, String)> = Vec::new();
    attributes.push(("service.name".to_string(), service_name));
    attributes.push(("service.namespace".to_string(), workload_namespace.to_string()));
    attributes.push(("service.instance.id".to_string(), workload_id.to_string()));
    attributes.push(("wasmcloud.workload.name".to_string(), workload_name.to_string()));
    attributes.push(("wasmcloud.component.id".to_string(), component_id.to_string()));
    assert(pairs(attributes@) =~= resource_attributes(
        config.service_name@,
        component_id@,
        workload_id@,
        workload_name@,
        workload_namespace@,
    ));
    attributes
}

/// The service name of a component rests on the configuration and on the name of its workload
/// alone: it is the same for every instance of the workload and for each of its components.
pub proof fn law_service_names_are_stable(
    configured: Seq<char>,
    workload_name: Seq<char>,
    first_component: Seq<char>,
    first_workload: Seq<char>,
    first_namespace: Seq<char>,
    second_component: Seq<char>,
    second_workload: Seq<char>,
    second_namespace: Seq<char>,
)
    ensures
        resource_attributes(
            configured,
            first_component,
            first_workload,
            workload_name,
            first_namespace,
        )[0] == resource_attributes(
            configured,
            second_component,
            second_workload,
            workload_name,
            second_namespace,
        )[0],
        first_workload != second_workload ==> resource_attributes(
            configured,
            first_component,
            first_workload,
            workload_name,
            first_namespace,
        )[2] != resource_attributes(
            configured,
            second_component,
            second_workload,
            workload_name,
            second_namespace,
        )[2],
{
}

/// A configured service name takes precedence over the name of the workload.
pub proof fn law_configured_names_take_precedence(configured: Seq<char>, workload_name: Seq<char>)
    requires
        trimmed(configured) == configured,
        configured.len() > 0,
        configured != WASI_OTEL_ID@,
    ensures
        service_of(configured, workload_name) == configured,
{
}

// ---------------------------------------------------------------------------
// Submission
// ---------------------------------------------------------------------------

/// The spans of one component that wait to be exported.
#[derive(Debug, PartialEq, Eq)]
pub struct ComponentContext {
    component_id: String,
    submissions: Vec<ExportedSpan>,
    capacity: usize,
    stopped: bool,
    dropped_spans: u64,
    last_queue_full_diagnostic: u64,
}

/// What a [`ComponentContext`] holds: the spans that wait, the oldest first; how many can wait;
/// whether it takes no more; how many were lost, and when that was last reported.
#[verifier::ext_equal]
pub struct ComponentContextView {
    pub component_id: Seq<char>,
    pub waiting: Seq<ExportedSpanView>,
    pub capacity: nat,
    pub stopped: bool,
    pub dropped_spans: u64,
    pub last_report: u64,
}

/// What spans hold.
pub open spec fn span_views(spans: Seq<ExportedSpan>) -> Seq<ExportedSpanView> {
    spans.map_values(|span: ExportedSpan| span@)
}

impl View for ComponentContext {
    type V = ComponentContextView;

    closed spec fn view(&self) -> ComponentContextView {
        ComponentContextView {
            component_id: self.component_id@,
            waiting: span_views(self.submissions@),
            capacity: self.capacity as nat,
            stopped: self.stopped,
            dropped_spans: self.dropped_spans,
            last_report: self.last_queue_full_diagnostic,
        }
    }
}

/// The context of a component without spans.
pub open spec fn fresh_context(component: Seq<char>, capacity: nat) -> ComponentContextView {
    ComponentContextView {
        component_id: component,
        waiting: Seq::empty(),
        capacity,
        stopped: false,
        dropped_spans: 0,
        last_report: 0,
    }
}

/// Whether a loss now is reported: half a minute after the last report at the earliest.
pub open spec fn due(last_report: u64, now: u64) -> bool {
    now - last_report >= QUEUE_FULL_DIAGNOSTIC_SECONDS
}

/// What becomes of a context that loses a span.
pub open spec fn lost(context: ComponentContextView, now: u64) -> ComponentContextView {
    ComponentContextView {
        dropped_spans: (context.dropped_spans + 1) as u64,
        last_report: if due(context.last_report, now) {
            now
        } else {
            context.last_report
        },
        ..context
    }
}

/// The number of lost spans, if it is time to report it.
pub open spec fn loss_report(context: ComponentContextView, now: u64) -> Option<u64> {
    if due(context.last_report, now) {
        Some((context.dropped_spans + 1) as u64)
    } else {
        None
    }
}

/// Whether a context takes one more span.
pub open spec fn has_room(context: ComponentContextView) -> bool {
    !context.stopped && context.waiting.len() < context.capacity
}

/// What becomes of a context to which a span is submitted: the span waits behind the others, or
/// is lost where there is no room.
pub open spec fn submitted(
    context: ComponentContextView,
    span: ExportedSpanView,
    now: u64,
) -> ComponentContextView {
    if has_room(context) {
        ComponentContextView { waiting: context.waiting.push(span), ..context }
    } else {
        lost(context, now)
    }
}

/// What is reported when a span is submitted.
pub open spec fn submission_report(context: ComponentContextView, now: u64) -> Option<u64> {
    if has_room(context) {
        None
    } else {
        loss_report(context, now)
    }
}

/// A context that takes no more spans.
pub open spec fn halted(context: ComponentContextView) -> ComponentContextView {
    ComponentContextView { stopped: true, ..context }
}

/// What is to be done for a component.
pub enum ExportStep {
    /// The span is to be exported.
    Export(ExportedSpan),
    /// No span waits.
    Wait,
    /// No span waits, and none will: what was exported is to be flushed.
    Flush,
}

/// What is left of a context once its oldest span was fetched.
pub open spec fn fetched(context: ComponentContextView) -> ComponentContextView {
    if context.waiting.len() > 0 {
        ComponentContextView { waiting: context.waiting.drop_first(), ..context }
    } else {
        context
    }
}

/// Whether `step` is what is to be done for a component.
pub open spec fn is_next_step(context: ComponentContextView, step: ExportStep) -> bool {
    match step {
        ExportStep::Export(span) => context.waiting.len() > 0 && span@ == context.waiting[0],
        ExportStep::Wait => context.waiting.len() == 0 && !context.stopped,
        ExportStep::Flush => context.waiting.len() == 0 && context.stopped,
    }
}

impl ComponentContext {
    /// No more spans wait than can.
    pub closed spec fn wf(&self) -> bool {
        self.submissions@.len() <= self.capacity
    }

    /// The context of a component without spans, of which some number can wait.
    pub fn new(component_id: String, capacity: usize) -> (context: ComponentContext)
        requires
            capacity > 0,
        ensures
            context.wf(),
            context@ == fresh_context(component_id@, capacity as nat),
    {
        let context = ComponentContext {
            component_id,
            submissions: Vec::new(),
            capacity,
            stopped: false,
            dropped_spans: 0,
            last_queue_full_diagnostic: 0,
        };
        assert(context@.waiting =~= Seq::empty());
        context
    }

    /// The id of the component.
    pub fn component_id(&self) -> (id: &str)
        ensures
            id@ == self@.component_id,
    {
        self.component_id.as_str()
    }

    /// How many spans were lost.
    pub fn dropped_spans(&self) -> (dropped: u64)
        ensures
            dropped == self@.dropped_spans,
    {
        self.dropped_spans
    }

    /// Counts a span that was lost at a time, given in seconds, and says how many were lost in
    /// all, if it is time to report that.
    pub fn record_queue_rejection(&mut self, now: u64) -> (report: Option<u64>)
        requires
            old(self).wf(),
            old(self)@.dropped_spans < u64::MAX,
        ensures
            final(self).wf(),
            final(self)@ == lost(old(self)@, now),
            report == loss_report(old(self)@, now),
    {
        self.dropped_spans = self.dropped_spans + 1;
        if now < self.last_queue_full_diagnostic || now - self.last_queue_full_diagnostic
            < QUEUE_FULL_DIAGNOSTIC_SECONDS {
            return None;
        }
        self.last_queue_full_diagnostic = now;
        Some(self.dropped_spans)
    }

    /// Submits a span at a time, given in seconds, and says how many were lost in all, if this one
    /// is and it is time to report that.
    pub fn submit(&mut self, span: ExportedSpan, now: u64) -> (report: Option<u64>)
        requires
            old(self).wf(),
            old(self)@.dropped_spans < u64::MAX,
        ensures
            final(self).wf(),
            final(self)@ == submitted(old(self)@, span@, now),
            report == submission_report(old(self)@, now),
    {
        if !self.stopped && self.submissions.len() < self.capacity {
            let ghost before = span_views(self.submissions@);
            self.submissions.push(span);
            assert(span_views(self.submissions@) =~= before.push(span@));
            return None;
        }
        self.record_queue_rejection(now)
    }

    /// Takes no more spans. Those that wait are still exported.
    pub fn shutdown(&mut self)
        requires
            old(self).wf(),
        ensures
            final(self).wf(),
            final(self)@ == halted(old(self)@),
    {
        self.stopped = true;
    }

    /// Fetches what is to be done next for the component.
    pub fn next(&mut self) -> (step: ExportStep)
        requires
            old(self).wf(),
        ensures
            final(self).wf(),
            final(self)@ == fetched(old(self)@),
            is_next_step(old(self)@, step),
    {
        if self.submissions.len() > 0 {
            let ghost before = span_views(self.submissions@);
            let span = self.submissions.remove(0);
            assert(span_views(self.submissions@) =~= before.drop_first());
            return ExportStep::Export(span);
        }
        if self.stopped {
            ExportStep::Flush
        } else {
            ExportStep::Wait
        }
    }
}

/// The spans that are fetched of a context until none waits.
pub open spec fn fetched_spans(context: ComponentContextView) -> Seq<ExportedSpanView>
    decreases context.waiting.len(),
{
    if context.waiting.len() == 0 {
        Seq::empty()
    } else {
        seq![context.waiting[0]] + fetched_spans(fetched(context))
    }
}

/// Stopping a component loses no span: those that waited are all fetched, in the order in which
/// they were submitted.
pub proof fn law_stopped_components_are_drained(context: ComponentContextView)
    ensures
        fetched_spans(halted(context)) == context.waiting,
    decreases context.waiting.len(),
{
    if context.waiting.len() > 0 {
        law_stopped_components_are_drained(fetched(context));
        assert(fetched(halted(context)) == halted(fetched(context)));
        assert(seq![context.waiting[0]] + context.waiting.drop_first() =~= context.waiting);
    }
}

/// A span that is submitted while there is room is exported after those that waited before it, and
/// nothing is counted as lost; one that finds no room is counted and changes nothing that waits.
pub proof fn law_spans_wait_or_are_counted(
    context: ComponentContextView,
    span: ExportedSpanView,
    now: u64,
)
    requires
        context.dropped_spans < u64::MAX,
    ensures
        has_room(context) ==> fetched_spans(halted(submitted(context, span, now)))
            == context.waiting.push(span) && submitted(context, span, now).dropped_spans
            == context.dropped_spans,
        !has_room(context) ==> submitted(context, span, now).waiting == context.waiting
            && submitted(context, span, now).dropped_spans == context.dropped_spans + 1,
{
    law_stopped_components_are_drained(submitted(context, span, now));
}

/// Losses are reported at most once in half a minute: one that comes less than that after a report
/// is counted but not reported.
pub proof fn law_reports_are_spaced(context: ComponentContextView, reported: u64, now: u64)
    requires
        loss_report(context, reported) is Some,
        now < reported + QUEUE_FULL_DIAGNOSTIC_SECONDS,
    ensures
        loss_report(lost(context, reported), now) is None,
{
}

// ---------------------------------------------------------------------------
// The plugin
// ---------------------------------------------------------------------------

/// The endpoint that telemetry goes to: that for traces, or else that for all telemetry, or else
/// the default.
pub fn otlp_endpoint(traces: Option<String>, all: Option<String>) -> (endpoint: String)
    ensures
        endpoint@ == (match traces {
            Some(endpoint) => endpoint@,
            None => match all {
                Some(endpoint) => endpoint@,
                None => DEFAULT_OTLP_GRPC_ENDPOINT@,
            },
        }),
{
    match traces {
        Some(endpoint) => endpoint,
        None => match all {
            Some(endpoint) => endpoint,
            None => DEFAULT_OTLP_GRPC_ENDPOINT.to_string(),
        },
    }
}

/// What became of a span that ended.
pub enum SpanEnd {
    /// It was submitted; how many spans were lost is to be reported, if a number is given.
    Submitted(Option<u64>),
    /// It was dropped because it is malformed.
    Invalid(SpanConversionError),
    /// It was dropped because its component is not bound.
    Unbound,
}

impl SpanEnd {
    /// The slug under which this is logged, if it is.
    pub fn slug(&self) -> (slug: Option<&'static str>)
        ensures
            match self {
                SpanEnd::Submitted(None) => slug is None,
                SpanEnd::Submitted(Some(_)) => slug matches Some(text) && text@
                    == "wasi-otel-export-queue-full"@,
                SpanEnd::Invalid(_) => slug matches Some(text) && text@
                    == "wasi-otel-invalid-span-data"@,
                SpanEnd::Unbound => slug matches Some(text) && text@
                    == "wasi-otel-component-not-bound"@,
            },
    {
        match self {
            SpanEnd::Submitted(None) => None,
            SpanEnd::Submitted(Some(_)) => Some("wasi-otel-export-queue-full"),
            SpanEnd::Invalid(_) => Some("wasi-otel-invalid-span-data"),
            SpanEnd::Unbound => Some("wasi-otel-component-not-bound"),
        }
    }
}

/// The plugin: its configuration and the components that it serves.
pub struct WasiOtel {
    config: WasiOtelConfig,
    tracker: WorkloadTracker<(), ComponentContext>,
}

/// What the plugin keeps: the contexts of the components under their ids, in their workloads, and
/// in which workload each component stands.
#[verifier::ext_equal]
pub struct WasiOtelView {
    pub service_name: Seq<char>,
    pub workloads: Map<Seq<char>, Map<Seq<char>, ComponentContextView>>,
    pub components: Map<Seq<char>, Seq<char>>,
}

spec fn context_views(contexts: Map<Seq<char>, ComponentContext>) -> Map<
    Seq<char>,
    ComponentContextView,
> {
    contexts.map_values(|context: ComponentContext| context@)
}

spec fn workload_views(items: Map<Seq<char>, WorkloadTrackerItem<(), ComponentContext>>) -> Map<
    Seq<char>,
    Map<Seq<char>, ComponentContextView>,
> {
    items.map_values(
        |item: WorkloadTrackerItem<(), ComponentContext>| context_views(item.components@),
    )
}

/// Whether every context of a workload is in order and stands under its own id.
spec fn contexts_wf(contexts: Map<Seq<char>, ComponentContext>) -> bool {
    forall|id: Seq<char>| #[trigger]
        contexts.contains_key(id) ==> contexts[id].wf() && contexts[id]@.component_id == id
}

impl View for WasiOtel {
    type V = WasiOtelView;

    closed spec fn view(&self) -> WasiOtelView {
        WasiOtelView {
            service_name: self.config.service_name@,
            workloads: workload_views(self.tracker.items()),
            components: self.tracker.index(),
        }
    }
}

/// Whether the plugin serves the component.
pub open spec fn serves(view: WasiOtelView, component: Seq<char>) -> bool {
    &&& view.components.contains_key(component)
    &&& view.workloads.contains_key(view.components[component])
    &&& view.workloads[view.components[component]].contains_key(component)
}

/// The context of a component.
pub open spec fn context_of(view: WasiOtelView, component: Seq<char>) -> ComponentContextView {
    view.workloads[view.components[component]][component]
}

/// What the plugin keeps with another context of a component.
pub open spec fn with_context(
    view: WasiOtelView,
    component: Seq<char>,
    context: ComponentContextView,
) -> WasiOtelView {
    let workload = view.components[component];
    WasiOtelView {
        workloads: view.workloads.insert(
            workload,
            view.workloads[workload].insert(component, context),
        ),
        ..view
    }
}

/// What the plugin keeps once it serves another component.
pub open spec fn served(
    before: WasiOtelView,
    workload: Seq<char>,
    component: Seq<char>,
) -> WasiOtelView {
    let others = if before.workloads.contains_key(workload) {
        before.workloads[workload]
    } else {
        Map::empty()
    };
    WasiOtelView {
        workloads: before.workloads.insert(
            workload,
            others.insert(
                component,
                fresh_context(component, SPAN_SUBMISSION_QUEUE_CAPACITY as nat),
            ),
        ),
        components: before.components.insert(component, workload),
        ..before
    }
}

/// What the plugin keeps once it let a workload go.
pub open spec fn unserved(before: WasiOtelView, workload: Seq<char>) -> WasiOtelView {
    if before.workloads.contains_key(workload) {
        WasiOtelView {
            workloads: before.workloads.remove(workload),
            components: before.components.remove_keys(before.workloads[workload].dom()),
            ..before
        }
    } else {
        before
    }
}

/// Whether ending a span of a component, which comes to `outcome`, leads from `before` to `after`
/// and to `end`: a component that is served submits it, unless it is malformed.
pub open spec fn ended(
    before: WasiOtelView,
    after: WasiOtelView,
    component: Seq<char>,
    outcome: Result<ExportedSpanView, SpanConversionErrorView>,
    now: u64,
    end: SpanEnd,
) -> bool {
    if !serves(before, component) {
        after == before && end is Unbound
    } else {
        let context = context_of(before, component);
        match outcome {
            Ok(span) => {
                &&& after == with_context(before, component, submitted(context, span, now))
                &&& end == SpanEnd::Submitted(submission_report(context, now))
            },
            Err(error) => after == before && (end matches SpanEnd::Invalid(found) && found@
                == error),
        }
    }
}

/// Whether `contexts` are those of the components of a workload, each once, and stopped.
pub open spec fn halted_contexts(
    contexts: Seq<ComponentContext>,
    components: Map<Seq<char>, ComponentContextView>,
) -> bool {
    &&& forall|i: int|
        0 <= i < contexts.len() ==> (#[trigger] contexts[i]).wf() && components.contains_key(
            contexts[i]@.component_id,
        ) && contexts[i]@ == halted(components[contexts[i]@.component_id])
    &&& forall|id: Seq<char>| #[trigger]
        components.contains_key(id) ==> exists|i: int|
            0 <= i < contexts.len() && (#[trigger] contexts[i])@.component_id == id
    &&& forall|i: int, j: int|
        0 <= i < j < contexts.len() ==> (#[trigger] contexts[i])@.component_id != (
        #[trigger] contexts[j])@.component_id
}

impl WasiOtel {
    /// The tables and contexts of the plugin are in order.
    pub closed spec fn wf(&self) -> bool {
        &&& self.tracker.wf()
        &&& forall|id: Seq<char>| #[trigger]
            self.tracker.items().contains_key(id) ==> contexts_wf(
                self.tracker.items()[id].components@,
            )
    }

    /// A plugin that serves no components.
    pub fn new(config: WasiOtelConfig) -> (plugin: WasiOtel)
        ensures
            plugin.wf(),
            plugin@ == (WasiOtelView {
                service_name: config.service_name@,
                workloads: Map::empty(),
                components: Map::empty(),
            }),
    {
        let plugin = WasiOtel { config, tracker: WorkloadTracker::new() };
        assert(plugin@.workloads =~= Map::empty());
        plugin
    }

    /// The id of the plugin.
    pub fn id(&self) -> (id: &'static str)
        ensures
            id@ == "wasi-otel"@,
    {
        WASI_OTEL_ID
    }

    /// What the plugin offers to guests.
    pub fn world(&self) -> (world: WitWorld)
        ensures
            world.imports@.len() == 1,
            written_as(world.imports@[0], "wasi:otel/types,tracing,metrics,logs@0.2.0-rc.2"@),
            world.exports@.len() == 0,
    {
        let mut imports: Vec<WitInterface> = Vec::new();
        imports.push(WitInterface::parse("wasi:otel/types,tracing,metrics,logs@0.2.0-rc.2"));
        WitWorld { imports, exports: Vec::new() }
    }

    /// The configured service name.
    pub fn service_name(&self) -> (name: &str)
        ensures
            name@ == self@.service_name,
    {
        self.config.service_name.as_str()
    }

    /// Binds a component, and says what identifies it in its telemetry. Services cannot be bound.
    pub fn on_workload_item_bind(
        &mut self,
        is_component: bool,
        component_id: &str,
        workload_id: &str,
        workload_name: &str,
        workload_namespace: &str,
    ) -> (result: Result<Vec<(String, String)>, &'static str>)
        requires
            old(self).wf(),
        ensures
            final(self).wf(),
            match result {
                Ok(attributes) => {
                    &&& is_component
                    &&& pairs(attributes@) == resource_attributes(
                        old(self)@.service_name,
                        component_id@,
                        workload_id@,
                        workload_name@,
                        workload_namespace@,
                    )
                    &&& final(self)@ == served(old(self)@, workload_id@, component_id@)
                },
                Err(text) => {
                    &&& !is_component
                    &&& text@ == "Service can not be tracked"@
                    &&& final(self)@ == old(self)@
                },
            },
    {
        if !is_component {
            return Err("Service can not be tracked");
        }
        let attributes = component_resource(
            &self.config,
            component_id,
            workload_id,
            workload_name,
            workload_namespace,
        );
        let ghost before = *self;
        let context = ComponentContext::new(
            component_id.to_string(),
            SPAN_SUBMISSION_QUEUE_CAPACITY,
        );
        self.tracker.add_component(workload_id.to_string(), component_id.to_string(), context);
        proof {
            let items = before.tracker.items();
            let goal = served(before@, workload_id@, component_id@);
            assert forall|id: Seq<char>| #[trigger]
                self.tracker.items().contains_key(id) implies contexts_wf(
                self.tracker.items()[id].components@,
            ) && self@.workloads[id] == goal.workloads[id] by {
                if id != workload_id@ {
                    assert(items.contains_key(id));
                } else {
                    let others = if items.contains_key(id) {
                        items[id].components@
                    } else {
                        Map::<Seq<char>, ComponentContext>::empty()
                    };
                    assert(context_views(others.insert(component_id@, context)) =~= context_views(
                        others,
                    ).insert(component_id@, context@));
                    if !items.contains_key(id) {
                        assert(context_views(others) =~= Map::empty());
                    }
                }
            }
            assert(self@.workloads =~= goal.workloads);
            assert(self@ =~= goal);
        }
        Ok(attributes)
    }

    /// Ends a span of a component at a time, given in seconds, once it is known what the span comes
    /// to.
    pub fn end_span(
        &mut self,
        component: &str,
        outcome: Result<ExportedSpan, SpanConversionError>,
        now: u64,
    ) -> (end: SpanEnd)
        requires
            old(self).wf(),
            serves(old(self)@, component@) ==> context_of(old(self)@, component@).dropped_spans
                < u64::MAX,
        ensures
            final(self).wf(),
            ended(old(self)@, final(self)@, component@, span_outcome(outcome), now, end),
    {
        let ghost before = *self;
        proof {
            before.lemma_serves(component@);
        }
        match outcome {
            Ok(span) => match self.tracker.get_component_data_mut(component) {
                Some(context) => {
                    let ghost held = *context;
                    let report = context.submit(span, now);
                    let ghost changed = *context;
                    proof {
                        before.lemma_changed(*self, component@, held, changed);
                    }
                    SpanEnd::Submitted(report)
                },
                None => SpanEnd::Unbound,
            },
            Err(error) => match self.tracker.get_component_data(component) {
                Some(_) => SpanEnd::Invalid(error),
                None => SpanEnd::Unbound,
            },
        }
    }

    /// What the plugin serves is what its tracker holds.
    proof fn lemma_serves(&self, component: Seq<char>)
        requires
            self.wf(),
        ensures
            serves(self@, component) == self.tracker.has_component(component),
            serves(self@, component) ==> context_of(self@, component) == self.tracker.component(
                component,
            )@ && self.tracker.component(component).wf() && self.tracker.component(
                component,
            )@.component_id == component,
    {
        if self.tracker.has_component(component) {
            let workload = self.tracker.index()[component];
            assert(contexts_wf(self.tracker.items()[workload].components@));
        }
    }

    /// Changing one context changes nothing else.
    proof fn lemma_changed(
        self,
        after: WasiOtel,
        component: Seq<char>,
        held: ComponentContext,
        changed: ComponentContext,
    )
        requires
            self.wf(),
            serves(self@, component),
            held == self.tracker.component(component),
            changed.wf(),
            changed@.component_id == component,
            after.config == self.config,
            after.tracker.wf(),
            after.tracker.index() == self.tracker.index(),
            after.tracker.items().dom() == self.tracker.items().dom(),
            ({
                let workload = self.tracker.index()[component];
                &&& forall|id: Seq<char>|
                    id != workload && #[trigger] self.tracker.items().contains_key(id)
                        ==> after.tracker.items()[id] == self.tracker.items()[id]
                &&& after.tracker.items()[workload].components@
                    == self.tracker.items()[workload].components@.insert(component, changed)
            }),
        ensures
            after.wf(),
            after@ == with_context(self@, component, changed@),
    {
        let workload = self.tracker.index()[component];
        let contexts = self.tracker.items()[workload].components@;
        let goal = with_context(self@, component, changed@);
        assert(context_views(contexts.insert(component, changed)) =~= context_views(
            contexts,
        ).insert(component, changed@));
        assert forall|id: Seq<char>| #[trigger]
            after.tracker.items().contains_key(id) implies contexts_wf(
            after.tracker.items()[id].components@,
        ) && after@.workloads[id] == goal.workloads[id] by {
            assert(self.tracker.items().contains_key(id));
            assert(contexts_wf(contexts));
        }
        assert(after@.workloads =~= goal.workloads);
        assert(after@ =~= goal);
    }

    /// Ends a span of a component at a time, given in seconds. What it comes to rests on which
    /// times the machine's clock can hold.
    pub fn on_end(
        &mut self,
        component: &str,
        span: SpanData,
        outer: Option<&SpanContext>,
        now: u64,
    ) -> (end: SpanEnd)
        requires
            old(self).wf(),
            serves(old(self)@, component@) ==> context_of(old(self)@, component@).dropped_spans
                < u64::MAX,
        ensures
            final(self).wf(),
            exists|start: bool, finish: bool, events: Seq<bool>|
                clock_answers(span@, start, finish, events) && ended(
                    old(self)@,
                    final(self)@,
                    component@,
                    #[trigger] exported(span@, outer_view(outer), start, finish, events),
                    now,
                    end,
                ),
    {
        let outcome = try_into_sdk_span_data(span, outer);
        self.end_span(component, outcome, now)
    }

    /// How many spans of a component were lost: none of one that is not served.
    pub fn dropped_spans(&self, component: &str) -> (dropped: u64)
        requires
            self.wf(),
        ensures
            dropped == (if serves(self@, component@) {
                context_of(self@, component@).dropped_spans
            } else {
                0
            }),
    {
        match self.tracker.get_component_data(component) {
            Some(context) => context.dropped_spans(),
            None => 0,
        }
    }

    /// Fetches what is to be done next for a component, if it is served.
    pub fn next_step(&mut self, component: &str) -> (step: Option<ExportStep>)
        requires
            old(self).wf(),
        ensures
            final(self).wf(),
            match step {
                Some(step) => {
                    &&& serves(old(self)@, component@)
                    &&& is_next_step(context_of(old(self)@, component@), step)
                    &&& final(self)@ == with_context(
                        old(self)@,
                        component@,
                        fetched(context_of(old(self)@, component@)),
                    )
                },
                None => !serves(old(self)@, component@) && final(self)@ == old(self)@,
            },
    {
        let ghost before = *self;
        proof {
            before.lemma_serves(component@);
        }
        match self.tracker.get_component_data_mut(component) {
            Some(context) => {
                let ghost held = *context;
                let step = context.next();
                let ghost changed = *context;
                proof {
                    before.lemma_changed(*self, component@, held, changed);
                }
                Some(step)
            },
            None => None,
        }
    }

    /// Lets a workload go, with the contexts of its components, which take no more spans.
    pub fn on_workload_unbind(&mut self, workload: &str) -> (contexts: Vec<ComponentContext>)
        requires
            old(self).wf(),
        ensures
            final(self).wf(),
            final(self)@ == unserved(old(self)@, workload@),
            if old(self)@.workloads.contains_key(workload@) {
                halted_contexts(contexts@, old(self)@.workloads[workload@])
            } else {
                contexts@.len() == 0
            },
    {
        let ghost before = *self;
        match self.tracker.remove_workload(workload) {
            Some(item) => {
                let ghost components = item.components@;
                proof {
                    assert(before.tracker.items().contains_key(workload@));
                    assert(context_views(components).dom() =~= components.dom());
                    assert(self@.workloads =~= before@.workloads.remove(workload@));
                    assert forall|id: Seq<char>| #[trigger]
                        self.tracker.items().contains_key(id) implies contexts_wf(
                        self.tracker.items()[id].components@,
                    ) by {
                        assert(before.tracker.items().contains_key(id));
                    }
                    assert(self@ =~= unserved(before@, workload@));
                }
                halt_all(item.components)
            },
            None => {
                assert(before.tracker.items().remove(workload@) =~= before.tracker.items());
                Vec::new()
            },
        }
    }

    /// The workloads that the plugin serves.
    pub fn workloads(&self) -> (ids: Vec<String>)
        requires
            self.wf(),
        ensures
            texts(ids@).no_duplicates(),
            forall|id: Seq<char>| #[trigger]
                texts(ids@).contains(id) == self@.workloads.contains_key(id),
    {
        self.tracker.workloads.keys()
    }
}

/// Stops all contexts of a table.
fn halt_all(table: Table<ComponentContext>) -> (contexts: Vec<ComponentContext>)
    requires
        table.wf(),
        contexts_wf(table@),
    ensures
        halted_contexts(contexts@, context_views(table@)),
{
    let ghost listing = table.listing();
    let ghost components = context_views(table@);
    let mut entries = table.into_entries();
    let ghost all = entries@;
    let n: usize = entries.len();
    let mut contexts: Vec<ComponentContext> = Vec::new();
    proof {
        assert forall|i: int| 0 <= i < n implies (#[trigger] all[i]).1.wf()
            && components.contains_key(all[i].0@) && all[i].1@ == components[all[i].0@]
            && all[i].1@.component_id == all[i].0@ by {
            assert(listing[i] == (all[i].0@, all[i].1));
            table.lemma_entry(i);
        }
        assert forall|i: int, j: int| 0 <= i < j < n implies (#[trigger] all[i]).0@ != (
        #[trigger] all[j]).0@ by {
            assert(listing[i].0 == all[i].0@ && listing[j].0 == all[j].0@);
            table.lemma_entry(i);
            let at = table.lemma_key(listing[i].0);
        }
    }
    for i in 0..n
        invariant
            n == all.len(),
            entries@ == all.skip(i as int),
            contexts@.len() == i,
            forall|k: int|
                0 <= k < n ==> (#[trigger] all[k]).1.wf() && components.contains_key(all[k].0@)
                    && all[k].1@ == components[all[k].0@] && all[k].1@.component_id == all[k].0@,
            forall|k: int|
                0 <= k < i ==> (#[trigger] contexts@[k]).wf() && contexts@[k]@ == halted(
                    all[k].1@,
                ),
    {
        let (_, mut context) = entries.remove(0);
        assert(entries@ =~= all.skip(i + 1));
        assert(context == all[i as int].1);
        context.shutdown();
        contexts.push(context);
    }
    proof {
        assert forall|k: int| 0 <= k < contexts@.len() implies (#[trigger] contexts@[k]).wf()
            && components.contains_key(contexts@[k]@.component_id) && contexts@[k]@ == halted(
            components[contexts@[k]@.component_id],
        ) by {
            assert(all[k].1@.component_id == all[k].0@);
        }
        assert forall|id: Seq<char>| #[trigger] components.contains_key(id) implies exists|k: int|
            0 <= k < contexts@.len() && (#[trigger] contexts@[k])@.component_id == id by {
            let at = table.lemma_key(id);
            assert(listing[at] == (all[at].0@, all[at].1));
            assert(contexts@[at]@.component_id == id);
        }
        assert forall|a: int, b: int| 0 <= a < b < contexts@.len() implies (
        #[trigger] contexts@[a])@.component_id != (#[trigger] contexts@[b])@.component_id by {
            assert(all[a].0@ != all[b].0@);
        }
    }
    contexts
}

impl Default for WasiOtel {
    fn default() -> (plugin: WasiOtel)
        ensures
            plugin.wf(),
            plugin@.service_name == WASI_OTEL_ID@,
            plugin@.workloads == Map::<Seq<char>, Map<Seq<char>, ComponentContextView>>::empty(),
            plugin@.components == Map::<Seq<char>, Seq<char>>::empty(),
    {
        WasiOtel::new(WasiOtelConfig::default())
    }
}

/// The spans of a component concern no other: ending one leaves the contexts of all other
/// components as they are.
pub proof fn law_components_are_apart(
    before: WasiOtelView,
    after: WasiOtelView,
    component: Seq<char>,
    outcome: Result<ExportedSpanView, SpanConversionErrorView>,
    now: u64,
    end: SpanEnd,
    other: Seq<char>,
)
    requires
        ended(before, after, component, outcome, now, end),
        other != component,
    ensures
        serves(after, other) == serves(before, other),
        serves(before, other) ==> context_of(after, other) == context_of(before, other),
{
}

/// A component that was let go with its workload submits no more spans.
pub proof fn law_unbound_components_submit_nothing(
    before: WasiOtelView,
    workload: Seq<char>,
    component: Seq<char>,
)
    requires
        before.workloads.contains_key(workload),
        before.workloads[workload].contains_key(component),
    ensures
        !serves(unserved(before, workload), component),
{
}

/// A component is known by the configured service name without the white space around it; where
/// nothing is left of that, or it is the id of the plugin, by the name of its workload. Beside it
/// stand its namespace, its workload's id and name, and its own id.
pub proof fn law_components_are_known_by_their_service(
    configured: Seq<char>,
    component_id: Seq<char>,
    workload_id: Seq<char>,
    workload_name: Seq<char>,
    workload_namespace: Seq<char>,
)
    ensures
        ({
            let list = resource_attributes(
                configured,
                component_id,
                workload_id,
                workload_name,
                workload_namespace,
            );
            &&& list.len() == 5
            &&& list[0].0 == "service.name"@
            &&& trimmed(configured).len() == 0 ==> list[0].1 == workload_name
            &&& trimmed(configured) == "wasi-otel"@ ==> list[0].1 == workload_name
            &&& trimmed(configured).len() > 0 && trimmed(configured) != "wasi-otel"@ ==> list[0].1
                == trimmed(configured)
            &&& list[1] == ("service.namespace"@, workload_namespace)
            &&& list[2] == ("service.instance.id"@, workload_id)
            &&& list[3] == ("wasmcloud.workload.name"@, workload_name)
            &&& list[4] == ("wasmcloud.component.id"@, component_id)
        }),
{
}

/// A span that is submitted waits behind all others where its component takes spans and fewer wait
/// than can, and nothing is reported. Else it is lost: it is counted, nothing that waits changes,
/// and the count is reported where the last report was thirty seconds ago or longer, which is then
/// the last report.
pub proof fn law_spans_wait_while_there_is_room(
    context: ComponentContextView,
    span: ExportedSpanView,
    now: u64,
)
    requires
        context.dropped_spans < u64::MAX,
    ensures
        ({
            let after = submitted(context, span, now);
            let report = submission_report(context, now);
            let room = !context.stopped && context.waiting.len() < context.capacity;
            &&& after.component_id == context.component_id
            &&& after.capacity == context.capacity
            &&& after.stopped == context.stopped
            &&& room ==> after.waiting == context.waiting + seq![span] && after.dropped_spans
                == context.dropped_spans && after.last_report == context.last_report && report is None
            &&& !room ==> after.waiting == context.waiting && after.dropped_spans
                == context.dropped_spans + 1
            &&& !room && now >= context.last_report + 30 ==> report == Some(after.dropped_spans)
                && after.last_report == now
            &&& !room && now < context.last_report + 30 ==> report is None && after.last_report
                == context.last_report
        }),
{
    assert(context.waiting.push(span) =~= context.waiting + seq![span]);
}

/// A loss is counted and reported alike whether it is of a span that was submitted or not.
pub proof fn law_losses_are_counted(context: ComponentContextView, now: u64)
    requires
        context.dropped_spans < u64::MAX,
    ensures
        lost(context, now).dropped_spans == context.dropped_spans + 1,
        lost(context, now).waiting == context.waiting,
        lost(context, now).stopped == context.stopped,
        lost(context, now).capacity == context.capacity,
        lost(context, now).component_id == context.component_id,
        now >= context.last_report + 30 ==> loss_report(context, now) == Some(
            lost(context, now).dropped_spans,
        ) && lost(context, now).last_report == now,
        now < context.last_report + 30 ==> loss_report(context, now) is None && lost(
            context,
            now,
        ).last_report == context.last_report,
{
}

/// What is to be done for a component is to export its oldest span, which is then taken out;
/// without one, to wait, or, once it takes no more, to flush. Stopping it changes nothing but
/// that.
pub proof fn law_spans_are_exported_oldest_first(context: ComponentContextView, step: ExportStep)
    requires
        is_next_step(context, step),
    ensures
        context.waiting.len() > 0 ==> (step matches ExportStep::Export(span) && span@
            == context.waiting[0]) && fetched(context).waiting == context.waiting.skip(1),
        context.waiting.len() == 0 && context.stopped ==> step is Flush && fetched(context)
            == context,
        context.waiting.len() == 0 && !context.stopped ==> step is Wait && fetched(context)
            == context,
        fetched(context).dropped_spans == context.dropped_spans,
        fetched(context).last_report == context.last_report,
        fetched(context).stopped == context.stopped,
        fetched(context).capacity == context.capacity,
        fetched(context).component_id == context.component_id,
        halted(context).stopped,
        halted(context).waiting == context.waiting,
        halted(context).dropped_spans == context.dropped_spans,
        halted(context).last_report == context.last_report,
        halted(context).capacity == context.capacity,
        halted(context).component_id == context.component_id,
{
    if context.waiting.len() > 0 {
        assert(context.waiting.drop_first() =~= context.waiting.skip(1));
    }
}

/// A component that is bound is served, in its workload, with room for 2048 spans, none of which
/// waits and none of which is lost; the components beside it stay as they are.
pub proof fn law_bound_components_are_served(
    before: WasiOtelView,
    workload: Seq<char>,
    component: Seq<char>,
    other: Seq<char>,
)
    requires
        other != component,
    ensures
        ({
            let after = served(before, workload, component);
            let context = context_of(after, component);
            &&& serves(after, component)
            &&& after.components[component] == workload
            &&& context.component_id == component
            &&& context.waiting.len() == 0
            &&& context.capacity == 2048
            &&& !context.stopped
            &&& context.dropped_spans == 0
            &&& context.last_report == 0
            &&& serves(before, other) ==> serves(after, other) && context_of(after, other)
                == context_of(before, other)
            &&& after.service_name == before.service_name
        }),
{
}

/// A span that ends is submitted where its component is served and it came through: it then waits
/// last among the spans of that component, where there is room. One that did not come through is
/// dropped, with what is wrong with it, and one of a component that is not served too.
pub proof fn law_ended_spans_are_submitted(
    before: WasiOtelView,
    after: WasiOtelView,
    component: Seq<char>,
    outcome: Result<ExportedSpanView, SpanConversionErrorView>,
    now: u64,
    end: SpanEnd,
)
    requires
        ended(before, after, component, outcome, now, end),
    ensures
        !serves(before, component) ==> after == before && end is Unbound,
        serves(before, component) && outcome is Err ==> after == before && (
        end matches SpanEnd::Invalid(error) && error@ == outcome->Err_0),
        serves(before, component) && outcome is Ok ==> ({
            let was = context_of(before, component);
            let is = context_of(after, component);
            &&& end is Submitted
            &&& serves(after, component)
            &&& after.components == before.components
            &&& after.service_name == before.service_name
            &&& !was.stopped && was.waiting.len() < was.capacity ==> is.waiting == was.waiting
                + seq![outcome->Ok_0] && is.dropped_spans == was.dropped_spans && end
                == SpanEnd::Submitted(None)
            &&& was.stopped || was.waiting.len() >= was.capacity ==> is.waiting == was.waiting
        }),
{
    if serves(before, component) && outcome is Ok {
        let was = context_of(before, component);
        assert(was.waiting.push(outcome->Ok_0) =~= was.waiting + seq![outcome->Ok_0]);
    }
}

/// A workload that is let go takes its components along and leaves those of other workloads as they
/// are; the contexts that are handed out are those of its components, each once, with all spans
/// that wait, and take no more.
pub proof fn law_workloads_go_with_their_components(
    before: WasiOtelView,
    workload: Seq<char>,
    contexts: Seq<ComponentContext>,
    component: Seq<char>,
)
    requires
        before.workloads.contains_key(workload),
        halted_contexts(contexts, before.workloads[workload]),
    ensures
        !unserved(before, workload).workloads.contains_key(workload),
        serves(before, component) && !before.workloads[workload].contains_key(component) ==> serves(
            unserved(before, workload),
            component,
        ) && context_of(unserved(before, workload), component) == context_of(before, component),
        unserved(before, workload).service_name == before.service_name,
        before.workloads[workload].contains_key(component) ==> exists|i: int|
            0 <= i < contexts.len() && (#[trigger] contexts[i])@.component_id == component
                && contexts[i]@.stopped && contexts[i]@.waiting
                == before.workloads[workload][component].waiting && contexts[i]@.dropped_spans
                == before.workloads[workload][component].dropped_spans,
        forall|i: int|
            0 <= i < contexts.len() ==> before.workloads[workload].contains_key(
                (#[trigger] contexts[i])@.component_id,
            ),
{
    if before.workloads[workload].contains_key(component) {
        let i = choose|i: int|
            0 <= i < contexts.len() && (#[trigger] contexts[i])@.component_id == component;
        assert(contexts[i]@ == halted(before.workloads[workload][component]));
    }
}

/// A component is served exactly where the index knows its workload and that workload has its
/// context.
pub proof fn law_served_components_stand_in_their_workload(
    view: WasiOtelView,
    component: Seq<char>,
)
    ensures
        serves(view, component) <==> exists|workload: Seq<char>|
            {
                &&& view.components.contains_key(component)
                &&& view.components[component] == workload
                &&& view.workloads.contains_key(workload)
                &&& #[trigger] view.workloads[workload].contains_key(component)
            },
        serves(view, component) ==> context_of(view, component)
            == view.workloads[view.components[component]][component],
{
}

/// Telemetry goes to the endpoint for traces before that for all telemetry, and to the default only
/// without either.
pub proof fn law_endpoints_for_traces_come_first(
    traces: Option<String>,
    all: Option<String>,
    endpoint: String,
)
    requires
        call_ensures(otlp_endpoint, (traces, all), endpoint),
    ensures
        traces matches Some(own) ==> endpoint@ == own@,
        traces is None && all is Some ==> endpoint@ == all->0@,
        traces is None && all is None ==> endpoint@ == "http://localhost:4317"@,
{
}

/// What became of a span is logged under a slug of its own, and a span that was submitted only where
/// lost spans are to be reported.
pub proof fn law_ended_spans_are_logged(end: &SpanEnd, slug: Option<&'static str>)
    requires
        call_ensures(SpanEnd::slug, (end,), slug),
    ensures
        slug is None <==> *end == SpanEnd::Submitted(None),
        *end is Submitted && slug is Some ==> slug->0@ == "wasi-otel-export-queue-full"@,
        *end is Invalid ==> slug is Some && slug->0@ == "wasi-otel-invalid-span-data"@,
        *end is Unbound ==> slug is Some && slug->0@ == "wasi-otel-component-not-bound"@,
{
}

} // verus!
