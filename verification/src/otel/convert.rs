//! Spans and log records: from what guests hand in to what is exported.
use vstd::prelude::*;

use crate::guest_trace::law_interleaved_tasks_keep_their_spans;
use crate::guest_trace::nearest_span;
use crate::guest_trace::tells_apart;
use crate::guest_trace::GuestTraces;
use crate::otel::json::attributes_of;
use crate::otel::json::key_values;
use crate::otel::types::Datetime;
use crate::otel::types::Event;
use crate::otel::types::EventView;
use crate::otel::types::ExportedEvent;
use crate::otel::types::ExportedEventView;
use crate::otel::types::ExportedLink;
use crate::otel::types::ExportedLinkView;
use crate::otel::types::ExportedScope;
use crate::otel::types::ExportedScopeView;
use crate::otel::types::ExportedSpan;
use crate::otel::types::ExportedSpanView;
use crate::otel::types::Link;
use crate::otel::types::LinkView;
use crate::otel::types::SpanConversionError;
use crate::otel::types::SpanConversionErrorView;
use crate::otel::types::SpanData;
use crate::otel::types::SpanDataView;
use crate::otel::types::SpanKind;
use crate::otel::types::Status;
use crate::otel::types::WitSpanContext;
use crate::otel::types::WitSpanContextView;
use crate::propagation::accepted_entries;
use crate::propagation::copy_pairs;
use crate::propagation::identifies;
use crate::propagation::pairs;
use crate::propagation::span_id_of;
use crate::propagation::state_header;
use crate::propagation::state_members;
use crate::propagation::trace_id_of;
use crate::propagation::write_state;
use crate::propagation::SpanContext;
use crate::propagation::SpanContextView;
use crate::text::characters;
use crate::text::cut_once;
use crate::text::hex_fixed;
use crate::text::push_hex;
use crate::text::split;
use crate::text::split_on;
use crate::text::split_once;
use crate::text::string_of;

verus! {

// ---------------------------------------------------------------------------
// Ids and contexts
// ---------------------------------------------------------------------------

/// `opentelemetry::trace::TraceId::from_hex`: the number that a hexadecimal numeral, with or
/// without a plus sign before it, stands for, if it fits.
#[verifier::external_body]
pub(crate) fn read_trace_id(hex: &str) -> (id: Option<u128>)
    ensures
        id == trace_id_of(hex@),
{
    let id = opentelemetry::trace::TraceId::from_hex(hex).ok()?;
    Some(u128::from_be_bytes(id.to_bytes()))
}

/// `opentelemetry::trace::SpanId::from_hex`: the number that a hexadecimal numeral, with or
/// without a plus sign before it, stands for, if it fits.
#[verifier::external_body]
pub(crate) fn read_span_id(hex: &str) -> (id: Option<u64>)
    ensures
        id == span_id_of(hex@),
{
    let id = opentelemetry::trace::SpanId::from_hex(hex).ok()?;
    Some(u64::from_be_bytes(id.to_bytes()))
}

/// The keys and values that the members of a `tracestate` header hold, a member without `=` left
/// out.
pub open spec fn header_entries(members: Seq<Seq<char>>) -> Seq<(Seq<char>, Seq<char>)>
    decreases members.len(),
{
    if members.len() == 0 {
        Seq::empty()
    } else {
        let before = header_entries(members.drop_last());
        match cut_once(members.last(), '=') {
            Some((key, value)) => before.push((key, value)),
            None => before,
        }
    }
}

/// A span context as it is handed to a guest.
pub open spec fn handed_out(context: SpanContextView) -> WitSpanContextView {
    WitSpanContextView {
        trace_id: hex_fixed(context.trace_id as nat, 32),
        span_id: hex_fixed(context.span_id as nat, 16),
        sampled: context.sampled,
        is_remote: context.is_remote,
        trace_state: header_entries(split_on(state_header(context.trace_state), ',')),
    }
}

/// A span context as it is handed to a guest.
pub fn otel_span_context_to_wit(context: &SpanContext) -> (out: WitSpanContext)
    ensures
        out@ == handed_out(context@),
{
    let mut trace_id = String::new();
    push_hex(&mut trace_id, context.trace_id, 32);
    let mut span_id = String::new();
    push_hex(&mut span_id, context.span_id as u128, 16);
    assert(trace_id@ =~= hex_fixed(context.trace_id as nat, 32));
    assert(span_id@ =~= hex_fixed(context.span_id as nat, 16));
    let header = write_state(&context.trace_state);
    let letters = characters(header.as_str());
    let members = split(&letters, ',');
    let ghost all = split_on(header@, ',');
    let n: usize = members.len();
    let mut trace_state: Vec<(String, String)> = Vec::new();
    assert(pairs(trace_state@) =~= Seq::empty());
    assert(all.take(0) =~= Seq::empty());
    for i in 0..n
        invariant
            n == members@.len(),
            members@.map_values(|p: Vec<char>| p@) == all,
            pairs(trace_state@) == header_entries(all.take(i as int)),
    {
        let ghost before = pairs(trace_state@);
        proof {
            assert(all.take(i + 1).drop_last() =~= all.take(i as int));
            assert(all[i as int] == members@[i as int]@);
        }
        match split_once(&members[i], '=') {
            Some((key, value)) => {
                let entry = (string_of(&key), string_of(&value));
                trace_state.push(entry);
                assert(pairs(trace_state@) =~= before.push((entry.0@, entry.1@)));
            },
            None => {},
        }
    }
    assert(all.take(n as int) =~= all);
    WitSpanContext {
        trace_id,
        span_id,
        sampled: context.sampled,
        is_remote: context.is_remote,
        trace_state,
    }
}

/// The context that a guest gets when no span is open around it.
pub open spec fn no_context() -> WitSpanContextView {
    WitSpanContextView {
        trace_id: Seq::empty(),
        span_id: Seq::empty(),
        sampled: false,
        is_remote: false,
        trace_state: Seq::empty(),
    }
}

/// The context of the span around a guest, as it is handed to it: empty where there is none.
pub open spec fn outer_context(context: SpanContextView) -> WitSpanContextView {
    if identifies(context) {
        handed_out(context)
    } else {
        no_context()
    }
}

/// The context of the span around a guest, as it is handed to it: empty where there is none.
pub fn outer_span_context(context: &SpanContext) -> (out: WitSpanContext)
    ensures
        out@ == outer_context(context@),
{
    if context.trace_id != 0 && context.span_id != 0 {
        otel_span_context_to_wit(context)
    } else {
        let out = WitSpanContext {
            trace_id: String::new(),
            span_id: String::new(),
            sampled: false,
            is_remote: false,
            trace_state: Vec::new(),
        };
        assert(out@ =~= no_context());
        out
    }
}

/// The context around a guest's call: that of the nearest registered caller on its call stack,
/// innermost first, whatever is current on the host; only where no caller is registered, the one
/// that is current there.
pub open spec fn context_around<K>(
    traces: Map<K, SpanContext>,
    stack: Seq<K>,
    current: SpanContextView,
) -> SpanContextView {
    match nearest_span(traces, stack) {
        Some(context) => context@,
        None => current,
    }
}

/// The context around a guest's call.
pub fn caller_context<K: PartialEq>(
    traces: &GuestTraces<K, SpanContext>,
    stack: &Vec<K>,
    current: &SpanContext,
) -> (context: SpanContext)
    requires
        tells_apart::<K>(),
        traces.wf(),
    ensures
        context@ == context_around(traces@, stack@, current@),
{
    traces.current(stack, current).clone()
}

/// The context around a guest's call, as it is handed to the guest: empty where there is none.
pub fn outer_span_context_of<K: PartialEq>(
    traces: &GuestTraces<K, SpanContext>,
    stack: &Vec<K>,
    current: &SpanContext,
) -> (out: WitSpanContext)
    requires
        tells_apart::<K>(),
        traces.wf(),
    ensures
        out@ == outer_context(context_around(traces@, stack@, current@)),
{
    outer_span_context(&caller_context(traces, stack, current))
}

/// A guest whose nearest registered caller has a valid context gets that context, whatever is
/// current on the host, and whatever is registered for tasks that are not on its call stack.
pub proof fn law_guests_get_their_callers_context<K>(
    traces: Map<K, SpanContext>,
    stack: Seq<K>,
    current: SpanContextView,
    other: K,
    context: SpanContext,
)
    requires
        nearest_span(traces, stack) is Some,
        identifies(nearest_span(traces, stack)->0@),
    ensures
        outer_context(context_around(traces, stack, current)) == handed_out(
            nearest_span(traces, stack)->0@,
        ),
        !stack.contains(other) ==> context_around(traces.insert(other, context), stack, current)
            == context_around(traces, stack, current),
        !stack.contains(other) ==> context_around(traces.remove(other), stack, current)
            == context_around(traces, stack, current),
{
    if !stack.contains(other) {
        law_interleaved_tasks_keep_their_spans(traces, other, context, stack);
    }
}

/// The error of an invalid field.
pub open spec fn invalid(field: Seq<char>) -> SpanConversionErrorView {
    SpanConversionErrorView::InvalidField(field)
}

/// The length of a text in bytes.
pub open spec fn byte_len(text: Seq<char>) -> nat {
    vstd::utf8::encode_utf8(text).len()
}

/// The context that a guest's context stands for: both ids must be numerals of their full length
/// other than zero, and the trace state well formed. The first thing that is wrong is the error.
pub open spec fn span_context_of(value: WitSpanContextView) -> Result<
    SpanContextView,
    SpanConversionErrorView,
> {
    if byte_len(value.trace_id) != 32 {
        Err(invalid("trace_id"@))
    } else if byte_len(value.span_id) != 16 {
        Err(invalid("span_id"@))
    } else if trace_id_of(value.trace_id) is None {
        Err(invalid("trace_id"@))
    } else if span_id_of(value.span_id) is None {
        Err(invalid("span_id"@))
    } else if trace_id_of(value.trace_id) == Some(0u128) {
        Err(invalid("trace_id"@))
    } else if span_id_of(value.span_id) == Some(0u64) {
        Err(invalid("span_id"@))
    } else if !state_members(value.trace_state) {
        Err(invalid("trace_state"@))
    } else {
        Ok(
            SpanContextView {
                trace_id: trace_id_of(value.trace_id)->0,
                span_id: span_id_of(value.span_id)->0,
                sampled: value.sampled,
                is_remote: value.is_remote,
                trace_state: value.trace_state,
            },
        )
    }
}

/// What a result of a context holds.
pub open spec fn context_outcome(result: Result<SpanContext, SpanConversionError>) -> Result<
    SpanContextView,
    SpanConversionErrorView,
> {
    match result {
        Ok(context) => Ok(context@),
        Err(error) => Err(error@),
    }
}

/// The context that a guest's context stands for.
pub fn span_context(value: &WitSpanContext) -> (result: Result<SpanContext, SpanConversionError>)
    ensures
        context_outcome(result) == span_context_of(value@),
{
    if value.trace_id.as_str().as_bytes().len() != 32 {
        return Err(SpanConversionError::InvalidField("trace_id"));
    }
    if value.span_id.as_str().as_bytes().len() != 16 {
        return Err(SpanConversionError::InvalidField("span_id"));
    }
    let trace_id: u128 = match read_trace_id(value.trace_id.as_str()) {
        Some(id) => id,
        None => {
            return Err(SpanConversionError::InvalidField("trace_id"));
        },
    };
    let span_id: u64 = match read_span_id(value.span_id.as_str()) {
        Some(id) => id,
        None => {
            return Err(SpanConversionError::InvalidField("span_id"));
        },
    };
    if trace_id == 0 {
        return Err(SpanConversionError::InvalidField("trace_id"));
    }
    if span_id == 0 {
        return Err(SpanConversionError::InvalidField("span_id"));
    }
    if !accepted_entries(&value.trace_state) {
        return Err(SpanConversionError::InvalidField("trace_state"));
    }
    Ok(
        SpanContext {
            trace_id,
            span_id,
            sampled: value.sampled,
            is_remote: value.is_remote,
            trace_state: copy_pairs(&value.trace_state),
        },
    )
}

/// The parent that a guest names: none where it names none.
pub open spec fn parent_id_of(hex: Seq<char>) -> Result<u64, SpanConversionErrorView> {
    if hex.len() == 0 {
        Ok(0)
    } else if byte_len(hex) != 16 || span_id_of(hex) is None || span_id_of(hex) == Some(0u64) {
        Err(invalid("parent_span_id"@))
    } else {
        Ok(span_id_of(hex)->0)
    }
}

/// What a result of a parent holds.
pub open spec fn parent_outcome(result: Result<u64, SpanConversionError>) -> Result<
    u64,
    SpanConversionErrorView,
> {
    match result {
        Ok(id) => Ok(id),
        Err(error) => Err(error@),
    }
}

/// The parent that a guest names.
fn parent_id(hex: &str) -> (result: Result<u64, SpanConversionError>)
    ensures
        parent_outcome(result) == parent_id_of(hex@),
{
    let length: usize = hex.as_bytes().len();
    if length == 0 {
        assert(hex@.len() == 0) by {
            if hex@.len() > 0 {
                vstd::utf8::encode_utf8_first_scalar(hex@);
            }
        }
        return Ok(0);
    }
    if length != 16 {
        return Err(SpanConversionError::InvalidField("parent_span_id"));
    }
    match read_span_id(hex) {
        Some(id) => {
            if id == 0 {
                Err(SpanConversionError::InvalidField("parent_span_id"))
            } else {
                Ok(id)
            }
        },
        None => Err(SpanConversionError::InvalidField("parent_span_id")),
    }
}

// ---------------------------------------------------------------------------
// Times
// ---------------------------------------------------------------------------

/// `SystemTime::checked_add` on the beginning of 1970, and `Duration::new`, which panics where the
/// seconds overflow: whether the machine's clock can hold the time. It holds the beginning of 1970,
/// which is a time of the clock already. How far it reaches beyond rests on the machine.
#[verifier::external_body]
pub(crate) fn clock_holds(time: Datetime) -> (holds: bool)
    requires
        time.seconds + time.nanoseconds / 1_000_000_000u32 <= u64::MAX,
    ensures
        is_epoch(time) ==> holds,
{
    let since = std::time::Duration::new(time.seconds, time.nanoseconds);
    std::time::SystemTime::UNIX_EPOCH.checked_add(since).is_some()
}

/// Whether a time is written as times are: with less than a second of nanoseconds.
pub open spec fn proper(time: Datetime) -> bool {
    time.nanoseconds < 1_000_000_000
}

/// Whether a time is the beginning of 1970.
pub open spec fn is_epoch(time: Datetime) -> bool {
    time.seconds == 0 && time.nanoseconds == 0
}

/// Whether this is an answer of the machine's clock to whether it holds a time.
pub closed spec fn clock_says(time: Datetime, holds: bool) -> bool {
    call_ensures(clock_holds, (time,), holds)
}

/// Whether the machine's clock holds a time: it gives no other answer.
pub open spec fn clock_reaches(time: Datetime) -> bool {
    forall|holds: bool| #[trigger] clock_says(time, holds) ==> holds
}

/// What any machine answers to whether its clock holds a time: never that it holds one that is not
/// written as times are, and else what the clock says, which is always that it holds the beginning
/// of 1970.
pub open spec fn clock_answer(time: Datetime, holds: bool) -> bool {
    &&& holds ==> proper(time)
    &&& is_epoch(time) ==> holds
    &&& proper(time) ==> clock_says(time, holds)
}

/// Asks a clock about a time.
fn ask<F: Fn(Datetime) -> bool>(clock: F, time: Datetime) -> (holds: bool)
    requires
        call_requires(clock, (time,)),
    ensures
        call_ensures(clock, (time,), holds),
{
    clock(time)
}

/// What the machine's clock says of a time.
pub(crate) fn clock_reply(time: Datetime) -> (holds: bool)
    requires
        time.seconds + time.nanoseconds / 1_000_000_000u32 <= u64::MAX,
    ensures
        clock_says(time, holds),
        is_epoch(time) ==> holds,
{
    ask(clock_holds, time)
}

/// The time that a guest gives for a field, when it is known whether the clock holds it.
pub open spec fn time_of(time: Datetime, holds: bool, field: Seq<char>) -> Result<
    Datetime,
    SpanConversionErrorView,
> {
    if proper(time) && holds {
        Ok(time)
    } else {
        Err(invalid(field))
    }
}

/// Whether the clock holds a time, if it is written as times are.
fn held(time: Datetime) -> (holds: bool)
    ensures
        clock_answer(time, holds),
{
    if time.nanoseconds >= 1_000_000_000 {
        return false;
    }
    assert(time.nanoseconds / 1_000_000_000u32 == 0);
    clock_reply(time)
}

/// What a result of a time holds.
pub open spec fn time_outcome(result: Result<Datetime, SpanConversionError>) -> Result<
    Datetime,
    SpanConversionErrorView,
> {
    match result {
        Ok(time) => Ok(time),
        Err(error) => Err(error@),
    }
}

/// The time that a guest gives for a field, when it is known whether the clock holds it.
pub fn datetime(value: &Datetime, holds: bool, field: &'static str) -> (result: Result<
    Datetime,
    SpanConversionError,
>)
    ensures
        time_outcome(result) == time_of(*value, holds, field@),
{
    if value.nanoseconds >= 1_000_000_000 || !holds {
        Err(SpanConversionError::InvalidField(field))
    } else {
        Ok(*value)
    }
}

/// Whether one time comes before another.
pub open spec fn earlier(a: Datetime, b: Datetime) -> bool {
    a.seconds < b.seconds || (a.seconds == b.seconds && a.nanoseconds < b.nanoseconds)
}

// ---------------------------------------------------------------------------
// Spans
// ---------------------------------------------------------------------------

/// Which of the times of a span the clock holds.
#[derive(Debug, PartialEq, Eq)]
pub struct HeldTimes {
    pub start: bool,
    pub end: bool,
    pub events: Vec<bool>,
}

/// What events come to: each of them, or the error of the first that has one, its time before its
/// attributes.
pub open spec fn events_of(events: Seq<EventView>, held: Seq<bool>) -> Result<
    Seq<ExportedEventView>,
    SpanConversionErrorView,
>
    decreases events.len(),
{
    if events.len() == 0 {
        Ok(Seq::empty())
    } else {
        let i = events.len() - 1;
        let event = events.last();
        match events_of(events.drop_last(), held) {
            Err(error) => Err(error),
            Ok(done) => match time_of(event.time, held[i], "event_time"@) {
                Err(error) => Err(error),
                Ok(timestamp) => match attributes_of(event.attributes) {
                    Err(error) => Err(error),
                    Ok(attributes) => Ok(
                        done.push(
                            ExportedEventView {
                                name: event.name,
                                timestamp,
                                attributes,
                                dropped_attributes_count: 0,
                            },
                        ),
                    ),
                },
            },
        }
    }
}

/// The error of a part of the events is that of all.
pub(crate) proof fn lemma_event_error_stays(events: Seq<EventView>, held: Seq<bool>, n: int)
    requires
        0 <= n <= events.len(),
        events_of(events.take(n), held) is Err,
    ensures
        events_of(events, held) == events_of(events.take(n), held),
    decreases events.len(),
{
    if n < events.len() {
        assert(events.drop_last().take(n) =~= events.take(n));
        lemma_event_error_stays(events.drop_last(), held, n);
    } else {
        assert(events.take(n) =~= events);
    }
}

/// What links come to: each of them, or the error of the first that has one, its context before
/// its attributes.
pub open spec fn links_of(links: Seq<LinkView>) -> Result<
    Seq<ExportedLinkView>,
    SpanConversionErrorView,
>
    decreases links.len(),
{
    if links.len() == 0 {
        Ok(Seq::empty())
    } else {
        let link = links.last();
        match links_of(links.drop_last()) {
            Err(error) => Err(error),
            Ok(done) => match span_context_of(link.span_context) {
                Err(error) => Err(error),
                Ok(span_context) => match attributes_of(link.attributes) {
                    Err(error) => Err(error),
                    Ok(attributes) => Ok(
                        done.push(
                            ExportedLinkView {
                                span_context,
                                attributes,
                                dropped_attributes_count: 0,
                            },
                        ),
                    ),
                },
            },
        }
    }
}

/// The error of a part of the links is that of all.
pub(crate) proof fn lemma_link_error_stays(links: Seq<LinkView>, n: int)
    requires
        0 <= n <= links.len(),
        links_of(links.take(n)) is Err,
    ensures
        links_of(links) == links_of(links.take(n)),
    decreases links.len(),
{
    if n < links.len() {
        assert(links.drop_last().take(n) =~= links.take(n));
        lemma_link_error_stays(links.drop_last(), n);
    } else {
        assert(links.take(n) =~= links);
    }
}

/// Whether a span's parent is the span that was open around the guest: only then is it remote.
pub open spec fn parent_is_outer(
    context: SpanContextView,
    parent: u64,
    outer: Option<SpanContextView>,
) -> bool {
    match outer {
        Some(outer) => identifies(outer) && outer.trace_id == context.trace_id && outer.span_id
            == parent,
        None => false,
    }
}

/// What a guest's span comes to, when it is known which of its times the clock holds: the same
/// span, with the ids, times, names, counts and order that the guest gave, or the first error in
/// it. Errors are looked for in the context, the parent, the times, the events, the links, the
/// attributes of the scope and the attributes of the span, in this order.
pub open spec fn exported(
    span: SpanDataView,
    outer: Option<SpanContextView>,
    start_held: bool,
    end_held: bool,
    events_held: Seq<bool>,
) -> Result<ExportedSpanView, SpanConversionErrorView> {
    let context = span_context_of(span.span_context);
    let parent = parent_id_of(span.parent_span_id);
    let start = time_of(span.start_time, start_held, "start_time"@);
    let end = time_of(span.end_time, end_held, "end_time"@);
    let events = events_of(span.events, events_held);
    let links = links_of(span.links);
    let scope = attributes_of(span.instrumentation_scope.attributes);
    let attributes = attributes_of(span.attributes);
    if context is Err {
        Err(context->Err_0)
    } else if parent is Err {
        Err(parent->Err_0)
    } else if start is Err {
        Err(start->Err_0)
    } else if end is Err {
        Err(end->Err_0)
    } else if earlier(span.end_time, span.start_time) {
        Err(invalid("end_time"@))
    } else if events is Err {
        Err(events->Err_0)
    } else if links is Err {
        Err(links->Err_0)
    } else if scope is Err {
        Err(scope->Err_0)
    } else if attributes is Err {
        Err(attributes->Err_0)
    } else {
        Ok(
            ExportedSpanView {
                span_context: context->Ok_0,
                parent_span_id: parent->Ok_0,
                parent_span_is_remote: parent_is_outer(context->Ok_0, parent->Ok_0, outer),
                span_kind: span.span_kind,
                name: span.name,
                start_time: span.start_time,
                end_time: span.end_time,
                attributes: attributes->Ok_0,
                dropped_attributes_count: span.dropped_attributes,
                events: events->Ok_0,
                dropped_events_count: span.dropped_events,
                links: links->Ok_0,
                dropped_links_count: span.dropped_links,
                status: span.status,
                instrumentation_scope: ExportedScopeView {
                    name: span.instrumentation_scope.name,
                    version: span.instrumentation_scope.version,
                    schema_url: span.instrumentation_scope.schema_url,
                    attributes: scope->Ok_0,
                },
            },
        )
    }
}

/// What events hold.
pub open spec fn event_views(events: Seq<Event>) -> Seq<EventView> {
    events.map_values(|event: Event| event@)
}

/// What exported events hold.
pub open spec fn exported_events(events: Seq<ExportedEvent>) -> Seq<ExportedEventView> {
    events.map_values(|event: ExportedEvent| event@)
}

/// What links hold.
pub open spec fn link_views(links: Seq<Link>) -> Seq<LinkView> {
    links.map_values(|link: Link| link@)
}

/// What exported links hold.
pub open spec fn exported_links(links: Seq<ExportedLink>) -> Seq<ExportedLinkView> {
    links.map_values(|link: ExportedLink| link@)
}

/// Takes the first of a list.
fn take_first<T>(list: &mut Vec<T>) -> (first: T)
    requires
        old(list)@.len() > 0,
    ensures
        first == old(list)@[0],
        final(list)@ == old(list)@.drop_first(),
{
    list.remove(0)
}

fn convert_events(events: Vec<Event>, held: &Vec<bool>) -> (result: Result<
    Vec<ExportedEvent>,
    SpanConversionError,
>)
    requires
        held@.len() == events@.len(),
    ensures
        match result {
            Ok(out) => events_of(event_views(events@), held@) == Ok::<
                Seq<ExportedEventView>,
                SpanConversionErrorView,
            >(exported_events(out@)),
            Err(error) => events_of(event_views(events@), held@) == Err::<
                Seq<ExportedEventView>,
                SpanConversionErrorView,
            >(error@),
        },
{
    let n: usize = events.len();
    let ghost given = events@;
    let ghost all = event_views(given);
    let mut rest = events;
    let mut out: Vec<ExportedEvent> = Vec::new();
    assert(all.take(0) =~= Seq::empty());
    assert(exported_events(out@) =~= Seq::empty());
    for i in 0..n
        invariant
            n == given.len(),
            given == events@,
            held@.len() == n,
            all == event_views(given),
            rest@ == given.skip(i as int),
            events_of(all.take(i as int), held@) == Ok::<
                Seq<ExportedEventView>,
                SpanConversionErrorView,
            >(exported_events(out@)),
    {
        let ghost done = exported_events(out@);
        let event = take_first(&mut rest);
        proof {
            assert(rest@ =~= given.skip(i + 1));
            assert(event == given[i as int]);
            assert(all[i as int] == event@);
            assert(all.take(i + 1).drop_last() =~= all.take(i as int));
        }
        let timestamp = match datetime(&event.time, held[i], "event_time") {
            Ok(time) => time,
            Err(error) => {
                proof {
                    lemma_event_error_stays(all, held@, i + 1);
                }
                return Err(error);
            },
        };
        let attributes = match key_values(event.attributes) {
            Ok(attributes) => attributes,
            Err(error) => {
                proof {
                    lemma_event_error_stays(all, held@, i + 1);
                }
                return Err(error);
            },
        };
        let converted = ExportedEvent {
            name: event.name,
            timestamp,
            attributes,
            dropped_attributes_count: 0,
        };
        out.push(converted);
        assert(exported_events(out@) =~= done.push(converted@));
    }
    assert(all.take(n as int) =~= all);
    Ok(out)
}

fn convert_links(links: Vec<Link>) -> (result: Result<Vec<ExportedLink>, SpanConversionError>)
    ensures
        match result {
            Ok(out) => links_of(link_views(links@)) == Ok::<
                Seq<ExportedLinkView>,
                SpanConversionErrorView,
            >(exported_links(out@)),
            Err(error) => links_of(link_views(links@)) == Err::<
                Seq<ExportedLinkView>,
                SpanConversionErrorView,
            >(error@),
        },
{
    let n: usize = links.len();
    let ghost given = links@;
    let ghost all = link_views(given);
    let mut rest = links;
    let mut out: Vec<ExportedLink> = Vec::new();
    assert(all.take(0) =~= Seq::empty());
    assert(exported_links(out@) =~= Seq::empty());
    for i in 0..n
        invariant
            n == given.len(),
            given == links@,
            all == link_views(given),
            rest@ == given.skip(i as int),
            links_of(all.take(i as int)) == Ok::<Seq<ExportedLinkView>, SpanConversionErrorView>(
                exported_links(out@),
            ),
    {
        let ghost done = exported_links(out@);
        let link = take_first(&mut rest);
        proof {
            assert(rest@ =~= given.skip(i + 1));
            assert(link == given[i as int]);
            assert(all[i as int] == link@);
            assert(all.take(i + 1).drop_last() =~= all.take(i as int));
        }
        let context = match span_context(&link.span_context) {
            Ok(context) => context,
            Err(error) => {
                proof {
                    lemma_link_error_stays(all, i + 1);
                }
                return Err(error);
            },
        };
        let attributes = match key_values(link.attributes) {
            Ok(attributes) => attributes,
            Err(error) => {
                proof {
                    lemma_link_error_stays(all, i + 1);
                }
                return Err(error);
            },
        };
        let converted = ExportedLink {
            span_context: context,
            attributes,
            dropped_attributes_count: 0,
        };
        out.push(converted);
        assert(exported_links(out@) =~= done.push(converted@));
    }
    assert(all.take(n as int) =~= all);
    Ok(out)
}

/// The kind of an exported span.
pub fn convert_span_kind(kind: SpanKind) -> (out: SpanKind)
    ensures
        out == kind,
{
    match kind {
        SpanKind::Client => SpanKind::Client,
        SpanKind::Server => SpanKind::Server,
        SpanKind::Producer => SpanKind::Producer,
        SpanKind::Consumer => SpanKind::Consumer,
        SpanKind::Internal => SpanKind::Internal,
    }
}

/// The status of an exported span.
pub fn convert_status(status: &Status) -> (out: Status)
    ensures
        out@ == status@,
{
    match status {
        Status::Unset => Status::Unset,
        Status::Okay => Status::Okay,
        Status::Error(message) => Status::Error(message.clone()),
    }
}

/// The contents of an optional context.
pub open spec fn outer_view(outer: Option<&SpanContext>) -> Option<SpanContextView> {
    match outer {
        Some(outer) => Some(outer@),
        None => None,
    }
}

/// What a result of a span holds.
pub open spec fn span_outcome(result: Result<ExportedSpan, SpanConversionError>) -> Result<
    ExportedSpanView,
    SpanConversionErrorView,
> {
    match result {
        Ok(span) => Ok(span@),
        Err(error) => Err(error@),
    }
}

/// What a guest's span comes to, when it is known which of its times the clock holds.
pub fn convert_span(span: SpanData, outer_context: Option<&SpanContext>, held: &HeldTimes) -> (result:
    Result<ExportedSpan, SpanConversionError>)
    requires
        held.events@.len() == span.events@.len(),
    ensures
        span_outcome(result) == exported(
            span@,
            outer_view(outer_context),
            held.start,
            held.end,
            held.events@,
        ),
{
    let context = match span_context(&span.span_context) {
        Ok(context) => context,
        Err(error) => {
            return Err(error);
        },
    };
    let parent_span_id: u64 = match parent_id(span.parent_span_id.as_str()) {
        Ok(id) => id,
        Err(error) => {
            return Err(error);
        },
    };
    let start_time = match datetime(&span.start_time, held.start, "start_time") {
        Ok(time) => time,
        Err(error) => {
            return Err(error);
        },
    };
    let end_time = match datetime(&span.end_time, held.end, "end_time") {
        Ok(time) => time,
        Err(error) => {
            return Err(error);
        },
    };
    if end_time.seconds < start_time.seconds || (end_time.seconds == start_time.seconds
        && end_time.nanoseconds < start_time.nanoseconds) {
        return Err(SpanConversionError::InvalidField("end_time"));
    }
    let events = match convert_events(span.events, &held.events) {
        Ok(events) => events,
        Err(error) => {
            return Err(error);
        },
    };
    let links = match convert_links(span.links) {
        Ok(links) => links,
        Err(error) => {
            return Err(error);
        },
    };
    let scope_attributes = match key_values(span.instrumentation_scope.attributes) {
        Ok(attributes) => attributes,
        Err(error) => {
            return Err(error);
        },
    };
    let attributes = match key_values(span.attributes) {
        Ok(attributes) => attributes,
        Err(error) => {
            return Err(error);
        },
    };
    let parent_span_is_remote = match outer_context {
        Some(outer) => outer.trace_id != 0 && outer.span_id != 0 && outer.trace_id
            == context.trace_id && outer.span_id == parent_span_id,
        None => false,
    };
    let status = convert_status(&span.status);
    Ok(
        ExportedSpan {
            span_context: context,
            parent_span_id,
            parent_span_is_remote,
            span_kind: convert_span_kind(span.span_kind),
            name: span.name,
            start_time,
            end_time,
            attributes,
            dropped_attributes_count: span.dropped_attributes,
            events,
            dropped_events_count: span.dropped_events,
            links,
            dropped_links_count: span.dropped_links,
            status,
            instrumentation_scope: ExportedScope {
                name: span.instrumentation_scope.name,
                version: span.instrumentation_scope.version,
                schema_url: span.instrumentation_scope.schema_url,
                attributes: scope_attributes,
            },
        },
    )
}

/// What any machine answers to which of the times of a span its clock holds.
pub open spec fn clock_answers(
    span: SpanDataView,
    start: bool,
    end: bool,
    events: Seq<bool>,
) -> bool {
    &&& clock_answer(span.start_time, start)
    &&& clock_answer(span.end_time, end)
    &&& events.len() == span.events.len()
    &&& forall|i: int|
        0 <= i < events.len() ==> clock_answer(span.events[i].time, #[trigger] events[i])
}

/// Which of the times of a span the clock holds.
fn held_times(span: &SpanData) -> (held: HeldTimes)
    ensures
        clock_answers(span@, held.start, held.end, held.events@),
{
    let n: usize = span.events.len();
    let mut events: Vec<bool> = Vec::new();
    for i in 0..n
        invariant
            n == span.events@.len(),
            events@.len() == i,
            forall|j: int|
                0 <= j < i ==> clock_answer(span@.events[j].time, #[trigger] events@[j]),
    {
        assert(span@.events[i as int] == span.events@[i as int]@);
        events.push(self::held(span.events[i].time));
    }
    HeldTimes { start: self::held(span.start_time), end: self::held(span.end_time), events }
}

/// What a guest's span comes to on this machine.
pub fn try_into_sdk_span_data(span: SpanData, outer_context: Option<&SpanContext>) -> (result:
    Result<ExportedSpan, SpanConversionError>)
    ensures
        exists|start: bool, end: bool, events: Seq<bool>|
            clock_answers(span@, start, end, events) && span_outcome(result) == #[trigger] exported(
                span@,
                outer_view(outer_context),
                start,
                end,
                events,
            ),
{
    let held = held_times(&span);
    let ghost given = span@;
    let result = convert_span(span, outer_context, &held);
    assert(span_outcome(result) == exported(
        given,
        outer_view(outer_context),
        held.start,
        held.end,
        held.events@,
    ));
    result
}

} // verus!
