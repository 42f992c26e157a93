//! Trace contexts at the NATS boundary.
use vstd::prelude::*;

use crate::messaging::report::fields;
use crate::messaging::report::optional_span;
use crate::messaging::report::text_field;
use crate::messaging::report::FieldValue;
use crate::messaging::report::FieldValueView;
use crate::messaging::report::SpanField;
use crate::messaging::report::SpanFieldView;
use crate::messaging::report::SpanStart;
use crate::nats::headers::first_value;
use crate::nats::headers::header;
use crate::nats::headers::header_name;
use crate::nats::headers::header_values;
use crate::nats::headers::new_headers;
use crate::nats::headers::remove_header;
use crate::nats::headers::set_header;
use crate::propagation::context_from_propagation;
use crate::propagation::identifies;
use crate::propagation::inject_context;
use crate::propagation::injected;
use crate::propagation::one_line;
use crate::propagation::propagated;
use crate::propagation::state_header;
use crate::propagation::state_members;
use crate::propagation::PropagationContext;
use crate::propagation::PropagationError;
use crate::propagation::SpanContext;
use crate::propagation::SpanContextView;
use crate::propagation::TraceContextView;

verus! {

/// The names of the trace headers can be names of headers.
pub(crate) proof fn lemma_trace_header_names()
    ensures
        header_name("traceparent"@),
        header_name("tracestate"@),
        "traceparent"@ != "tracestate"@,
{
    reveal_strlit("traceparent");
    reveal_strlit("tracestate");
    assert("traceparent"@.len() != "tracestate"@.len());
}

/// The trace context that a message carries, if it has a `traceparent`.
pub open spec fn carried(headers: async_nats::HeaderMap) -> Option<TraceContextView> {
    match first_value(headers, "traceparent"@) {
        Some(traceparent) => Some(
            TraceContextView { traceparent, tracestate: first_value(headers, "tracestate"@) },
        ),
        None => None,
    }
}

/// The trace context that a message carries, if it has a `traceparent`.
pub fn carried_context(headers: &async_nats::HeaderMap) -> (context: Option<PropagationContext>)
    ensures
        match context {
            Some(context) => carried(*headers) == Some(context@),
            None => carried(*headers) is None,
        },
{
    proof {
        lemma_trace_header_names();
    }
    match header(headers, "traceparent") {
        Some(traceparent) => {
            let tracestate = header(headers, "tracestate");
            Some(PropagationContext { traceparent, tracestate })
        },
        None => None,
    }
}

/// The span that a message continues, once it is known what its context stands for.
pub fn parent_of(context: Option<Result<SpanContext, PropagationError>>) -> (span: Option<
    SpanContext,
>)
    ensures
        span == (match context {
            Some(Ok(span)) => Some(span),
            _ => None,
        }),
{
    match context {
        Some(Ok(span)) => Some(span),
        _ => None,
    }
}

/// The span that a message continues: none where it carries no context or a malformed one. What
/// was propagated of a span with an identity stands for that span.
pub fn parent(headers: &async_nats::HeaderMap) -> (span: Option<SpanContext>)
    ensures
        optional_span(span) == (match carried(*headers) {
            Some(context) => match propagated(context) {
                Ok(span) => Some(span),
                Err(_) => None,
            },
            None => None,
        }),
        forall|own: SpanContextView|
            identifies(own) && state_members(own.trace_state) && carried(*headers) == Some(
                #[trigger] injected(own),
            ) ==> optional_span(span) == Some(SpanContextView { is_remote: true, ..own }),
{
    parent_of(
        match carried_context(headers) {
            Some(context) => Some(context_from_propagation(&context)),
            None => None,
        },
    )
}

/// The fields of the span of a message that is sent over NATS.
pub open spec fn send_fields(operation: Seq<char>, subject: Seq<char>) -> Seq<SpanFieldView> {
    seq![
        text_field("otel.kind"@, "producer"@),
        text_field("messaging.operation.name"@, operation),
        text_field("messaging.destination.name"@, subject),
    ]
}

/// The span of a message that is about to be sent with these headers. It continues the span that
/// the headers carry.
pub fn producer(operation: &'static str, subject: &str, headers: &Option<async_nats::HeaderMap>) -> (
span: SpanStart)
    ensures
        span.name@ == "nats_send"@,
        fields(span.fields@) == send_fields(operation@, subject@),
        optional_span(span.parent) == (match headers {
            Some(headers) => match carried(*headers) {
                Some(context) => match propagated(context) {
                    Ok(span) => Some(span),
                    Err(_) => None,
                },
                None => None,
            },
            None => None,
        }),
{
    let parent = match headers {
        Some(headers) => parent(headers),
        None => None,
    };
    let mut list: Vec<SpanField> = Vec::new();
    list.push(SpanField { name: "otel.kind", value: FieldValue::Text("producer".to_string()) });
    list.push(
        SpanField {
            name: "messaging.operation.name",
            value: FieldValue::Text(operation.to_string()),
        },
    );
    list.push(
        SpanField {
            name: "messaging.destination.name",
            value: FieldValue::Text(subject.to_string()),
        },
    );
    assert(fields(list@) =~= send_fields(operation@, subject@));
    SpanStart { name: "nats_send", fields: list, parent }
}

/// The values under a name of optional headers.
pub open spec fn optional_values(
    headers: Option<async_nats::HeaderMap>,
    name: Seq<char>,
) -> Seq<Seq<char>> {
    match headers {
        Some(headers) => header_values(headers, name),
        None => Seq::empty(),
    }
}

/// Puts the context of the span under which a message is sent into its headers. A span without
/// identity leaves them as they are; any other replaces the context that they carried, so that
/// nothing of an older `tracestate` is left, and touches no other header.
pub fn inject_headers(headers: &mut Option<async_nats::HeaderMap>, span: &SpanContext)
    requires
        one_line(state_header(span@.trace_state)),
    ensures
        !identifies(span@) ==> *final(headers) == *old(headers),
        identifies(span@) ==> *final(headers) is Some,
        forall|name: Seq<char>|
            name != "traceparent"@ && name != "tracestate"@ ==> #[trigger] optional_values(
                *final(headers),
                name,
            ) == optional_values(*old(headers), name),
        identifies(span@) ==> optional_values(*final(headers), "traceparent"@) == seq![
            injected(span@).traceparent,
        ],
        identifies(span@) ==> match injected(span@).tracestate {
            Some(state) => optional_values(*final(headers), "tracestate"@) == seq![state],
            None => optional_values(*final(headers), "tracestate"@).len() == 0,
        },
{
    let ghost before = *headers;
    let context = inject_context(span);
    if span.trace_id == 0 || span.span_id == 0 {
        return ;
    }
    proof {
        lemma_trace_header_names();
        lemma_parent_text_is_one_line(span.trace_id, span.span_id, span.sampled);
    }
    let mut map = match headers.take() {
        Some(map) => map,
        None => {
            let map = new_headers();
            assert(forall|name: Seq<char>| #[trigger] header_values(map, name) =~= Seq::<Seq<char>>::empty());
            map
        },
    };
    let ghost first = map;
    match context.tracestate {
        Some(state) => {
            set_header(&mut map, "tracestate", state.as_str());
        },
        None => {
            remove_header(&mut map, "tracestate");
        },
    }
    set_header(&mut map, "traceparent", context.traceparent.as_str());
    *headers = Some(map);
}

/// A `traceparent` stays on one line.
pub(crate) proof fn lemma_parent_text_is_one_line(trace_id: u128, span_id: u64, sampled: bool)
    ensures
        one_line(crate::propagation::parent_text(trace_id, span_id, sampled)),
{
    let text = crate::propagation::parent_text(trace_id, span_id, sampled);
    let first = crate::text::hex_fixed(trace_id as nat, 32);
    let second = crate::text::hex_fixed(span_id as nat, 16);
    lemma_hex_is_one_line(trace_id as nat, 32);
    lemma_hex_is_one_line(span_id as nat, 16);
    assert forall|i: int| 0 <= i < text.len() implies text[i] != '\r' && text[i] != '\n' by {
        if 3 <= i < 35 {
            assert(text[i] == first[i - 3]);
        } else if 36 <= i < 52 {
            assert(text[i] == second[i - 36]);
        }
    }
}

/// A numeral stays on one line.
proof fn lemma_hex_is_one_line(n: nat, width: nat)
    ensures
        crate::text::hex_fixed(n, width).len() == width,
        forall|i: int|
            0 <= i < width ==> #[trigger] crate::text::hex_fixed(n, width)[i] != '\r'
                && crate::text::hex_fixed(n, width)[i] != '\n',
    decreases width,
{
    if width > 0 {
        lemma_hex_is_one_line(n / 16, (width - 1) as nat);
        let d = n % 16;
        let digit = crate::text::hex_digit(d);
        if d < 10 {
            assert(digit as u32 == 0x30 + d);
        } else {
            assert(digit as u32 == 0x61 + d - 10);
        }
    }
}

/// A message carries a context exactly where it has a `traceparent`: its first one, with its first
/// `tracestate`, if it has any.
pub proof fn law_messages_carry_their_first_headers(headers: async_nats::HeaderMap)
    ensures
        carried(headers) is Some == (header_values(headers, "traceparent"@).len() > 0),
        carried(headers) matches Some(context) ==> context.traceparent == header_values(
            headers,
            "traceparent"@,
        )[0],
        carried(headers) matches Some(context) ==> context.tracestate is Some == (header_values(
            headers,
            "tracestate"@,
        ).len() > 0) && (context.tracestate matches Some(state) ==> state == header_values(
            headers,
            "tracestate"@,
        )[0]),
{
}

/// The span of a message that is sent tells that it is a producer, what is done and where to.
pub proof fn law_sent_messages_are_recorded(operation: Seq<char>, subject: Seq<char>)
    ensures
        send_fields(operation, subject) == seq![
            SpanFieldView { name: "otel.kind"@, value: FieldValueView::Text("producer"@) },
            SpanFieldView {
                name: "messaging.operation.name"@,
                value: FieldValueView::Text(operation),
            },
            SpanFieldView {
                name: "messaging.destination.name"@,
                value: FieldValueView::Text(subject),
            },
        ],
{
}

} // verus!
