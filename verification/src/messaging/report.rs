//! What is recorded on the spans of messages.
use vstd::prelude::*;

use crate::propagation::context_from_propagation;
use crate::propagation::propagated;
use crate::propagation::PropagationContext;
use crate::propagation::PropagationError;
use crate::propagation::SpanContext;
use crate::propagation::SpanContextView;
use crate::text::characters;
use crate::text::control;
use crate::text::is_control;

verus! {

/// The value of a field of a span.
#[derive(Debug, PartialEq, Eq)]
pub enum FieldValue {
    Text(String),
    Flag(bool),
    Size(usize),
}

/// A field of a span, to be recorded.
#[derive(Debug, PartialEq, Eq)]
pub struct SpanField {
    pub name: &'static str,
    pub value: FieldValue,
}

/// What a [`FieldValue`] holds.
pub enum FieldValueView {
    Text(Seq<char>),
    Flag(bool),
    Size(usize),
}

/// What a [`SpanField`] holds.
pub struct SpanFieldView {
    pub name: Seq<char>,
    pub value: FieldValueView,
}

impl View for SpanField {
    type V = SpanFieldView;

    open spec fn view(&self) -> SpanFieldView {
        SpanFieldView {
            name: self.name@,
            value: match self.value {
                FieldValue::Text(text) => FieldValueView::Text(text@),
                FieldValue::Flag(flag) => FieldValueView::Flag(flag),
                FieldValue::Size(size) => FieldValueView::Size(size),
            },
        }
    }
}

/// What the fields of a list hold.
pub open spec fn fields(list: Seq<SpanField>) -> Seq<SpanFieldView> {
    list.map_values(|field: SpanField| field@)
}

/// A text field.
pub open spec fn text_field(name: Seq<char>, text: Seq<char>) -> SpanFieldView {
    SpanFieldView { name, value: FieldValueView::Text(text) }
}

/// A flag.
pub open spec fn flag_field(name: Seq<char>, flag: bool) -> SpanFieldView {
    SpanFieldView { name, value: FieldValueView::Flag(flag) }
}

/// A size.
pub open spec fn size_field(name: Seq<char>, size: usize) -> SpanFieldView {
    SpanFieldView { name, value: FieldValueView::Size(size) }
}

/// Puts a text field at the end of a list.
fn push_text_field(list: &mut Vec<SpanField>, name: &'static str, text: &str)
    ensures
        fields(final(list)@) == fields(old(list)@).push(text_field(name@, text@)),
{
    let field = SpanField { name, value: FieldValue::Text(text.to_string()) };
    list.push(field);
    assert(fields(list@) =~= fields(old(list)@).push(field@));
}

/// Puts a flag at the end of a list.
fn push_flag_field(list: &mut Vec<SpanField>, name: &'static str, flag: bool)
    ensures
        fields(final(list)@) == fields(old(list)@).push(flag_field(name@, flag)),
{
    let field = SpanField { name, value: FieldValue::Flag(flag) };
    list.push(field);
    assert(fields(list@) =~= fields(old(list)@).push(field@));
}

/// Puts a size at the end of a list.
fn push_size_field(list: &mut Vec<SpanField>, name: &'static str, size: usize)
    ensures
        fields(final(list)@) == fields(old(list)@).push(size_field(name@, size)),
{
    let field = SpanField { name, value: FieldValue::Size(size) };
    list.push(field);
    assert(fields(list@) =~= fields(old(list)@).push(field@));
}

// ---------------------------------------------------------------------------
// Outcomes
// ---------------------------------------------------------------------------

/// How many characters of an error message are recorded at most.
pub const MAX_ERROR_MESSAGE: usize = 1024;

/// `text` without control characters.
pub open spec fn printable(text: Seq<char>) -> Seq<char>
    decreases text.len(),
{
    if text.len() == 0 {
        text
    } else if is_control(text.last()) {
        printable(text.drop_last())
    } else {
        printable(text.drop_last()).push(text.last())
    }
}

/// The first characters of `text`, as many as are recorded of it.
pub open spec fn shortened(text: Seq<char>) -> Seq<char> {
    if text.len() <= MAX_ERROR_MESSAGE {
        text
    } else {
        text.take(MAX_ERROR_MESSAGE as int)
    }
}

/// The fields of a failure.
pub open spec fn failure_fields(slug: Seq<char>, message: Seq<char>) -> Seq<SpanFieldView> {
    seq![
        text_field("otel.status_code"@, "ERROR"@),
        flag_field("error"@, true),
        text_field("error.type"@, slug),
        text_field("exception.message"@, shortened(printable(message))),
        text_field("exception.slug"@, slug),
        text_field("messaging.operation.outcome"@, "failure"@),
    ]
}

/// The fields of a success.
pub open spec fn success_fields() -> Seq<SpanFieldView> {
    seq![text_field("messaging.operation.outcome"@, "success"@)]
}

/// A message as far as it is recorded: its first printable characters.
pub fn recorded_message(message: &str) -> (text: String)
    ensures
        text@ == shortened(printable(message@)),
{
    let all = characters(message);
    let n: usize = all.len();
    let mut text = String::new();
    let mut kept: usize = 0;
    assert(all@.take(0) =~= Seq::<char>::empty());
    for i in 0..n
        invariant
            n == all@.len(),
            kept == printable(all@.take(i as int)).len(),
            kept <= i,
            text@ == shortened(printable(all@.take(i as int))),
    {
        let ghost earlier = printable(all@.take(i as int));
        assert(all@.take(i + 1).drop_last() =~= all@.take(i as int));
        if !control(all[i]) {
            if kept < MAX_ERROR_MESSAGE {
                text.push(all[i]);
            }
            kept = kept + 1;
            proof {
                let later = earlier.push(all@[i as int]);
                if earlier.len() < MAX_ERROR_MESSAGE {
                    assert(shortened(later) =~= shortened(earlier).push(all@[i as int]));
                } else {
                    assert(shortened(later) =~= shortened(earlier));
                }
            }
        }
    }
    assert(all@.take(n as int) =~= all@);
    text
}

/// What is recorded of a failure. The message is stripped of control characters and cut short.
pub fn record_messaging_error(slug: &'static str, message: &str) -> (list: Vec<SpanField>)
    ensures
        fields(list@) == failure_fields(slug@, message@),
{
    let mut list: Vec<SpanField> = Vec::new();
    assert(fields(list@) =~= Seq::<SpanFieldView>::empty());
    let text = recorded_message(message);
    push_text_field(&mut list, "otel.status_code", "ERROR");
    push_flag_field(&mut list, "error", true);
    push_text_field(&mut list, "error.type", slug);
    push_text_field(&mut list, "exception.message", text.as_str());
    push_text_field(&mut list, "exception.slug", slug);
    push_text_field(&mut list, "messaging.operation.outcome", "failure");
    assert(fields(list@) =~= failure_fields(slug@, message@));
    list
}

/// What is recorded of a success.
pub fn record_success() -> (list: Vec<SpanField>)
    ensures
        fields(list@) == success_fields(),
{
    let mut list: Vec<SpanField> = Vec::new();
    assert(fields(list@) =~= Seq::<SpanFieldView>::empty());
    push_text_field(&mut list, "messaging.operation.outcome", "success");
    assert(fields(list@) =~= success_fields());
    list
}

/// Stripping control characters leaves none, and a text without any as it is.
pub proof fn law_recorded_messages_are_printable(message: Seq<char>)
    ensures
        forall|i: int|
            0 <= i < printable(message).len() ==> !is_control(#[trigger] printable(message)[i]),
        (forall|i: int| 0 <= i < message.len() ==> !is_control(#[trigger] message[i]))
            ==> printable(message) == message,
        shortened(printable(message)).len() <= MAX_ERROR_MESSAGE,
    decreases message.len(),
{
    if message.len() > 0 {
        let init = message.drop_last();
        law_recorded_messages_are_printable(init);
        if forall|i: int| 0 <= i < message.len() ==> !is_control(#[trigger] message[i]) {
            assert forall|i: int| 0 <= i < init.len() implies !is_control(#[trigger] init[i]) by {
                assert(init[i] == message[i]);
            }
            assert(!is_control(message[message.len() - 1]));
            assert(init.push(message.last()) =~= message);
        }
    }
}

// ---------------------------------------------------------------------------
// Spans
// ---------------------------------------------------------------------------

/// A span to be opened: its name, its fields and the span that it continues, if any.
#[derive(Debug, PartialEq, Eq)]
pub struct SpanStart {
    pub name: &'static str,
    pub fields: Vec<SpanField>,
    pub parent: Option<SpanContext>,
}

/// What an optional span context holds.
pub open spec fn optional_span(context: Option<SpanContext>) -> Option<SpanContextView> {
    match context {
        Some(context) => Some(context@),
        None => None,
    }
}

/// The fields with which the span of a sent message begins.
pub open spec fn producer_fields(
    system: Seq<char>,
    operation: Seq<char>,
    destination: Seq<char>,
    size: usize,
    rejected: bool,
) -> Seq<SpanFieldView> {
    let first = seq![
        text_field("otel.kind"@, "producer"@),
        text_field("messaging.system"@, system),
        text_field("messaging.operation"@, operation),
        text_field("messaging.destination.name"@, destination),
        size_field("messaging.message.body.size"@, size),
    ];
    if rejected {
        first.push(flag_field("otel.propagation.error"@, true)).push(
            text_field("exception.slug"@, "messaging-invalid-trace-context"@),
        )
    } else {
        first
    }
}

/// The span of a sent message, when it is known what became of its sender's context.
pub fn producer_span_from(
    system: &str,
    operation: &'static str,
    destination: &str,
    payload_size: usize,
    parent: Option<Result<SpanContext, PropagationError>>,
) -> (span: SpanStart)
    ensures
        span.name@ == "wasmcloud.messaging.produce"@,
        fields(span.fields@) == producer_fields(
            system@,
            operation@,
            destination@,
            payload_size,
            parent matches Some(Err(_)),
        ),
        optional_span(span.parent) == (match parent {
            Some(Ok(context)) => Some(context@),
            _ => None,
        }),
{
    let mut list: Vec<SpanField> = Vec::new();
    assert(fields(list@) =~= Seq::<SpanFieldView>::empty());
    push_text_field(&mut list, "otel.kind", "producer");
    push_text_field(&mut list, "messaging.system", system);
    push_text_field(&mut list, "messaging.operation", operation);
    push_text_field(&mut list, "messaging.destination.name", destination);
    push_size_field(&mut list, "messaging.message.body.size", payload_size);
    let ghost first = producer_fields(system@, operation@, destination@, payload_size, false);
    assert(fields(list@) =~= first);
    let parent = match parent {
        Some(Ok(context)) => Some(context),
        Some(Err(_)) => {
            push_flag_field(&mut list, "otel.propagation.error", true);
            push_text_field(&mut list, "exception.slug", "messaging-invalid-trace-context");
            None
        },
        None => None,
    };
    SpanStart { name: "wasmcloud.messaging.produce", fields: list, parent }
}

/// The span of a message that is about to be sent. It continues its sender's span, unless the
/// context of that is malformed, which is recorded.
pub fn producer_span(
    system: &str,
    operation: &'static str,
    destination: &str,
    payload_size: usize,
    parent: &Option<PropagationContext>,
) -> (span: SpanStart)
    ensures
        span.name@ == "wasmcloud.messaging.produce"@,
        ({
            let context = match parent {
                Some(parent) => Some(propagated(parent@)),
                None => None,
            };
            &&& fields(span.fields@) == producer_fields(
                system@,
                operation@,
                destination@,
                payload_size,
                context matches Some(Err(_)),
            )
            &&& optional_span(span.parent) == (match context {
                Some(Ok(context)) => Some(context),
                _ => None,
            })
        }),
{
    let context = match parent {
        Some(parent) => Some(context_from_propagation(parent)),
        None => None,
    };
    producer_span_from(system, operation, destination, payload_size, context)
}

/// The fields with which the span of a received message begins.
pub open spec fn consumer_fields(
    system: Seq<char>,
    destination: Seq<char>,
    size: usize,
    rejected: bool,
) -> Seq<SpanFieldView> {
    let first = seq![
        text_field("otel.kind"@, "consumer"@),
        text_field("messaging.system"@, system),
        text_field("messaging.operation"@, "process"@),
        text_field("messaging.destination.name"@, destination),
        size_field("messaging.message.body.size"@, size),
        flag_field("otel.propagation.error"@, rejected),
    ];
    if rejected {
        first.push(text_field("exception.slug"@, "messaging-invalid-trace-context"@))
    } else {
        first
    }
}

/// The span of a received message: it continues the span that the message came with, unless the
/// context of that was rejected, which is recorded.
pub fn consumer_span(
    system: &str,
    destination: &str,
    payload_size: usize,
    parent: Option<SpanContext>,
    rejected: bool,
) -> (span: SpanStart)
    ensures
        span.name@ == "wasmcloud.messaging.consume"@,
        fields(span.fields@) == consumer_fields(system@, destination@, payload_size, rejected),
        span.parent == parent,
{
    let mut list: Vec<SpanField> = Vec::new();
    assert(fields(list@) =~= Seq::<SpanFieldView>::empty());
    push_text_field(&mut list, "otel.kind", "consumer");
    push_text_field(&mut list, "messaging.system", system);
    push_text_field(&mut list, "messaging.operation", "process");
    push_text_field(&mut list, "messaging.destination.name", destination);
    push_size_field(&mut list, "messaging.message.body.size", payload_size);
    push_flag_field(&mut list, "otel.propagation.error", rejected);
    assert(fields(list@) =~= consumer_fields(system@, destination@, payload_size, false).update(
        5,
        flag_field("otel.propagation.error"@, rejected),
    ));
    if rejected {
        push_text_field(&mut list, "exception.slug", "messaging-invalid-trace-context");
    }
    assert(fields(list@) =~= consumer_fields(system@, destination@, payload_size, rejected));
    SpanStart { name: "wasmcloud.messaging.consume", fields: list, parent }
}

/// What the context of a received message comes to, once it is known what it stands for: the span
/// that the message continues, and whether the context was rejected.
pub fn parent_from(context: Option<Result<SpanContext, PropagationError>>) -> (parent: (
    Option<SpanContext>,
    bool,
))
    ensures
        match context {
            Some(Ok(span)) => parent.0 == Some(span) && !parent.1,
            Some(Err(_)) => parent.0 is None && parent.1,
            None => parent.0 is None && !parent.1,
        },
{
    match context {
        Some(Ok(span)) => (Some(span), false),
        Some(Err(_)) => (None, true),
        None => (None, false),
    }
}

/// What a routed message's context comes to: the span that it continues, and whether it was
/// rejected.
pub fn routed_parent(propagation: &Option<PropagationContext>) -> (parent: (
    Option<SpanContext>,
    bool,
))
    ensures
        match propagation {
            Some(context) => match propagated(context@) {
                Ok(span) => optional_span(parent.0) == Some(span) && !parent.1,
                Err(_) => parent.0 is None && parent.1,
            },
            None => parent.0 is None && !parent.1,
        },
{
    parent_from(
        match propagation {
            Some(context) => Some(context_from_propagation(context)),
            None => None,
        },
    )
}

/// What is recorded of a message is what is left of it without its control characters, up to the
/// first 1024: each other character stays, in order.
pub proof fn law_recorded_messages_keep_the_rest(a: Seq<char>, b: Seq<char>, c: char)
    ensures
        printable(a + b) == printable(a) + printable(b),
        printable(seq![c]) == (if is_control(c) {
            Seq::empty()
        } else {
            seq![c]
        }),
        a.len() <= 1024 ==> shortened(a) == a,
        a.len() > 1024 ==> shortened(a) == a.subrange(0, 1024),
    decreases b.len(),
{
    assert(seq![c].drop_last() =~= Seq::empty());
    assert(printable(seq![c].drop_last()) =~= Seq::empty());
    assert(Seq::empty().push(c) =~= seq![c]);
    if a.len() > 1024 {
        assert(a.take(1024) =~= a.subrange(0, 1024));
    }
    if b.len() == 0 {
        assert(a + b =~= a);
        assert(printable(a) + printable(b) =~= printable(a));
    } else {
        assert((a + b).drop_last() =~= a + b.drop_last());
        assert((a + b).last() == b.last());
        law_recorded_messages_keep_the_rest(a, b.drop_last(), c);
        if !is_control(b.last()) {
            assert((printable(a) + printable(b.drop_last())).push(b.last()) =~= printable(a)
                + printable(b));
        }
    }
}

/// Whether a list of fields holds this text under this name, and nothing else under it.
pub open spec fn says(list: Seq<SpanFieldView>, name: Seq<char>, value: FieldValueView) -> bool {
    &&& list.contains(SpanFieldView { name, value })
    &&& forall|i: int| 0 <= i < list.len() && (#[trigger] list[i]).name == name ==> list[i].value
        == value
}

/// The names of the fields of messages are told apart.
proof fn lemma_field_names_differ()
    ensures
        seq![
            "otel.status_code"@,
            "error"@,
            "error.type"@,
            "exception.message"@,
            "exception.slug"@,
            "messaging.operation.outcome"@,
        ].no_duplicates(),
        seq![
            "otel.kind"@,
            "messaging.system"@,
            "messaging.operation"@,
            "messaging.destination.name"@,
            "messaging.message.body.size"@,
            "otel.propagation.error"@,
            "exception.slug"@,
        ].no_duplicates(),
{
    reveal_strlit("otel.status_code");
    reveal_strlit("error");
    reveal_strlit("error.type");
    reveal_strlit("exception.message");
    reveal_strlit("exception.slug");
    reveal_strlit("messaging.operation.outcome");
    reveal_strlit("otel.kind");
    reveal_strlit("messaging.system");
    reveal_strlit("messaging.operation");
    reveal_strlit("messaging.destination.name");
    reveal_strlit("messaging.message.body.size");
    reveal_strlit("otel.propagation.error");
    assert("otel.status_code"@.len() == 16);
    assert("error"@.len() == 5);
    assert("error.type"@.len() == 10);
    assert("exception.message"@.len() == 17);
    assert("exception.slug"@.len() == 14);
    assert("messaging.operation.outcome"@.len() == 27);
    assert("otel.kind"@.len() == 9);
    assert("messaging.system"@.len() == 16);
    assert("messaging.operation"@.len() == 19);
    assert("messaging.destination.name"@.len() == 26);
    assert("messaging.message.body.size"@.len() == 27);
    assert("otel.propagation.error"@.len() == 22);
}

/// A failure is recorded as an error of the span, with its slug, as much of its message as is
/// recorded, and a failed outcome; a success with its outcome alone.
pub proof fn law_outcomes_are_recorded(slug: Seq<char>, message: Seq<char>)
    ensures
        ({
            let list = failure_fields(slug, message);
            &&& list.len() == 6
            &&& says(list, "otel.status_code"@, FieldValueView::Text("ERROR"@))
            &&& says(list, "error"@, FieldValueView::Flag(true))
            &&& says(list, "error.type"@, FieldValueView::Text(slug))
            &&& says(list, "exception.slug"@, FieldValueView::Text(slug))
            &&& says(
                list,
                "exception.message"@,
                FieldValueView::Text(shortened(printable(message))),
            )
            &&& says(list, "messaging.operation.outcome"@, FieldValueView::Text("failure"@))
        }),
        success_fields().len() == 1,
        says(success_fields(), "messaging.operation.outcome"@, FieldValueView::Text("success"@)),
{
    lemma_field_names_differ();
    let list = failure_fields(slug, message);
    let names = seq![
        "otel.status_code"@,
        "error"@,
        "error.type"@,
        "exception.message"@,
        "exception.slug"@,
        "messaging.operation.outcome"@,
    ];
    assert forall|i: int| 0 <= i < list.len() implies (#[trigger] list[i]).name == names[i] by {}
    assert(list[0].value == FieldValueView::Text("ERROR"@));
    assert(list[1].value == FieldValueView::Flag(true));
    assert(list[2].value == FieldValueView::Text(slug));
    assert(list[3].value == FieldValueView::Text(shortened(printable(message))));
    assert(list[4].value == FieldValueView::Text(slug));
    assert(list[5].value == FieldValueView::Text("failure"@));
    assert forall|i: int, name: Seq<char>|
        0 <= i < list.len() && name == names[i] implies #[trigger] says(
        list,
        name,
        list[i].value,
    ) by {
        assert(list[i] == (SpanFieldView { name, value: list[i].value }));
        assert forall|j: int| 0 <= j < list.len() && (#[trigger] list[j]).name
            == name implies list[j].value == list[i].value by {
            assert(names[j] == names[i]);
        }
    }
    assert(says(list, names[0], list[0].value));
    assert(says(list, names[1], list[1].value));
    assert(says(list, names[2], list[2].value));
    assert(says(list, names[3], list[3].value));
    assert(says(list, names[4], list[4].value));
    assert(says(list, names[5], list[5].value));
    assert(success_fields()[0] == text_field("messaging.operation.outcome"@, "success"@));
}

/// The span of a message, sent or received, tells its kind, the messaging system, the operation,
/// the destination and the size of the message; where the context that came with the message was
/// rejected, it tells that too.
pub proof fn law_messages_are_recorded(
    system: Seq<char>,
    operation: Seq<char>,
    destination: Seq<char>,
    size: usize,
    rejected: bool,
)
    ensures
        ({
            let list = producer_fields(system, operation, destination, size, rejected);
            let first = list.take(5);
            &&& list.len() == (if rejected {
                7
            } else {
                5nat
            })
            &&& first == seq![
                SpanFieldView {
                    name: "otel.kind"@,
                    value: FieldValueView::Text("producer"@),
                },
                SpanFieldView {
                    name: "messaging.system"@,
                    value: FieldValueView::Text(system),
                },
                SpanFieldView {
                    name: "messaging.operation"@,
                    value: FieldValueView::Text(operation),
                },
                SpanFieldView {
                    name: "messaging.destination.name"@,
                    value: FieldValueView::Text(destination),
                },
                SpanFieldView {
                    name: "messaging.message.body.size"@,
                    value: FieldValueView::Size(size),
                },
            ]
            &&& rejected ==> list[5].name == "otel.propagation.error"@ && list[5].value
                == FieldValueView::Flag(true) && list[6].name == "exception.slug"@ && list[6].value
                == FieldValueView::Text("messaging-invalid-trace-context"@)
        }),
        ({
            let list = consumer_fields(system, destination, size, rejected);
            let sent = producer_fields(system, "process"@, destination, size, false);
            &&& list.len() == (if rejected {
                7
            } else {
                6nat
            })
            &&& list[0].name == "otel.kind"@ && list[0].value == FieldValueView::Text("consumer"@)
            &&& forall|i: int| 1 <= i < 5 ==> #[trigger] list[i] == sent[i]
            &&& list[5].name == "otel.propagation.error"@ && list[5].value == FieldValueView::Flag(
                rejected,
            )
            &&& rejected ==> list[6].name == "exception.slug"@ && list[6].value
                == FieldValueView::Text("messaging-invalid-trace-context"@)
        }),
{
    let list = producer_fields(system, operation, destination, size, rejected);
    assert(list.take(5) =~= producer_fields(system, operation, destination, size, false));
}

/// A message continues the span of its context where that is well formed; a malformed context is
/// told to be rejected, and no context is not.
pub proof fn law_well_formed_contexts_are_continued(
    context: Option<Result<SpanContext, PropagationError>>,
    parent: (Option<SpanContext>, bool),
)
    requires
        call_ensures(parent_from, (context,), parent),
    ensures
        context matches Some(Ok(span)) ==> parent.0 == Some(span),
        parent.1 <==> context matches Some(Err(_)),
        !(context matches Some(Ok(_))) ==> parent.0 is None,
{
}

/// The context of a routed message is taken as what it stands for.
pub proof fn law_routed_messages_continue_their_span(
    propagation: &Option<PropagationContext>,
    parent: (Option<SpanContext>, bool),
)
    requires
        call_ensures(routed_parent, (propagation,), parent),
    ensures
        *propagation is None ==> parent.0 is None && !parent.1,
        propagation matches Some(context) && propagated(context@) is Ok ==> optional_span(parent.0)
            == Some(propagated((*propagation)->0@)->Ok_0) && !parent.1,
        propagation matches Some(context) && propagated(context@) is Err ==> parent.0 is None
            && parent.1,
{
}

} // verus!
