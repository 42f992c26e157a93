//! Messages as hosts, brokers and observers see them.
use vstd::prelude::*;

use crate::propagation::PropagationContext;
use crate::propagation::TraceContextView;
use crate::text::optional_text;

verus! {

/// A trace context as a guest hands it over: the W3C headers of the same names.
#[derive(Debug, PartialEq, Eq)]
pub struct TraceContext {
    pub traceparent: String,
    pub tracestate: Option<String>,
}

impl View for TraceContext {
    type V = TraceContextView;

    open spec fn view(&self) -> TraceContextView {
        TraceContextView {
            traceparent: self.traceparent@,
            tracestate: optional_text(self.tracestate),
        }
    }
}

impl Clone for TraceContext {
    fn clone(&self) -> (copy: Self)
        ensures
            copy@ == self@,
    {
        TraceContext { traceparent: self.traceparent.clone(), tracestate: self.tracestate.clone() }
    }
}

/// The contents of an optional trace context.
pub open spec fn optional_context(context: Option<TraceContext>) -> Option<TraceContextView> {
    match context {
        Some(context) => Some(context@),
        None => None,
    }
}

/// The contents of an optional propagation context.
pub open spec fn optional_propagation(
    context: Option<PropagationContext>,
) -> Option<TraceContextView> {
    match context {
        Some(context) => Some(context@),
        None => None,
    }
}

/// A copy of an optional trace context.
pub fn copy_context(context: &Option<TraceContext>) -> (copy: Option<TraceContext>)
    ensures
        optional_context(copy) == optional_context(*context),
{
    match context {
        Some(context) => Some(context.clone()),
        None => None,
    }
}

/// A guest's trace context as the context that is propagated.
pub fn propagation_context(value: TraceContext) -> (context: PropagationContext)
    ensures
        context@ == value@,
{
    PropagationContext { traceparent: value.traceparent, tracestate: value.tracestate }
}

/// An optional guest's trace context as the context that is propagated.
pub fn optional_propagation_context(value: Option<TraceContext>) -> (context: Option<
    PropagationContext,
>)
    ensures
        optional_propagation(context) == optional_context(value),
{
    match value {
        Some(value) => Some(propagation_context(value)),
        None => None,
    }
}

/// A message as a host sends and receives it.
#[derive(Debug, PartialEq, Eq)]
pub struct HostMessage {
    pub subject: String,
    pub reply_to: Option<String>,
    pub body: Vec<u8>,
    pub trace_context: Option<TraceContext>,
}

/// What a [`HostMessage`] holds.
pub struct HostMessageView {
    pub subject: Seq<char>,
    pub reply_to: Option<Seq<char>>,
    pub body: Seq<u8>,
    pub trace_context: Option<TraceContextView>,
}

impl View for HostMessage {
    type V = HostMessageView;

    open spec fn view(&self) -> HostMessageView {
        HostMessageView {
            subject: self.subject@,
            reply_to: optional_text(self.reply_to),
            body: self.body@,
            trace_context: optional_context(self.trace_context),
        }
    }
}

impl Clone for HostMessage {
    fn clone(&self) -> (copy: Self)
        ensures
            copy@ == self@,
    {
        HostMessage {
            subject: self.subject.clone(),
            reply_to: self.reply_to.clone(),
            body: self.body.clone(),
            trace_context: copy_context(&self.trace_context),
        }
    }
}

/// A message as a broker's guests see it: without its trace context.
#[derive(Debug, PartialEq, Eq)]
pub struct BrokerMessage {
    pub subject: String,
    pub reply_to: Option<String>,
    pub body: Vec<u8>,
}

/// What a [`BrokerMessage`] holds.
pub struct BrokerMessageView {
    pub subject: Seq<char>,
    pub reply_to: Option<Seq<char>>,
    pub body: Seq<u8>,
}

impl View for BrokerMessage {
    type V = BrokerMessageView;

    open spec fn view(&self) -> BrokerMessageView {
        BrokerMessageView {
            subject: self.subject@,
            reply_to: optional_text(self.reply_to),
            body: self.body@,
        }
    }
}

impl Clone for BrokerMessage {
    fn clone(&self) -> (copy: Self)
        ensures
            copy@ == self@,
    {
        BrokerMessage {
            subject: self.subject.clone(),
            reply_to: self.reply_to.clone(),
            body: self.body.clone(),
        }
    }
}

/// A broker's message on its way, with the context that travels beside it.
#[derive(Debug, PartialEq, Eq)]
pub struct RoutedMessage {
    pub message: BrokerMessage,
    pub propagation: Option<PropagationContext>,
}

/// What a [`RoutedMessage`] holds.
pub struct RoutedMessageView {
    pub message: BrokerMessageView,
    pub propagation: Option<TraceContextView>,
}

impl View for RoutedMessage {
    type V = RoutedMessageView;

    open spec fn view(&self) -> RoutedMessageView {
        RoutedMessageView {
            message: self.message@,
            propagation: optional_propagation(self.propagation),
        }
    }
}

/// The routed form of a host's message.
pub open spec fn routed_form(message: HostMessageView) -> RoutedMessageView {
    RoutedMessageView {
        message: BrokerMessageView {
            subject: message.subject,
            reply_to: message.reply_to,
            body: message.body,
        },
        propagation: message.trace_context,
    }
}

/// The host's form of a routed message.
pub open spec fn host_form(message: RoutedMessageView) -> HostMessageView {
    HostMessageView {
        subject: message.message.subject,
        reply_to: message.message.reply_to,
        body: message.message.body,
        trace_context: message.propagation,
    }
}

/// Puts a host's message into the form in which it is routed.
pub fn to_routed(message: HostMessage) -> (routed: RoutedMessage)
    ensures
        routed@ == routed_form(message@),
{
    RoutedMessage {
        message: BrokerMessage {
            subject: message.subject,
            reply_to: message.reply_to,
            body: message.body,
        },
        propagation: optional_propagation_context(message.trace_context),
    }
}

/// Puts a routed message into the form in which a host receives it.
pub fn to_host(message: &RoutedMessage) -> (host: HostMessage)
    ensures
        host@ == host_form(message@),
{
    HostMessage {
        subject: message.message.subject.clone(),
        reply_to: message.message.reply_to.clone(),
        body: message.message.body.clone(),
        trace_context: match &message.propagation {
            Some(context) => Some(
                TraceContext {
                    traceparent: context.traceparent.clone(),
                    tracestate: context.tracestate.clone(),
                },
            ),
            None => None,
        },
    }
}

/// Routing loses nothing of a message, its trace context included, and adds nothing to it.
pub proof fn law_routing_preserves_messages(message: HostMessageView, routed: RoutedMessageView)
    ensures
        host_form(routed_form(message)) == message,
        routed_form(host_form(routed)) == routed,
{
}

/// Who sent a message.
#[derive(Clone, Copy, Debug, PartialEq, Eq, Structural)]
pub enum MessageOrigin {
    Guest,
    HostInjected,
}

/// What a guest did with a message.
#[derive(Clone, Copy, Debug, PartialEq, Eq, Structural)]
pub enum ObservedOperation {
    Publish,
    Request,
    Reply,
}

/// A guest's message as an observer receives it.
#[derive(Debug, PartialEq, Eq)]
pub struct ObservedMessage {
    pub operation: ObservedOperation,
    pub origin: MessageOrigin,
    pub message: HostMessage,
}

/// Why messaging refused.
#[derive(Debug, Clone, Copy, PartialEq, Eq, Structural)]
pub enum MessagingError {
    AlreadyReserved,
    NotBound,
    Closed,
    QueueFull,
    Timeout,
    AlreadyReplied,
}

/// The words for an error.
pub open spec fn error_text(error: MessagingError) -> Seq<char> {
    match error {
        MessagingError::AlreadyReserved => "workload is already reserved"@,
        MessagingError::NotBound => "workload is not bound"@,
        MessagingError::Closed => "workload is closed"@,
        MessagingError::QueueFull => "message queue is full"@,
        MessagingError::Timeout => "request timed out"@,
        MessagingError::AlreadyReplied => "reply was already sent"@,
    }
}

impl MessagingError {
    /// The words for this error.
    pub fn text(&self) -> (text: &'static str)
        ensures
            text@ == error_text(*self),
    {
        match self {
            MessagingError::AlreadyReserved => "workload is already reserved",
            MessagingError::NotBound => "workload is not bound",
            MessagingError::Closed => "workload is closed",
            MessagingError::QueueFull => "message queue is full",
            MessagingError::Timeout => "request timed out",
            MessagingError::AlreadyReplied => "reply was already sent",
        }
    }
}

/// A host's message is routed with its own subject, its own place for replies and its own body, and
/// its trace context travels beside it; a host receives each of them as it was.
pub proof fn law_routing_keeps_each_part(message: HostMessageView, routed: RoutedMessageView)
    ensures
        routed_form(message).message.subject == message.subject,
        routed_form(message).message.reply_to == message.reply_to,
        routed_form(message).message.body == message.body,
        routed_form(message).propagation == message.trace_context,
        host_form(routed).subject == routed.message.subject,
        host_form(routed).reply_to == routed.message.reply_to,
        host_form(routed).body == routed.message.body,
        host_form(routed).trace_context == routed.propagation,
{
}

/// Each error has words of its own.
pub proof fn law_errors_have_words_of_their_own(a: MessagingError, b: MessagingError)
    ensures
        error_text(a) == error_text(b) ==> a == b,
{
    reveal_strlit("workload is already reserved");
    reveal_strlit("workload is not bound");
    reveal_strlit("workload is closed");
    reveal_strlit("message queue is full");
    reveal_strlit("request timed out");
    reveal_strlit("reply was already sent");
    assert("workload is already reserved"@.len() == 28);
    assert("workload is not bound"@.len() == 21);
    assert("workload is closed"@.len() == 18);
    assert("message queue is full"@.len() == 21);
    assert("request timed out"@.len() == 17);
    assert("reply was already sent"@.len() == 22);
    assert("workload is not bound"@[0] == 'w');
    assert("message queue is full"@[0] == 'm');
}

/// What a message holds is its subject, its place for replies, its body and its trace context, as
/// they are; a broker's message has no trace context, and a routed one has it beside it.
pub proof fn law_messages_hold_their_parts(
    host: HostMessage,
    routed: RoutedMessage,
    context: TraceContext,
)
    ensures
        host@.subject == host.subject@,
        host@.reply_to is Some == host.reply_to is Some,
        host.reply_to matches Some(text) ==> host@.reply_to->0 == text@,
        host@.body == host.body@,
        host@.trace_context is Some == host.trace_context is Some,
        host.trace_context matches Some(own) ==> host@.trace_context->0.traceparent
            == own.traceparent@ && host@.trace_context->0.tracestate == optional_text(
            own.tracestate,
        ),
        routed@.message.subject == routed.message.subject@,
        routed@.message.reply_to is Some == routed.message.reply_to is Some,
        routed.message.reply_to matches Some(text) ==> routed@.message.reply_to->0 == text@,
        routed@.message.body == routed.message.body@,
        routed@.propagation is Some == routed.propagation is Some,
        routed.propagation matches Some(own) ==> routed@.propagation->0.traceparent
            == own.traceparent@ && routed@.propagation->0.tracestate == optional_text(
            own.tracestate,
        ),
        context@.traceparent == context.traceparent@,
        context@.tracestate is Some == context.tracestate is Some,
        context.tracestate matches Some(text) ==> context@.tracestate->0 == text@,
{
}

} // verus!
