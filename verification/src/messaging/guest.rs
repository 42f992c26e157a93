//! What guests send, and what they get back.
use vstd::prelude::*;

use crate::messaging::message::error_text;
use crate::messaging::message::optional_context;
use crate::messaging::message::BrokerMessage;
use crate::messaging::message::BrokerMessageView;
use crate::messaging::message::HostMessage;
use crate::messaging::message::HostMessageView;
use crate::messaging::message::MessagingError;
use crate::messaging::message::TraceContext;
use crate::messaging::report::failure_fields;
use crate::messaging::report::fields;
use crate::messaging::report::record_messaging_error;
use crate::messaging::report::record_success;
use crate::messaging::report::success_fields;
use crate::messaging::report::SpanField;
use crate::messaging::report::SpanFieldView;
use crate::text::decimal;
use crate::text::decimal_value;
use crate::text::law_decimals_read_back;
use crate::text::optional_text;
use crate::text::push_decimal;
use crate::text::push_text;

verus! {

/// A guest's message as the broker takes it, with the trace context that the guest gave.
pub fn guest_message(
    subject: String,
    reply_to: Option<String>,
    body: Vec<u8>,
    parent_context: Option<TraceContext>,
) -> (message: HostMessage)
    ensures
        message@ == (HostMessageView {
            subject: subject@,
            reply_to: optional_text(reply_to),
            body: body@,
            trace_context: optional_context(parent_context),
        }),
{
    HostMessage { subject, reply_to, body, trace_context: parent_context }
}

/// The result of a guest's request, and what is recorded of it.
pub struct RequestReport {
    pub result: Result<BrokerMessage, String>,
    pub fields: Vec<SpanField>,
}

/// The result of a guest's publishing, and what is recorded of it.
pub struct PublishReport {
    pub result: Result<(), String>,
    pub fields: Vec<SpanField>,
}

/// A message without its trace context.
pub open spec fn without_context(message: HostMessageView) -> BrokerMessageView {
    BrokerMessageView { subject: message.subject, reply_to: message.reply_to, body: message.body }
}

/// What a report says: a success is recorded as one, and an error, in the words that the guest
/// gets, under the slug.
pub open spec fn reported(
    error: Option<Seq<char>>,
    slug: Seq<char>,
    recorded: Seq<SpanFieldView>,
) -> bool {
    match error {
        None => recorded == success_fields(),
        Some(text) => recorded == failure_fields(slug, text),
    }
}

/// The error of a result, in words.
pub open spec fn failure_of<T>(result: Result<T, String>) -> Option<Seq<char>> {
    match result {
        Ok(_) => None,
        Err(text) => Some(text@),
    }
}

/// What a guest gets back from a request to the in-process broker.
pub fn broker_request_report(result: Result<HostMessage, MessagingError>) -> (report: RequestReport)
    ensures
        match result {
            Ok(message) => report.result matches Ok(reply) && reply@ == without_context(message@),
            Err(error) => report.result matches Err(text) && text@ == error_text(error),
        },
        reported(
            failure_of(report.result),
            "messaging-broker-failed"@,
            fields(report.fields@),
        ),
{
    match result {
        Ok(message) => RequestReport {
            result: Ok(
                BrokerMessage {
                    subject: message.subject,
                    reply_to: message.reply_to,
                    body: message.body,
                },
            ),
            fields: record_success(),
        },
        Err(error) => RequestReport {
            result: Err(error.text().to_string()),
            fields: record_messaging_error("messaging-broker-failed", error.text()),
        },
    }
}

/// What a guest gets back from publishing to the in-process broker.
pub fn broker_publish_report(result: Result<(), MessagingError>) -> (report: PublishReport)
    ensures
        match result {
            Ok(()) => report.result is Ok,
            Err(error) => report.result matches Err(text) && text@ == error_text(error),
        },
        reported(
            failure_of(report.result),
            "messaging-broker-failed"@,
            fields(report.fields@),
        ),
{
    match result {
        Ok(()) => PublishReport { result: Ok(()), fields: record_success() },
        Err(error) => PublishReport {
            result: Err(error.text().to_string()),
            fields: record_messaging_error("messaging-broker-failed", error.text()),
        },
    }
}

/// How a request to a NATS server ended.
pub enum NatsReply {
    Message(BrokerMessage),
    Failed(String),
    TimedOut,
}

/// The words for a request that took longer than it had.
pub open spec fn timeout_text(timeout_ms: u32) -> Seq<char> {
    "request timed out after "@ + decimal(timeout_ms as nat) + "ms"@
}

/// What a guest gets back from a request to a NATS server that had so many milliseconds.
pub fn nats_request_report(reply: NatsReply, timeout_ms: u32) -> (report: RequestReport)
    ensures
        match reply {
            NatsReply::Message(message) => report.result matches Ok(own) && own@ == message@,
            NatsReply::Failed(error) => report.result matches Err(text) && text@
                == "failed to send request: "@ + error@,
            NatsReply::TimedOut => report.result matches Err(text) && text@ == timeout_text(
                timeout_ms,
            ),
        },
        reported(
            failure_of(report.result),
            if reply is TimedOut {
                "messaging-request-timeout"@
            } else {
                "messaging-broker-failed"@
            },
            fields(report.fields@),
        ),
{
    match reply {
        NatsReply::Message(message) => RequestReport {
            result: Ok(message),
            fields: record_success(),
        },
        NatsReply::Failed(error) => {
            let mut text = "failed to send request: ".to_string();
            push_text(&mut text, error.as_str());
            let fields = record_messaging_error("messaging-broker-failed", text.as_str());
            RequestReport { result: Err(text), fields }
        },
        NatsReply::TimedOut => {
            let mut text = "request timed out after ".to_string();
            push_decimal(&mut text, timeout_ms as u64);
            push_text(&mut text, "ms");
            let fields = record_messaging_error("messaging-request-timeout", text.as_str());
            RequestReport { result: Err(text), fields }
        },
    }
}

/// What a guest gets back from publishing to a NATS server, given the error in words, if any.
pub fn nats_publish_report(error: Option<String>) -> (report: PublishReport)
    ensures
        match error {
            None => report.result is Ok,
            Some(error) => report.result matches Err(text) && text@ == "failed to send message: "@
                + error@,
        },
        reported(
            failure_of(report.result),
            "messaging-broker-failed"@,
            fields(report.fields@),
        ),
{
    match error {
        None => PublishReport { result: Ok(()), fields: record_success() },
        Some(error) => {
            let mut text = "failed to send message: ".to_string();
            push_text(&mut text, error.as_str());
            let fields = record_messaging_error("messaging-broker-failed", text.as_str());
            PublishReport { result: Err(text), fields }
        },
    }
}

/// A guest gets a message without its trace context, and else as it was.
pub proof fn law_guests_get_messages_without_context(message: HostMessageView)
    ensures
        without_context(message).subject == message.subject,
        without_context(message).reply_to == message.reply_to,
        without_context(message).body == message.body,
{
}

/// What is recorded of a guest's call and what the guest gets back agree: a call that the guest is
/// told failed is recorded as a failure with the same words, and any other as a success.
pub proof fn law_guests_are_told_what_is_recorded<T>(
    result: Result<T, String>,
    slug: Seq<char>,
    recorded: Seq<SpanFieldView>,
)
    requires
        reported(failure_of(result), slug, recorded),
    ensures
        result is Ok ==> recorded == success_fields(),
        result matches Err(text) ==> recorded == failure_fields(slug, text@),
{
}

/// A request that took too long is told in milliseconds.
pub proof fn law_timeouts_are_told_in_milliseconds(timeout_ms: u32)
    ensures
        ({
            let text = timeout_text(timeout_ms);
            let number = text.subrange(24, text.len() - 2);
            &&& text.take(24) == "request timed out after "@
            &&& text.skip(text.len() - 2) == "ms"@
            &&& decimal_value(number) == timeout_ms
        }),
{
    reveal_strlit("request timed out after ");
    reveal_strlit("ms");
    law_decimals_read_back(timeout_ms as nat);
    let text = timeout_text(timeout_ms);
    assert(text.take(24) =~= "request timed out after "@);
    assert(text.skip(text.len() - 2) =~= "ms"@);
    assert(text.subrange(24, text.len() - 2) =~= decimal(timeout_ms as nat));
}

/// A guest gets the reply to its request, or the words of the error, and its own request's timeout in
/// words; each is recorded as it is told.
pub proof fn law_guests_get_what_became_of_requests(
    result: Result<HostMessage, MessagingError>,
    reply: NatsReply,
    timeout_ms: u32,
    own: RequestReport,
    report: RequestReport,
)
    requires
        call_ensures(broker_request_report, (result,), own),
        call_ensures(nats_request_report, (reply, timeout_ms), report),
    ensures
        result matches Ok(message) ==> (own.result matches Ok(got) && got@.subject
            == message@.subject && got@.reply_to == message@.reply_to && got@.body == message@.body),
        result matches Err(error) ==> (own.result matches Err(text) && text@ == error_text(error)),
        result is Ok ==> fields(own.fields@) == success_fields(),
        result matches Err(error) ==> fields(own.fields@) == failure_fields(
            "messaging-broker-failed"@,
            error_text(error),
        ),
        reply matches NatsReply::Message(message) ==> (report.result matches Ok(got) && got@
            == message@) && fields(report.fields@) == success_fields(),
        reply matches NatsReply::Failed(error) ==> (report.result matches Err(text) && text@
            == "failed to send request: "@ + error@) && fields(report.fields@) == failure_fields(
            "messaging-broker-failed"@,
            "failed to send request: "@ + error@,
        ),
        reply is TimedOut ==> (report.result matches Err(text) && text@ == timeout_text(timeout_ms))
            && fields(report.fields@) == failure_fields(
            "messaging-request-timeout"@,
            timeout_text(timeout_ms),
        ),
{
}

/// A guest is told that what it published was taken, or the words of what went wrong; each is
/// recorded as it is told.
pub proof fn law_guests_get_what_became_of_publishing(
    result: Result<(), MessagingError>,
    error: Option<String>,
    own: PublishReport,
    report: PublishReport,
)
    requires
        call_ensures(broker_publish_report, (result,), own),
        call_ensures(nats_publish_report, (error,), report),
    ensures
        result is Ok ==> own.result is Ok && fields(own.fields@) == success_fields(),
        result matches Err(reason) ==> (own.result matches Err(text) && text@ == error_text(reason))
            && fields(own.fields@) == failure_fields(
            "messaging-broker-failed"@,
            error_text(reason),
        ),
        error is None ==> report.result is Ok && fields(report.fields@) == success_fields(),
        error matches Some(reason) ==> (report.result matches Err(text) && text@
            == "failed to send message: "@ + reason@) && fields(report.fields@) == failure_fields(
            "messaging-broker-failed"@,
            "failed to send message: "@ + reason@,
        ),
{
}

} // verus!
