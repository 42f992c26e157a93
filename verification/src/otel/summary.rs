//! Spans in short, for the host's own log.
use vstd::prelude::*;

use crate::otel::types::SpanData;
use crate::otel::types::SpanKind;
use crate::otel::types::Status;
use crate::otel::types::StatusView;
use crate::text::push_text;

verus! {

/// A span in short.
#[derive(Debug, PartialEq, Eq)]
pub struct SpanSummary {
    pub name: String,
    pub trace_id: String,
    pub span_id: String,
    pub parent_span_id: String,
    pub kind: String,
    pub attribute_count: usize,
    pub event_count: usize,
    pub link_count: usize,
    pub status: String,
}

/// The words for a kind.
pub open spec fn kind_words(kind: SpanKind) -> Seq<char> {
    match kind {
        SpanKind::Client => "SpanKind::Client"@,
        SpanKind::Server => "SpanKind::Server"@,
        SpanKind::Producer => "SpanKind::Producer"@,
        SpanKind::Consumer => "SpanKind::Consumer"@,
        SpanKind::Internal => "SpanKind::Internal"@,
    }
}

/// The words for a kind.
pub fn kind_text(kind: SpanKind) -> (text: &'static str)
    ensures
        text@ == kind_words(kind),
{
    match kind {
        SpanKind::Client => "SpanKind::Client",
        SpanKind::Server => "SpanKind::Server",
        SpanKind::Producer => "SpanKind::Producer",
        SpanKind::Consumer => "SpanKind::Consumer",
        SpanKind::Internal => "SpanKind::Internal",
    }
}

/// A text in quotes, with what cannot be shown in it escaped.
pub uninterp spec fn quoted_form(text: Seq<char>) -> Seq<char>;

/// Whether a character is shown in quotes as it is: the visible ASCII characters and the space,
/// other than the quote and the backslash.
pub open spec fn shown_as_is(c: char) -> bool {
    ' ' <= c <= '~' && c != '"' && c != '\\'
}

/// `Debug` of `str`: the text in quotes, with what cannot be shown in it escaped. A text of
/// characters that are shown as they are only gets the quotes.
#[verifier::external_body]
fn quote(text: &str) -> (out: String)
    ensures
        out@ == quoted_form(text@),
        (forall|i: int| 0 <= i < text@.len() ==> shown_as_is(#[trigger] text@[i])) ==> out@
            == seq!['"'] + text@ + seq!['"'],
{
    format!("{text:?}")
}

/// The words for a status, given its message in quotes.
pub open spec fn status_words(status: StatusView, quoted: Seq<char>) -> Seq<char> {
    match status {
        StatusView::Unset => "Status::Unset"@,
        StatusView::Okay => "Status::Ok"@,
        StatusView::Error(_) => "Status::Error("@ + quoted + ")"@,
    }
}

/// The words for a status, given its message in quotes.
pub fn status_text(status: &Status, quoted: &str) -> (text: String)
    ensures
        text@ == status_words(status@, quoted@),
{
    match status {
        Status::Unset => "Status::Unset".to_string(),
        Status::Okay => "Status::Ok".to_string(),
        Status::Error(_) => {
            let mut text = "Status::Error(".to_string();
            push_text(&mut text, quoted);
            push_text(&mut text, ")");
            text
        },
    }
}

/// The message of a status.
pub open spec fn status_message(status: StatusView) -> Seq<char> {
    match status {
        StatusView::Error(message) => message,
        _ => Seq::empty(),
    }
}

/// A span in short.
pub fn summarize_span_data(span: &SpanData) -> (summary: SpanSummary)
    ensures
        summary.name@ == span@.name,
        summary.trace_id@ == span@.span_context.trace_id,
        summary.span_id@ == span@.span_context.span_id,
        summary.parent_span_id@ == span@.parent_span_id,
        summary.kind@ == kind_words(span@.span_kind),
        summary.attribute_count == span@.attributes.len(),
        summary.event_count == span@.events.len(),
        summary.link_count == span@.links.len(),
        summary.status@ == status_words(span@.status, quoted_form(status_message(span@.status))),
        (forall|i: int|
            0 <= i < status_message(span@.status).len() ==> shown_as_is(
                #[trigger] status_message(span@.status)[i],
            )) ==> summary.status@ == status_words(
            span@.status,
            seq!['"'] + status_message(span@.status) + seq!['"'],
        ),
{
    let status = match &span.status {
        Status::Error(message) => status_text(&span.status, quote(message.as_str()).as_str()),
        _ => status_text(&span.status, ""),
    };
    SpanSummary {
        name: span.name.clone(),
        trace_id: span.span_context.trace_id.clone(),
        span_id: span.span_context.span_id.clone(),
        parent_span_id: span.parent_span_id.clone(),
        kind: kind_text(span.span_kind).to_string(),
        attribute_count: span.attributes.len(),
        event_count: span.events.len(),
        link_count: span.links.len(),
        status,
    }
}

/// The words for a kind name it behind its type, and those for a status name it behind its own; an
/// error's message stands in brackets.
pub proof fn law_summaries_name_kinds_and_statuses(message: Seq<char>, quoted: Seq<char>)
    ensures
        kind_words(SpanKind::Client) == "SpanKind::"@ + "Client"@,
        kind_words(SpanKind::Server) == "SpanKind::"@ + "Server"@,
        kind_words(SpanKind::Producer) == "SpanKind::"@ + "Producer"@,
        kind_words(SpanKind::Consumer) == "SpanKind::"@ + "Consumer"@,
        kind_words(SpanKind::Internal) == "SpanKind::"@ + "Internal"@,
        status_words(StatusView::Unset, quoted) == "Status::"@ + "Unset"@,
        status_words(StatusView::Okay, quoted) == "Status::"@ + "Ok"@,
        status_words(StatusView::Error(message), quoted) == "Status::"@ + "Error"@ + seq!['(']
            + quoted + seq![')'],
        status_message(StatusView::Error(message)) == message,
{
    reveal_strlit("SpanKind::");
    reveal_strlit("Client");
    reveal_strlit("Server");
    reveal_strlit("Producer");
    reveal_strlit("Consumer");
    reveal_strlit("Internal");
    reveal_strlit("SpanKind::Client");
    reveal_strlit("SpanKind::Server");
    reveal_strlit("SpanKind::Producer");
    reveal_strlit("SpanKind::Consumer");
    reveal_strlit("SpanKind::Internal");
    reveal_strlit("Status::");
    reveal_strlit("Unset");
    reveal_strlit("Ok");
    reveal_strlit("Error");
    reveal_strlit("Status::Unset");
    reveal_strlit("Status::Ok");
    reveal_strlit("Status::Error(");
    reveal_strlit(")");
    assert("SpanKind::Client"@ =~= "SpanKind::"@ + "Client"@);
    assert("SpanKind::Server"@ =~= "SpanKind::"@ + "Server"@);
    assert("SpanKind::Producer"@ =~= "SpanKind::"@ + "Producer"@);
    assert("SpanKind::Consumer"@ =~= "SpanKind::"@ + "Consumer"@);
    assert("SpanKind::Internal"@ =~= "SpanKind::"@ + "Internal"@);
    assert("Status::Unset"@ =~= "Status::"@ + "Unset"@);
    assert("Status::Ok"@ =~= "Status::"@ + "Ok"@);
    assert("Status::Error("@ =~= "Status::"@ + "Error"@ + seq!['(']);
    assert(")"@ =~= seq![')']);
}

} // verus!
