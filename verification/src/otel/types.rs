//! Telemetry as guests hand it in, and as it is exported.
use vstd::prelude::*;

use crate::propagation::pairs;
use crate::propagation::SpanContext;
use crate::propagation::SpanContextView;
use crate::text::optional_text;

verus! {

/// A point in time: so many seconds and nanoseconds after the beginning of 1970.
#[derive(Clone, Copy, Debug, PartialEq, Eq, Structural)]
pub struct Datetime {
    pub seconds: u64,
    pub nanoseconds: u32,
}

/// An attribute as a guest hands it in: the value is JSON.
#[derive(Debug, PartialEq, Eq)]
pub struct KeyValue {
    pub key: String,
    pub value: String,
}

/// The keys and values of attributes.
pub open spec fn key_value_pairs(list: Seq<KeyValue>) -> Seq<(Seq<char>, Seq<char>)> {
    list.map_values(|kv: KeyValue| (kv.key@, kv.value@))
}

/// A span context as a guest hands it in.
#[derive(Debug, PartialEq, Eq)]
pub struct WitSpanContext {
    pub trace_id: String,
    pub span_id: String,
    pub sampled: bool,
    pub is_remote: bool,
    pub trace_state: Vec<(String, String)>,
}

/// What a [`WitSpanContext`] holds.
#[verifier::ext_equal]
pub struct WitSpanContextView {
    pub trace_id: Seq<char>,
    pub span_id: Seq<char>,
    pub sampled: bool,
    pub is_remote: bool,
    pub trace_state: Seq<(Seq<char>, Seq<char>)>,
}

impl View for WitSpanContext {
    type V = WitSpanContextView;

    open spec fn view(&self) -> WitSpanContextView {
        WitSpanContextView {
            trace_id: self.trace_id@,
            span_id: self.span_id@,
            sampled: self.sampled,
            is_remote: self.is_remote,
            trace_state: pairs(self.trace_state@),
        }
    }
}

/// What part of an operation a span covers.
#[derive(Clone, Copy, Debug, PartialEq, Eq, Structural)]
pub enum SpanKind {
    Client,
    Server,
    Producer,
    Consumer,
    Internal,
}

/// How an operation ended.
#[derive(Debug, PartialEq, Eq)]
pub enum Status {
    Unset,
    Okay,
    Error(String),
}

/// What a [`Status`] holds.
pub enum StatusView {
    Unset,
    Okay,
    Error(Seq<char>),
}

impl View for Status {
    type V = StatusView;

    open spec fn view(&self) -> StatusView {
        match self {
            Status::Unset => StatusView::Unset,
            Status::Okay => StatusView::Okay,
            Status::Error(message) => StatusView::Error(message@),
        }
    }
}

/// Something that happened during a span.
#[derive(Debug, PartialEq, Eq)]
pub struct Event {
    pub name: String,
    pub time: Datetime,
    pub attributes: Vec<KeyValue>,
}

/// What an [`Event`] holds.
#[verifier::ext_equal]
pub struct EventView {
    pub name: Seq<char>,
    pub time: Datetime,
    pub attributes: Seq<(Seq<char>, Seq<char>)>,
}

impl View for Event {
    type V = EventView;

    open spec fn view(&self) -> EventView {
        EventView {
            name: self.name@,
            time: self.time,
            attributes: key_value_pairs(self.attributes@),
        }
    }
}

/// A span that another one is connected with.
#[derive(Debug, PartialEq, Eq)]
pub struct Link {
    pub span_context: WitSpanContext,
    pub attributes: Vec<KeyValue>,
}

/// What a [`Link`] holds.
#[verifier::ext_equal]
pub struct LinkView {
    pub span_context: WitSpanContextView,
    pub attributes: Seq<(Seq<char>, Seq<char>)>,
}

impl View for Link {
    type V = LinkView;

    open spec fn view(&self) -> LinkView {
        LinkView {
            span_context: self.span_context@,
            attributes: key_value_pairs(self.attributes@),
        }
    }
}

/// What recorded a span.
#[derive(Debug, PartialEq, Eq)]
pub struct InstrumentationScope {
    pub name: String,
    pub version: Option<String>,
    pub schema_url: Option<String>,
    pub attributes: Vec<KeyValue>,
}

/// What an [`InstrumentationScope`] holds.
#[verifier::ext_equal]
pub struct ScopeView {
    pub name: Seq<char>,
    pub version: Option<Seq<char>>,
    pub schema_url: Option<Seq<char>>,
    pub attributes: Seq<(Seq<char>, Seq<char>)>,
}

impl View for InstrumentationScope {
    type V = ScopeView;

    open spec fn view(&self) -> ScopeView {
        ScopeView {
            name: self.name@,
            version: optional_text(self.version),
            schema_url: optional_text(self.schema_url),
            attributes: key_value_pairs(self.attributes@),
        }
    }
}

/// A span that ended, as a guest hands it in.
#[derive(Debug, PartialEq, Eq)]
pub struct SpanData {
    pub span_context: WitSpanContext,
    pub parent_span_id: String,
    pub span_kind: SpanKind,
    pub name: String,
    pub start_time: Datetime,
    pub end_time: Datetime,
    pub attributes: Vec<KeyValue>,
    pub events: Vec<Event>,
    pub links: Vec<Link>,
    pub status: Status,
    pub instrumentation_scope: InstrumentationScope,
    pub dropped_attributes: u32,
    pub dropped_events: u32,
    pub dropped_links: u32,
}

/// What a [`SpanData`] holds.
#[verifier::ext_equal]
pub struct SpanDataView {
    pub span_context: WitSpanContextView,
    pub parent_span_id: Seq<char>,
    pub span_kind: SpanKind,
    pub name: Seq<char>,
    pub start_time: Datetime,
    pub end_time: Datetime,
    pub attributes: Seq<(Seq<char>, Seq<char>)>,
    pub events: Seq<EventView>,
    pub links: Seq<LinkView>,
    pub status: StatusView,
    pub instrumentation_scope: ScopeView,
    pub dropped_attributes: u32,
    pub dropped_events: u32,
    pub dropped_links: u32,
}

impl View for SpanData {
    type V = SpanDataView;

    open spec fn view(&self) -> SpanDataView {
        SpanDataView {
            span_context: self.span_context@,
            parent_span_id: self.parent_span_id@,
            span_kind: self.span_kind,
            name: self.name@,
            start_time: self.start_time,
            end_time: self.end_time,
            attributes: key_value_pairs(self.attributes@),
            events: self.events@.map_values(|event: Event| event@),
            links: self.links@.map_values(|link: Link| link@),
            status: self.status@,
            instrumentation_scope: self.instrumentation_scope@,
            dropped_attributes: self.dropped_attributes,
            dropped_events: self.dropped_events,
            dropped_links: self.dropped_links,
        }
    }
}

// ---------------------------------------------------------------------------
// Exported spans
// ---------------------------------------------------------------------------

/// The value of an exported attribute. Floating-point numbers are given by their bits.
#[derive(Debug, PartialEq, Eq)]
pub enum AttributeValue {
    Text(String),
    Flag(bool),
    Integer(i64),
    Float(u64),
    Texts(Vec<String>),
    Flags(Vec<bool>),
    Integers(Vec<i64>),
    Floats(Vec<u64>),
}

/// What an [`AttributeValue`] holds.
pub enum AttributeValueView {
    Text(Seq<char>),
    Flag(bool),
    Integer(i64),
    Float(u64),
    Texts(Seq<Seq<char>>),
    Flags(Seq<bool>),
    Integers(Seq<i64>),
    Floats(Seq<u64>),
}

impl View for AttributeValue {
    type V = AttributeValueView;

    open spec fn view(&self) -> AttributeValueView {
        match self {
            AttributeValue::Text(text) => AttributeValueView::Text(text@),
            AttributeValue::Flag(flag) => AttributeValueView::Flag(*flag),
            AttributeValue::Integer(number) => AttributeValueView::Integer(*number),
            AttributeValue::Float(bits) => AttributeValueView::Float(*bits),
            AttributeValue::Texts(list) => AttributeValueView::Texts(
                crate::text::texts(list@),
            ),
            AttributeValue::Flags(list) => AttributeValueView::Flags(list@),
            AttributeValue::Integers(list) => AttributeValueView::Integers(list@),
            AttributeValue::Floats(list) => AttributeValueView::Floats(list@),
        }
    }
}

/// An exported attribute.
#[derive(Debug, PartialEq, Eq)]
pub struct Attribute {
    pub key: String,
    pub value: AttributeValue,
}

/// What an [`Attribute`] holds.
pub struct AttributeView {
    pub key: Seq<char>,
    pub value: AttributeValueView,
}

impl View for Attribute {
    type V = AttributeView;

    open spec fn view(&self) -> AttributeView {
        AttributeView { key: self.key@, value: self.value@ }
    }
}

/// What exported attributes hold.
pub open spec fn attribute_views(list: Seq<Attribute>) -> Seq<AttributeView> {
    list.map_values(|attribute: Attribute| attribute@)
}

/// An exported event.
#[derive(Debug, PartialEq, Eq)]
pub struct ExportedEvent {
    pub name: String,
    pub timestamp: Datetime,
    pub attributes: Vec<Attribute>,
    pub dropped_attributes_count: u32,
}

/// What an [`ExportedEvent`] holds.
#[verifier::ext_equal]
pub struct ExportedEventView {
    pub name: Seq<char>,
    pub timestamp: Datetime,
    pub attributes: Seq<AttributeView>,
    pub dropped_attributes_count: u32,
}

impl View for ExportedEvent {
    type V = ExportedEventView;

    open spec fn view(&self) -> ExportedEventView {
        ExportedEventView {
            name: self.name@,
            timestamp: self.timestamp,
            attributes: attribute_views(self.attributes@),
            dropped_attributes_count: self.dropped_attributes_count,
        }
    }
}

/// An exported link.
#[derive(Debug, PartialEq, Eq)]
pub struct ExportedLink {
    pub span_context: SpanContext,
    pub attributes: Vec<Attribute>,
    pub dropped_attributes_count: u32,
}

/// What an [`ExportedLink`] holds.
#[verifier::ext_equal]
pub struct ExportedLinkView {
    pub span_context: SpanContextView,
    pub attributes: Seq<AttributeView>,
    pub dropped_attributes_count: u32,
}

impl View for ExportedLink {
    type V = ExportedLinkView;

    open spec fn view(&self) -> ExportedLinkView {
        ExportedLinkView {
            span_context: self.span_context@,
            attributes: attribute_views(self.attributes@),
            dropped_attributes_count: self.dropped_attributes_count,
        }
    }
}

/// What recorded an exported span.
#[derive(Debug, PartialEq, Eq)]
pub struct ExportedScope {
    pub name: String,
    pub version: Option<String>,
    pub schema_url: Option<String>,
    pub attributes: Vec<Attribute>,
}

/// What an [`ExportedScope`] holds.
#[verifier::ext_equal]
pub struct ExportedScopeView {
    pub name: Seq<char>,
    pub version: Option<Seq<char>>,
    pub schema_url: Option<Seq<char>>,
    pub attributes: Seq<AttributeView>,
}

impl View for ExportedScope {
    type V = ExportedScopeView;

    open spec fn view(&self) -> ExportedScopeView {
        ExportedScopeView {
            name: self.name@,
            version: optional_text(self.version),
            schema_url: optional_text(self.schema_url),
            attributes: attribute_views(self.attributes@),
        }
    }
}

/// A span as it is exported. A parent id of zero is none.
#[derive(Debug, PartialEq, Eq)]
pub struct ExportedSpan {
    pub span_context: SpanContext,
    pub parent_span_id: u64,
    pub parent_span_is_remote: bool,
    pub span_kind: SpanKind,
    pub name: String,
    pub start_time: Datetime,
    pub end_time: Datetime,
    pub attributes: Vec<Attribute>,
    pub dropped_attributes_count: u32,
    pub events: Vec<ExportedEvent>,
    pub dropped_events_count: u32,
    pub links: Vec<ExportedLink>,
    pub dropped_links_count: u32,
    pub status: Status,
    pub instrumentation_scope: ExportedScope,
}

/// What an [`ExportedSpan`] holds.
#[verifier::ext_equal]
pub struct ExportedSpanView {
    pub span_context: SpanContextView,
    pub parent_span_id: u64,
    pub parent_span_is_remote: bool,
    pub span_kind: SpanKind,
    pub name: Seq<char>,
    pub start_time: Datetime,
    pub end_time: Datetime,
    pub attributes: Seq<AttributeView>,
    pub dropped_attributes_count: u32,
    pub events: Seq<ExportedEventView>,
    pub dropped_events_count: u32,
    pub links: Seq<ExportedLinkView>,
    pub dropped_links_count: u32,
    pub status: StatusView,
    pub instrumentation_scope: ExportedScopeView,
}

impl View for ExportedSpan {
    type V = ExportedSpanView;

    open spec fn view(&self) -> ExportedSpanView {
        ExportedSpanView {
            span_context: self.span_context@,
            parent_span_id: self.parent_span_id,
            parent_span_is_remote: self.parent_span_is_remote,
            span_kind: self.span_kind,
            name: self.name@,
            start_time: self.start_time,
            end_time: self.end_time,
            attributes: attribute_views(self.attributes@),
            dropped_attributes_count: self.dropped_attributes_count,
            events: self.events@.map_values(|event: ExportedEvent| event@),
            dropped_events_count: self.dropped_events_count,
            links: self.links@.map_values(|link: ExportedLink| link@),
            dropped_links_count: self.dropped_links_count,
            status: self.status@,
            instrumentation_scope: self.instrumentation_scope@,
        }
    }
}

/// Why a span was rejected.
#[derive(Debug, PartialEq, Eq)]
pub enum SpanConversionError {
    InvalidField(&'static str),
    UnsupportedAttribute(String),
}

/// What a [`SpanConversionError`] holds.
pub enum SpanConversionErrorView {
    InvalidField(Seq<char>),
    UnsupportedAttribute(Seq<char>),
}

impl View for SpanConversionError {
    type V = SpanConversionErrorView;

    open spec fn view(&self) -> SpanConversionErrorView {
        match self {
            SpanConversionError::InvalidField(field) => SpanConversionErrorView::InvalidField(
                field@,
            ),
            SpanConversionError::UnsupportedAttribute(key) => {
                SpanConversionErrorView::UnsupportedAttribute(key@)
            },
        }
    }
}

impl SpanConversionError {
    /// The words for this error.
    pub open spec fn words(self) -> Seq<char> {
        match self {
            SpanConversionError::InvalidField(field) => "invalid "@ + field@,
            SpanConversionError::UnsupportedAttribute(key) => "unsupported attribute value for "@
                + key@,
        }
    }

    /// The words for this error.
    pub fn text(&self) -> (text: String)
        ensures
            text@ == self.words(),
    {
        match self {
            SpanConversionError::InvalidField(field) => {
                let mut text = "invalid ".to_string();
                crate::text::push_text(&mut text, field);
                text
            },
            SpanConversionError::UnsupportedAttribute(key) => {
                let mut text = "unsupported attribute value for ".to_string();
                crate::text::push_text(&mut text, key.as_str());
                text
            },
        }
    }
}

} // verus!
