use wash_messaging::guest_trace::GuestTraces;
use wash_messaging::otel::convert::{
    caller_context, convert_span, convert_span_kind, convert_status, datetime,
    otel_span_context_to_wit, outer_span_context, outer_span_context_of, span_context,
    try_into_sdk_span_data, HeldTimes,
};
use wash_messaging::otel::json::{json_attribute, json_value, key_values, JsonScalar, JsonValue};
use wash_messaging::otel::logs::{convert_wasi_log_record, log_record_from, severity, LogTrace, Severity, WasiLogRecord};
use wash_messaging::otel::metrics::{
    export_result, extract_counter_values, extract_gauge_values, metric_data_summary,
    summarize_resource_metrics, DataPoint, ExportState, Gauge, Histogram, HistogramDataPoint,
    Instrument, Metric, MetricData, MetricNumber, ResourceMetrics, ScopeMetrics, Sum,
};
use wash_messaging::otel::summary::{kind_text, status_text, summarize_span_data};
use wash_messaging::otel::types::{
    AttributeValue, Datetime, Event, InstrumentationScope, KeyValue, Link, SpanConversionError,
    SpanData, SpanKind, Status, WitSpanContext,
};
use wash_messaging::propagation::{write_state, SpanContext};

fn fixture() -> SpanData {
    SpanData {
        span_context: WitSpanContext {
            trace_id: "00112233445566778899aabbccddeeff".into(),
            span_id: "0102030405060708".into(),
            sampled: true,
            is_remote: false,
            trace_state: vec![("vendor".into(), "value".into())],
        },
        parent_span_id: "1112131415161718".into(),
        span_kind: SpanKind::Internal,
        name: "guest-child".into(),
        start_time: Datetime { seconds: 10, nanoseconds: 20 },
        end_time: Datetime { seconds: 11, nanoseconds: 30 },
        attributes: vec![KeyValue { key: "count".into(), value: "42".into() }],
        events: vec![Event {
            name: "event".into(),
            time: Datetime { seconds: 10, nanoseconds: 25 },
            attributes: vec![],
        }],
        links: vec![Link {
            span_context: WitSpanContext {
                trace_id: "ffeeddccbbaa99887766554433221100".into(),
                span_id: "1817161514131211".into(),
                sampled: false,
                is_remote: true,
                trace_state: vec![],
            },
            attributes: vec![],
        }],
        status: Status::Error("failed".into()),
        instrumentation_scope: InstrumentationScope {
            name: "guest-sdk".into(),
            version: Some("1.2.3".into()),
            schema_url: Some("https://example.test/schema".into()),
            attributes: vec![],
        },
        dropped_attributes: 2,
        dropped_events: 3,
        dropped_links: 4,
    }
}

#[test]
fn existing_wit_payload_converts_without_replacing_graph_data() {
    let converted = try_into_sdk_span_data(fixture(), None).unwrap();
    assert_eq!(
        format!("{:032x}", converted.span_context.trace_id),
        "00112233445566778899aabbccddeeff"
    );
    assert_eq!(format!("{:016x}", converted.span_context.span_id), "0102030405060708");
    assert_eq!(format!("{:016x}", converted.parent_span_id), "1112131415161718");
    assert!(converted.span_context.sampled);
    assert_eq!(write_state(&converted.span_context.trace_state), "vendor=value");
    assert_eq!(
        converted.events[0].timestamp,
        Datetime { seconds: 10, nanoseconds: 25 }
    );
    assert_eq!(
        format!("{:016x}", converted.links[0].span_context.span_id),
        "1817161514131211"
    );
    assert_eq!(converted.dropped_attributes_count, 2);
    assert_eq!(converted.dropped_events_count, 3);
    assert_eq!(converted.dropped_links_count, 4);
    assert_eq!(converted.instrumentation_scope.name, "guest-sdk");
    assert_eq!(converted.attributes[0].value, AttributeValue::Integer(42));
    assert_eq!(converted.status, Status::Error("failed".into()));
}

#[test]
fn invalid_ids_are_rejected() {
    for (field, value, expected) in [
        ("trace", "0011", "trace_id"),
        ("trace", "00112233445566778899aabbccddeeff00", "trace_id"),
        ("trace", "00112233445566778899aabbccddeefg", "trace_id"),
        ("trace", "00000000000000000000000000000000", "trace_id"),
        ("span", "0102", "span_id"),
        ("span", "010203040506070800", "span_id"),
        ("span", "010203040506070g", "span_id"),
        ("span", "0000000000000000", "span_id"),
        ("parent", "1112", "parent_span_id"),
        ("parent", "111213141516171800", "parent_span_id"),
        ("parent", "111213141516171g", "parent_span_id"),
        ("parent", "0000000000000000", "parent_span_id"),
    ] {
        let mut span = fixture();
        match field {
            "trace" => span.span_context.trace_id = value.into(),
            "span" => span.span_context.span_id = value.into(),
            "parent" => span.parent_span_id = value.into(),
            _ => unreachable!(),
        }
        assert_eq!(
            try_into_sdk_span_data(span, None).unwrap_err(),
            SpanConversionError::InvalidField(expected),
            "{field} value {value}"
        );
    }
}

#[test]
fn invalid_timestamps_are_rejected() {
    let mut span = fixture();
    span.start_time.nanoseconds = 1_000_000_000;
    assert_eq!(
        try_into_sdk_span_data(span, None).unwrap_err(),
        SpanConversionError::InvalidField("start_time")
    );
    let mut span = fixture();
    span.end_time.nanoseconds = u32::MAX;
    assert_eq!(
        try_into_sdk_span_data(span, None).unwrap_err(),
        SpanConversionError::InvalidField("end_time")
    );
    let mut span = fixture();
    span.end_time = Datetime { seconds: 9, nanoseconds: 0 };
    assert_eq!(
        try_into_sdk_span_data(span, None).unwrap_err(),
        SpanConversionError::InvalidField("end_time")
    );
    let mut span = fixture();
    span.events[0].time.nanoseconds = 1_000_000_000;
    assert_eq!(
        try_into_sdk_span_data(span, None).unwrap_err(),
        SpanConversionError::InvalidField("event_time")
    );
    let mut span = fixture();
    span.end_time = Datetime { seconds: u64::MAX, nanoseconds: 999_999_999 };
    assert_eq!(
        try_into_sdk_span_data(span, None).unwrap_err(),
        SpanConversionError::InvalidField("end_time")
    );
}

#[test]
fn every_clock_holds_the_beginning_of_1970() {
    let epoch = Datetime { seconds: 0, nanoseconds: 0 };
    let mut span = fixture();
    span.start_time = epoch;
    span.end_time = epoch;
    span.events[0].time = epoch;
    let exported = try_into_sdk_span_data(span, None).unwrap();
    assert_eq!(exported.start_time, epoch);
    assert_eq!(exported.end_time, epoch);
    assert_eq!(exported.events[0].timestamp, epoch);

    let mut record = log();
    record.timestamp = Some(epoch);
    record.observed_timestamp = Some(epoch);
    let out = convert_wasi_log_record(record, "s");
    assert_eq!(out.timestamp, Some(epoch));
    assert_eq!(out.observed_timestamp, Some(epoch));
}

#[test]
fn times_that_the_clock_cannot_hold_are_rejected() {
    let held = HeldTimes { start: false, end: true, events: vec![true] };
    assert_eq!(
        convert_span(fixture(), None, &held).unwrap_err(),
        SpanConversionError::InvalidField("start_time")
    );
    let held = HeldTimes { start: true, end: true, events: vec![false] };
    assert_eq!(
        convert_span(fixture(), None, &held).unwrap_err(),
        SpanConversionError::InvalidField("event_time")
    );
    let time = Datetime { seconds: 1, nanoseconds: 2 };
    assert_eq!(datetime(&time, true, "start_time"), Ok(time));
    assert!(datetime(&time, false, "start_time").is_err());
}

#[test]
fn parent_is_remote_only_when_it_matches_the_outer_host_span() {
    let matching = SpanContext {
        trace_id: 0x00112233445566778899aabbccddeeff,
        span_id: 0x1112131415161718,
        sampled: true,
        is_remote: false,
        trace_state: vec![],
    };
    assert!(try_into_sdk_span_data(fixture(), Some(&matching)).unwrap().parent_span_is_remote);

    let different_span = SpanContext {
        trace_id: matching.trace_id,
        span_id: 0x9999999999999999,
        sampled: true,
        is_remote: true,
        trace_state: vec![],
    };
    assert!(
        !try_into_sdk_span_data(fixture(), Some(&different_span)).unwrap().parent_span_is_remote
    );
    let different_trace = SpanContext {
        trace_id: 0xffeeddccbbaa99887766554433221100,
        span_id: matching.span_id,
        sampled: true,
        is_remote: true,
        trace_state: vec![],
    };
    assert!(
        !try_into_sdk_span_data(fixture(), Some(&different_trace)).unwrap().parent_span_is_remote
    );
    assert!(!try_into_sdk_span_data(fixture(), None).unwrap().parent_span_is_remote);
}

#[test]
fn spans_without_a_parent_have_none() {
    let mut span = fixture();
    span.parent_span_id = String::new();
    let none = SpanContext {
        trace_id: 0x00112233445566778899aabbccddeeff,
        span_id: 0,
        sampled: true,
        is_remote: false,
        trace_state: vec![],
    };
    let converted = try_into_sdk_span_data(span, Some(&none)).unwrap();
    assert_eq!(converted.parent_span_id, 0);
    assert!(!converted.parent_span_is_remote);
}

#[test]
fn contexts_go_out_and_come_back() {
    let context = SpanContext {
        trace_id: 0x1234,
        span_id: 0x5678,
        sampled: true,
        is_remote: true,
        trace_state: vec![("a".into(), "1".into()), ("b@c".into(), "2".into())],
    };
    let out = otel_span_context_to_wit(&context);
    assert_eq!(out.trace_id, "00000000000000000000000000001234");
    assert_eq!(out.span_id, "0000000000005678");
    assert_eq!(span_context(&out), Ok(context.clone()));
    assert_eq!(outer_span_context(&context), out);
}

#[test]
fn guests_get_the_context_of_their_nearest_caller() {
    let context = |trace_id: u128| SpanContext {
        trace_id,
        span_id: 1,
        sampled: true,
        is_remote: false,
        trace_state: vec![],
    };
    let host = context(9);
    let mut traces: GuestTraces<u32, SpanContext> = GuestTraces::new();
    traces.register(1, context(1));
    traces.register(2, context(2));
    let out = |traces: &GuestTraces<u32, SpanContext>, stack: Vec<u32>| {
        outer_span_context_of(traces, &stack, &host)
    };
    assert_eq!(out(&traces, vec![11, 1]), otel_span_context_to_wit(&context(1)));
    assert_eq!(out(&traces, vec![12, 2, 1]), otel_span_context_to_wit(&context(2)));
    assert_eq!(out(&traces, vec![13]), otel_span_context_to_wit(&host));
    assert_eq!(caller_context(&traces, &vec![11, 1], &host), context(1));
    traces.release(&1);
    assert_eq!(out(&traces, vec![12, 2]), otel_span_context_to_wit(&context(2)));
    assert_eq!(caller_context(&traces, &vec![11, 1], &host), host);
}

#[test]
fn no_outer_span_means_an_empty_context() {
    let context = SpanContext {
        trace_id: 0,
        span_id: 7,
        sampled: true,
        is_remote: true,
        trace_state: vec![("a".into(), "1".into())],
    };
    let out = outer_span_context(&context);
    assert_eq!(out.trace_id, "");
    assert_eq!(out.span_id, "");
    assert!(!out.sampled && !out.is_remote && out.trace_state.is_empty());
}

#[test]
fn malformed_trace_states_are_rejected() {
    let mut value = fixture().span_context;
    value.trace_state = vec![("UPPER".into(), "x".into())];
    assert_eq!(span_context(&value), Err(SpanConversionError::InvalidField("trace_state")));
    value.trace_state = vec![("k".into(), "a,b".into())];
    assert_eq!(span_context(&value), Err(SpanConversionError::InvalidField("trace_state")));
    value.trace_state = vec![("k".into(), "x".repeat(257))];
    assert_eq!(span_context(&value), Err(SpanConversionError::InvalidField("trace_state")));
    value.trace_state = vec![("k".into(), "x".repeat(256))];
    assert!(span_context(&value).is_ok());
}

#[test]
fn json_becomes_typed_attributes() {
    assert_eq!(json_value("k", "\"text\""), Ok(AttributeValue::Text("text".into())));
    assert_eq!(json_value("k", "true"), Ok(AttributeValue::Flag(true)));
    assert_eq!(json_value("k", "-7"), Ok(AttributeValue::Integer(-7)));
    assert_eq!(json_value("k", "1.5"), Ok(AttributeValue::Float(1.5f64.to_bits())));
    assert_eq!(
        json_value("k", "[\"a\",\"b\"]"),
        Ok(AttributeValue::Texts(vec!["a".into(), "b".into()]))
    );
    assert_eq!(json_value("k", "[]"), Ok(AttributeValue::Texts(vec![])));
    assert_eq!(json_value("k", "[true]"), Ok(AttributeValue::Flags(vec![true])));
    assert_eq!(json_value("k", "[1,2]"), Ok(AttributeValue::Integers(vec![1, 2])));
    assert_eq!(
        json_value("k", "[0.5]"),
        Ok(AttributeValue::Floats(vec![0.5f64.to_bits()]))
    );
    for raw in ["null", "{}", "[1,\"a\"]", "[[1]]", "18446744073709551615", "not json", ""] {
        let error = json_value("k", raw).unwrap_err();
        assert_eq!(error, SpanConversionError::UnsupportedAttribute("k".into()), "{raw}");
    }
    assert_eq!(
        json_attribute("k", Some(JsonValue::Single(JsonScalar::Flag(true)))),
        Ok(AttributeValue::Flag(true))
    );
    assert!(json_attribute("k", None).is_err());
}

#[test]
fn one_bad_attribute_rejects_all() {
    let list = vec![
        KeyValue { key: "good".into(), value: "1".into() },
        KeyValue { key: "bad".into(), value: "null".into() },
    ];
    let error = key_values(list).unwrap_err();
    assert_eq!(error.text(), "unsupported attribute value for bad");
    assert_eq!(SpanConversionError::InvalidField("trace_id").text(), "invalid trace_id");
}

#[test]
fn kinds_and_statuses_stay() {
    for kind in [
        SpanKind::Client,
        SpanKind::Server,
        SpanKind::Producer,
        SpanKind::Consumer,
        SpanKind::Internal,
    ] {
        assert_eq!(convert_span_kind(kind), kind);
    }
    assert_eq!(convert_status(&Status::Okay), Status::Okay);
    assert_eq!(kind_text(SpanKind::Consumer), "SpanKind::Consumer");
    assert_eq!(status_text(&Status::Okay, ""), "Status::Ok");
    assert_eq!(status_text(&Status::Error("x".into()), "\"x\""), "Status::Error(\"x\")");
}

#[test]
fn spans_are_summed_up() {
    let summary = summarize_span_data(&fixture());
    assert_eq!(summary.name, "guest-child");
    assert_eq!(summary.trace_id, "00112233445566778899aabbccddeeff");
    assert_eq!(summary.span_id, "0102030405060708");
    assert_eq!(summary.parent_span_id, "1112131415161718");
    assert_eq!(summary.kind, "SpanKind::Internal");
    assert_eq!(summary.status, "Status::Error(\"failed\")");
    assert_eq!(
        (summary.attribute_count, summary.event_count, summary.link_count),
        (1, 1, 1)
    );
    let mut quoted = fixture();
    quoted.status = Status::Error("a \"b\"\n".into());
    assert_eq!(summarize_span_data(&quoted).status, "Status::Error(\"a \\\"b\\\"\\n\")");
}

fn log() -> WasiLogRecord {
    WasiLogRecord {
        timestamp: Some(Datetime { seconds: 5, nanoseconds: 6 }),
        observed_timestamp: None,
        severity_number: Some(17),
        body: Some("body".into()),
        attributes: Some(vec![KeyValue { key: "k".into(), value: "v".into() }]),
        trace_id: Some("00112233445566778899aabbccddeeff".into()),
        span_id: Some("bad".into()),
        sampled: Some(true),
    }
}

#[test]
fn log_records_keep_what_they_say() {
    let out = convert_wasi_log_record(log(), "service");
    assert_eq!(out.timestamp, Some(Datetime { seconds: 5, nanoseconds: 6 }));
    assert_eq!(out.observed_timestamp, None);
    assert_eq!(out.severity, Some(Severity::Error));
    assert_eq!(out.body.as_deref(), Some("body"));
    assert_eq!(
        out.attributes,
        vec![
            ("resource.service.name".to_string(), "service".to_string()),
            ("k".to_string(), "v".to_string()),
        ]
    );
    assert_eq!(
        out.trace,
        Some(LogTrace {
            trace_id: 0x00112233445566778899aabbccddeeff,
            span_id: 0xbad,
            sampled: true,
        })
    );
}

#[test]
fn log_records_without_ids_have_no_trace() {
    let mut record = log();
    record.trace_id = None;
    record.span_id = Some("xyz".into());
    let out = convert_wasi_log_record(record, "s");
    assert_eq!(out.trace, Some(LogTrace { trace_id: 0, span_id: 0, sampled: true }));
    let mut record = log();
    record.trace_id = None;
    record.span_id = None;
    assert_eq!(log_record_from(record, "s", false, false).trace, None);
    assert_eq!(log_record_from(log(), "s", false, false).timestamp, None);
}

#[test]
fn severities_by_number() {
    for (number, expected) in [
        (0, Severity::Info),
        (1, Severity::Trace),
        (8, Severity::Debug),
        (9, Severity::Info),
        (16, Severity::Warn),
        (20, Severity::Error),
        (24, Severity::Fatal),
        (25, Severity::Info),
    ] {
        assert_eq!(severity(number), expected, "{number}");
    }
}

fn point(value: MetricNumber) -> DataPoint {
    DataPoint { attributes: vec![KeyValue { key: "k".into(), value: "v".into() }], value }
}

fn metrics() -> ResourceMetrics {
    ResourceMetrics {
        scope_metrics: vec![
            ScopeMetrics {
                metrics: vec![
                    Metric {
                        name: "load".into(),
                        data: MetricData::F64Gauge(Gauge {
                            data_points: vec![point(MetricNumber::Float(1.5f64.to_bits()))],
                        }),
                    },
                    Metric {
                        name: "hits".into(),
                        data: MetricData::U64Sum(Sum {
                            data_points: vec![
                                point(MetricNumber::Unsigned(1)),
                                point(MetricNumber::Unsigned(2)),
                            ],
                            is_monotonic: true,
                        }),
                    },
                ],
            },
            ScopeMetrics {
                metrics: vec![
                    Metric {
                        name: "delta".into(),
                        data: MetricData::S64Sum(Sum {
                            data_points: vec![point(MetricNumber::Signed(-3))],
                            is_monotonic: false,
                        }),
                    },
                    Metric {
                        name: "latency".into(),
                        data: MetricData::F64Histogram(Histogram {
                            data_points: vec![HistogramDataPoint { attributes: vec![], count: 1 }],
                        }),
                    },
                ],
            },
        ],
    }
}

#[test]
fn metrics_are_summed_up() {
    let summary = summarize_resource_metrics(&metrics());
    assert_eq!(summary.total_scopes, 2);
    assert_eq!(summary.total_metrics, 4);
    assert_eq!(
        summary.metric_names,
        vec![
            "load[gauge(1 points)]".to_string(),
            "hits[sum(2 points, monotonic)]".to_string(),
            "delta[sum(1 points, non-monotonic)]".to_string(),
            "latency[histogram(1 points)]".to_string(),
        ]
    );
    let exponential = MetricData::S64ExponentialHistogram(Histogram { data_points: vec![] });
    assert_eq!(metric_data_summary(&exponential), "exp_histogram(0 points)");
}

#[test]
fn gauges_and_sums_are_recorded() {
    let gauges = extract_gauge_values(&metrics());
    assert_eq!(gauges.len(), 1);
    assert_eq!(gauges[0].name, "load");
    assert_eq!(gauges[0].value, MetricNumber::Float(1.5f64.to_bits()));
    assert_eq!(gauges[0].instrument, Instrument::Gauge);
    assert_eq!(gauges[0].attributes, vec![("k".to_string(), "v".to_string())]);

    let counters = extract_counter_values(&metrics());
    let names: Vec<&str> = counters.iter().map(|c| c.name.as_str()).collect();
    assert_eq!(names, vec!["hits", "hits", "delta"]);
    assert_eq!(counters[1].value, MetricNumber::Unsigned(2));
    assert_eq!(counters[0].instrument, Instrument::Counter);
    assert_eq!(counters[2].instrument, Instrument::UpDownCounter);
}

#[test]
fn exports_end_in_words() {
    assert_eq!(export_result(ExportState::Flushed), Ok(()));
    assert_eq!(
        export_result(ExportState::NoProvider),
        Err("Meter provider not initialized".to_string())
    );
    assert_eq!(
        export_result(ExportState::FlushFailed("gone".into())),
        Err("Failed to flush metrics: gone".to_string())
    );
}
