use async_nats::{HeaderMap, HeaderName};
use wash_messaging::messaging::consumer_group::{
    default_consumer_group, validate_consumer_group, ConsumerGroup, ConsumerGroupError,
    BROADCAST_CONSUMER_GROUP, CONSUMER_GROUP_CONFIG, MAX_DEFAULT_CONSUMER_GROUP_LEN,
};
use wash_messaging::messaging::guest::{nats_publish_report, nats_request_report, NatsReply};
use wash_messaging::messaging::handler::exports_messaging_handler;
use wash_messaging::messaging::message::{BrokerMessage, TraceContext};
use wash_messaging::messaging::multiplexed::{parent_context, NatsMsgProvider};
use wash_messaging::messaging::nats::{
    headers_for, headers_for_span, message_parent, subscribe_next, sync_outcome, BindingItem,
    NatsMessaging, RoundTrip, SubscribeAction, Subscription,
};
use wash_messaging::messaging::report::{
    consumer_span, producer_span, record_messaging_error, recorded_message, routed_parent,
    FieldValue, SpanField, MAX_ERROR_MESSAGE,
};
use wash_messaging::nats::activity::{
    synchronized, Activity, FenceAction, FenceError, FenceEvent,
};
use wash_messaging::nats::headers::{header, is_one_line, remove_header, set_header};
use wash_messaging::nats::trace::{inject_headers, parent, producer};
use wash_messaging::propagation::{
    context_from_propagation, inject_context, write_state, PropagationContext, PropagationError,
    SpanContext,
};
use wash_messaging::table::Table;
use wash_messaging::tracker::WorkloadTracker;
use wash_messaging::wit::{WitInterface, WitWorld};

fn remote_context(trace_id: &str, span_id: &str) -> SpanContext {
    SpanContext {
        trace_id: u128::from_str_radix(trace_id, 16).unwrap(),
        span_id: u64::from_str_radix(span_id, 16).unwrap(),
        sampled: true,
        is_remote: true,
        trace_state: vec![],
    }
}

fn headers_with_context(context: &SpanContext) -> Option<HeaderMap> {
    let propagation = inject_context(context);
    let mut headers = HeaderMap::new();
    headers.insert("traceparent", propagation.traceparent);
    if let Some(tracestate) = propagation.tracestate {
        headers.insert("tracestate", tracestate);
    }
    Some(headers)
}

fn field<'a>(fields: &'a [SpanField], name: &str) -> &'a FieldValue {
    &fields.iter().find(|field| field.name == name).unwrap().value
}

fn text(value: &str) -> FieldValue {
    FieldValue::Text(value.to_string())
}

#[test]
fn producer_header_consumer_and_reply_producer_keep_exact_graph_ids() {
    const TRACE_ID: &str = "4bf92f3577b34da6a3ce929d0e0e4736";
    const REQUEST_PRODUCER_ID: &str = "00f067aa0ba902b7";
    const CONSUMER_ID: &str = "1111111111111111";
    const REPLY_PRODUCER_ID: &str = "2222222222222222";

    let request_producer = remote_context(TRACE_ID, REQUEST_PRODUCER_ID);
    let (consumer_parent, invalid) = message_parent(&headers_with_context(&request_producer));
    assert!(!invalid);
    let consumer_parent = consumer_parent.unwrap();
    assert_eq!(format!("{:032x}", consumer_parent.trace_id), TRACE_ID);
    assert_eq!(format!("{:016x}", consumer_parent.span_id), REQUEST_PRODUCER_ID);

    let consumer = remote_context(TRACE_ID, CONSUMER_ID);
    let (reply_parent, invalid) = message_parent(&headers_with_context(&consumer));
    assert!(!invalid);
    let reply_parent = reply_parent.unwrap();
    assert_eq!(format!("{:032x}", reply_parent.trace_id), TRACE_ID);
    assert_eq!(format!("{:016x}", reply_parent.span_id), CONSUMER_ID);

    let reply_producer = remote_context(TRACE_ID, REPLY_PRODUCER_ID);
    let (reply_consumer_parent, invalid) = message_parent(&headers_with_context(&reply_producer));
    assert!(!invalid);
    let reply_consumer_parent = reply_consumer_parent.unwrap();
    assert_eq!(format!("{:032x}", reply_consumer_parent.trace_id), TRACE_ID);
    assert_eq!(format!("{:016x}", reply_consumer_parent.span_id), REPLY_PRODUCER_ID);
}

#[test]
fn extracts_unsampled_nats_parent() {
    let mut headers = HeaderMap::new();
    headers.insert(
        "traceparent",
        "00-4bf92f3577b34da6a3ce929d0e0e4736-00f067aa0ba902b7-00",
    );
    headers.insert("tracestate", "vendor=value");
    let (parent, invalid) = message_parent(&Some(headers));
    let parent = parent.expect("valid unsampled context");
    assert!(parent.trace_id != 0 && parent.span_id != 0);
    assert!(!parent.sampled);
    assert!(!invalid);
    assert_eq!(parent.trace_state, vec![("vendor".to_string(), "value".to_string())]);
}

#[test]
fn accepts_missing_and_rejects_malformed_nats_parent() {
    let (parent, invalid) = message_parent(&None);
    assert!(parent.is_none());
    assert!(!invalid);

    let mut headers = HeaderMap::new();
    headers.insert("traceparent", "malformed");
    let (parent, invalid) = message_parent(&Some(headers));
    assert!(parent.is_none());
    assert!(invalid);

    let mut headers = HeaderMap::new();
    headers.insert("tracestate", "vendor=value");
    let (parent, invalid) = message_parent(&Some(headers));
    assert!(parent.is_none());
    assert!(invalid);
}

#[test]
fn tracker_round_trip_with_component_data() {
    let mut tracker: WorkloadTracker<(), (Vec<String>, ConsumerGroup)> = WorkloadTracker::new();
    tracker.add_component(
        "wl-1".to_string(),
        "c-1".to_string(),
        (vec!["tasks.x".to_string()], ConsumerGroup::Grouped("workers".to_string())),
    );

    let data = tracker.get_component_data("c-1").expect("component should be retrievable");
    assert_eq!(data.0, vec!["tasks.x".to_string()]);
    assert_eq!(data.1.name(), Some("workers"));

    let removed = tracker.remove_workload("wl-1").unwrap();
    assert_eq!(removed.components.keys(), vec!["c-1".to_string()]);
    assert!(tracker.get_component_data("c-1").is_none());
    assert!(tracker.remove_workload("wl-1").is_none());
}

#[test]
fn tracked_data_can_be_changed() {
    let mut tracker: WorkloadTracker<u32, u32> = WorkloadTracker::new();
    tracker.add_component("w".to_string(), "c".to_string(), 1);
    tracker.add_unresolved_workload("w".to_string(), 7);
    *tracker.get_component_data_mut("c").unwrap() = 2;
    assert_eq!(tracker.get_component_data("c"), Some(&2));
    assert_eq!(tracker.get_workload_data("w"), Some(&7));
    assert!(tracker.get_component_data_mut("d").is_none());
}

#[test]
fn default_group_is_stable_for_component_replicas() {
    let first = default_consumer_group("orders", "processor", "worker");
    let second = default_consumer_group("orders", "processor", "worker");

    assert_eq!(first, second);
    assert!(first.starts_with("wasmcloud.orders.processor.worker."));
}

#[test]
fn default_group_is_isolated_by_logical_component_identity() {
    let base = default_consumer_group("orders", "processor", "worker");

    assert_ne!(base, default_consumer_group("other", "processor", "worker"));
    assert_ne!(base, default_consumer_group("orders", "other", "worker"));
    assert_ne!(base, default_consumer_group("orders", "processor", "other"));
}

#[test]
fn default_groups_of_like_identities_differ() {
    let dotted = default_consumer_group("a.b", "w", "c");
    let dashed = default_consumer_group("a-b", "w", "c");
    assert_eq!(dotted.len(), dashed.len());
    assert_eq!(dotted[..dotted.len() - 16], dashed[..dashed.len() - 16]);
    assert_ne!(dotted, dashed);
    let long = "x".repeat(150);
    assert_ne!(
        default_consumer_group("a", &long, "first"),
        default_consumer_group("a", &long, "firss")
    );
}

#[test]
fn default_group_is_nats_safe_and_bounded() {
    let group = default_consumer_group(
        "namespace with spaces.*",
        &"workload".repeat(40),
        "handler.>",
    );

    assert!(group.len() <= MAX_DEFAULT_CONSUMER_GROUP_LEN);
    assert!(!group.chars().any(|c| c.is_whitespace() || c == '*' || c == '>'));
    assert_eq!(
        group,
        default_consumer_group(
            "namespace with spaces.*",
            &"workload".repeat(40),
            "handler.>",
        )
    );
}

#[test]
fn consumer_group_configuration_selects_default_explicit_or_broadcast() {
    let default = ConsumerGroup::resolve(None, "ns", "workload", "component").unwrap();
    assert_eq!(
        default,
        ConsumerGroup::Grouped(default_consumer_group("ns", "workload", "component"))
    );
    assert_eq!(
        ConsumerGroup::resolve(Some("shared-workers"), "ns", "workload", "component").unwrap(),
        ConsumerGroup::Grouped("shared-workers".to_string())
    );
    assert_eq!(
        ConsumerGroup::resolve(Some(BROADCAST_CONSUMER_GROUP), "ns", "workload", "component")
            .unwrap(),
        ConsumerGroup::Broadcast
    );
}

#[test]
fn consumer_group_configuration_rejects_invalid_values() {
    for value in ["", "two groups", "workers.*", "workers.>"] {
        assert!(
            ConsumerGroup::resolve(Some(value), "ns", "workload", "component").is_err(),
            "expected `{value}` to be rejected"
        );
    }
    assert_eq!(validate_consumer_group(""), Err(ConsumerGroupError::Empty));
    assert_eq!(
        validate_consumer_group("a b"),
        Err(ConsumerGroupError::Unsafe("a b".to_string()))
    );
    assert_eq!(validate_consumer_group("workers"), Ok(()));
    assert_eq!(ConsumerGroup::Broadcast.name(), None);
}

#[test]
fn recognizes_exported_handler_at_any_version() {
    for export in [
        "wasmcloud:messaging/handler",
        "wasmcloud:messaging/handler@0.2.0",
        "wasmcloud:messaging/handler@0.2.2",
    ] {
        let world = WitWorld { imports: vec![], exports: vec![WitInterface::parse(export)] };
        assert!(exports_messaging_handler(&world), "should match {export}");
    }
}

#[test]
fn ignores_non_handler_worlds() {
    // Importing the handler is not exporting it
    let importer = WitWorld {
        imports: vec![WitInterface::parse("wasmcloud:messaging/handler@0.2.0")],
        exports: vec![],
    };
    assert!(!exports_messaging_handler(&importer));

    // Exporting other messaging interfaces does not count
    let consumer = WitWorld {
        imports: vec![],
        exports: vec![WitInterface::parse("wasmcloud:messaging/consumer,types")],
    };
    assert!(!exports_messaging_handler(&consumer));
}

#[test]
fn timeout_records_error_status_and_semantic_slug() {
    let fields = record_messaging_error(
        "messaging-request-timeout",
        "request timed out after 10ms",
    );
    assert_eq!(*field(&fields, "otel.status_code"), text("ERROR"));
    assert_eq!(*field(&fields, "error"), FieldValue::Flag(true));
    assert_eq!(*field(&fields, "error.type"), text("messaging-request-timeout"));
    assert_eq!(*field(&fields, "exception.slug"), text("messaging-request-timeout"));
    assert_eq!(*field(&fields, "messaging.operation.outcome"), text("failure"));
    assert_eq!(*field(&fields, "exception.message"), text("request timed out after 10ms"));
}

#[test]
fn recorded_messages_are_printable_and_bounded() {
    assert_eq!(recorded_message("a\nb\u{7f}c"), "abc");
    assert_eq!(recorded_message(&"é".repeat(2000)).chars().count(), MAX_ERROR_MESSAGE);
}

#[test]
fn spans_of_producers_and_consumers_name_what_they_do() {
    let context = remote_context("4bf92f3577b34da6a3ce929d0e0e4736", "00f067aa0ba902b7");
    let given = Some(inject_context(&context));
    let span = producer_span("nats", "publish", "a.b", 3, &given);
    assert_eq!(span.parent.unwrap().span_id, context.span_id);
    assert!(span.fields.iter().any(|f| f.value == text("a.b")));
    assert!(span.fields.iter().any(|f| f.value == FieldValue::Size(3)));

    let (parent, rejected) = routed_parent(&given);
    assert!(!rejected);
    let span = consumer_span("nats", "a.b", 3, parent, false);
    assert_eq!(span.parent.unwrap().trace_id, context.trace_id);

    let bad = Some(PropagationContext { traceparent: "bad".into(), tracestate: None });
    let (parent, rejected) = routed_parent(&bad);
    assert!(parent.is_none() && rejected);
    assert!(producer_span("nats", "publish", "a.b", 3, &bad).parent.is_none());
}

#[test]
fn requests_time_out_in_words() {
    let report = nats_request_report(NatsReply::TimedOut, 250);
    assert_eq!(report.result.unwrap_err(), "request timed out after 250ms");
    assert_eq!(*field(&report.fields, "exception.slug"), text("messaging-request-timeout"));

    let report = nats_request_report(NatsReply::Failed("no responders".into()), 250);
    assert_eq!(report.result.unwrap_err(), "failed to send request: no responders");
    assert_eq!(*field(&report.fields, "exception.slug"), text("messaging-broker-failed"));

    let message = BrokerMessage { subject: "a".into(), reply_to: None, body: vec![1] };
    let report = nats_request_report(NatsReply::Message(message.clone()), 250);
    assert_eq!(report.result.unwrap(), message);

    assert!(nats_publish_report(None).result.is_ok());
    assert_eq!(
        nats_publish_report(Some("closed".into())).result.unwrap_err(),
        "failed to send message: closed"
    );
}

#[test]
fn extracts_remote_context_and_rejects_malformed_headers() {
    let mut headers = HeaderMap::new();
    assert!(parent(&headers).is_none());
    headers.insert(
        "traceparent",
        "00-11111111111111111111111111111111-2222222222222222-01",
    );
    headers.insert("tracestate", "vendor=value");
    let context = parent(&headers).expect("valid context");
    assert_eq!(
        format!("{:032x}", context.trace_id),
        "11111111111111111111111111111111"
    );
    assert!(context.is_remote);
    assert_eq!(write_state(&context.trace_state), "vendor=value");
    headers.insert("tracestate", "invalid");
    assert!(parent(&headers).is_none());
    headers.insert("traceparent", "invalid");
    assert!(parent(&headers).is_none());
}

#[test]
fn spans_replace_the_context_of_a_message() {
    let mut context = remote_context("11111111111111111111111111111111", "2222222222222222");
    context.trace_state = vec![("a".into(), "1".into()), ("b".into(), "2".into())];
    let mut headers = None;
    inject_headers(&mut headers, &context);
    let found = parent(headers.as_ref().unwrap()).unwrap();
    assert_eq!(found, context);
    assert_eq!(
        headers.as_ref().unwrap().get("tracestate").unwrap().as_str(),
        "a=1,b=2"
    );

    context.trace_state = vec![];
    inject_headers(&mut headers, &context);
    assert!(headers.as_ref().unwrap().get("tracestate").is_none());

    let span = producer("publish", "a.b", &headers);
    assert_eq!(span.parent.unwrap().span_id, context.span_id);
}

#[test]
fn headers_are_read_set_and_removed() {
    let mut headers = HeaderMap::new();
    assert_eq!(header(&headers, "a"), None);
    set_header(&mut headers, "a", "1");
    set_header(&mut headers, "b", "2");
    set_header(&mut headers, "a", "3");
    assert_eq!(header(&headers, "a").as_deref(), Some("3"));
    remove_header(&mut headers, "a");
    assert_eq!(header(&headers, "a"), None);
    assert_eq!(header(&headers, "b").as_deref(), Some("2"));
    assert!(is_one_line("plain"));
    assert!(!is_one_line("two\nlines"));
    assert!(!is_one_line("two\rlines"));
}

#[test]
fn headers_under_unusual_names_stay_when_another_is_removed() {
    let mut headers = HeaderMap::new();
    headers.append(HeaderName::from_static("two words"), "one");
    headers.append(HeaderName::from_static("two words"), "two");
    headers.insert("tracestate", "a=b");
    remove_header(&mut headers, "tracestate");
    assert_eq!(header(&headers, "tracestate"), None);
    assert_eq!(headers.len(), 1);
    let values: Vec<&str> = headers
        .get_all(HeaderName::from_static("two words"))
        .map(|value| value.as_str())
        .collect();
    assert_eq!(values, vec!["one", "two"]);
}

fn read(traceparent: &str, tracestate: &str) -> Result<SpanContext, PropagationError> {
    context_from_propagation(&PropagationContext {
        traceparent: traceparent.to_string(),
        tracestate: Some(tracestate.to_string()),
    })
}

#[test]
fn trace_headers_are_read_as_they_are_written() {
    let trace_id = "4bf92f3577b34da6a3ce929d0e0e4736";
    let expected = remote_context(trace_id, "00f067aa0ba902b7");
    let parent = |version: &str, flags: &str| {
        format!("{version}-{trace_id}-00f067aa0ba902b7-{flags}")
    };
    assert_eq!(read(&parent("00", "01"), ""), Ok(expected.clone()));
    assert_eq!(read(&format!("  {}- ", parent("00", "01")), ""), Ok(expected.clone()));
    assert_eq!(read(&parent("00", "03"), ""), Ok(expected.clone()));
    assert!(!read(&parent("00", "02"), "").unwrap().sampled);
    assert_eq!(read(&parent("fe", "01-more"), ""), Ok(expected.clone()));
    for (version, flags) in [
        ("00", "01-more"), ("ff", "01"), ("00", "100"), ("00", "0A"), ("", "01"), ("0g", "01"),
    ] {
        assert_eq!(read(&parent(version, flags), ""), Err(PropagationError::TraceParent));
    }
    let capitals = parent("00", "01").replace("4bf9", "4BF9");
    assert_eq!(read(&capitals, ""), Err(PropagationError::TraceParent));
    let no_span = format!("00-{trace_id}-0-01");
    assert_eq!(read(&no_span, ""), Err(PropagationError::TraceParent));

    let state = |header: &str| read(&parent("00", "01"), header).map(|context| context.trace_state);
    assert_eq!(state("a=1,b==2,"), Ok(vec![("a".into(), "1".into()), ("b".into(), "2".into())]));
    assert_eq!(state("=1"), Ok(vec![("".into(), "1".into())]));
    for header in ["a", "a=1,,b=2", "a=1=2", "A=1", ",,"] {
        assert_eq!(state(header), Err(PropagationError::TraceState));
    }
}

#[test]
fn contexts_survive_their_headers() {
    let mut context = remote_context("4bf92f3577b34da6a3ce929d0e0e4736", "00f067aa0ba902b7");
    context.trace_state = vec![("vendor".into(), "value".into())];
    let headers = headers_for(&inject_context(&context));
    let (found, rejected) = message_parent(&Some(headers));
    assert!(!rejected);
    assert_eq!(found, Some(context));
}

#[test]
fn messages_carry_the_span_or_else_the_sender() {
    let span = remote_context("4bf92f3577b34da6a3ce929d0e0e4736", "00f067aa0ba902b7");
    let sender = remote_context("11111111111111111111111111111111", "2222222222222222");
    let given = Some(inject_context(&sender));

    let headers = headers_for_span(&span, &given);
    let (found, _) = message_parent(&Some(headers));
    assert_eq!(found.unwrap().span_id, span.span_id);

    let none = SpanContext {
        trace_id: 0,
        span_id: 0,
        sampled: false,
        is_remote: false,
        trace_state: vec![],
    };
    let headers = headers_for_span(&none, &given);
    let (found, _) = message_parent(&Some(headers));
    assert_eq!(found.unwrap().span_id, sender.span_id);
}

#[test]
fn contexts_that_are_malformed_say_so() {
    let context = PropagationContext {
        traceparent: "00-11111111111111111111111111111111-2222222222222222-01".into(),
        tracestate: Some("invalid".into()),
    };
    assert_eq!(context_from_propagation(&context), Err(PropagationError::TraceState));
    assert_eq!(PropagationError::TraceState.text(), "invalid tracestate");
    let context = PropagationContext { traceparent: "".into(), tracestate: None };
    assert_eq!(context_from_propagation(&context), Err(PropagationError::TraceParent));
    assert_eq!(PropagationError::TraceParent.text(), "invalid traceparent");
}

#[test]
fn unidentified_spans_are_not_propagated() {
    let context = SpanContext {
        trace_id: 0,
        span_id: 5,
        sampled: true,
        is_remote: false,
        trace_state: vec![("a".into(), "b".into())],
    };
    let value = inject_context(&context);
    assert_eq!(value.traceparent, "");
    assert_eq!(value.tracestate, None);
}

fn item<'a>(
    id: &'a str,
    config: &'a Table<String>,
    world: &'a WitWorld,
) -> BindingItem<'a> {
    BindingItem {
        workload_id: "w",
        workload_namespace: "ns",
        workload_name: "orders",
        id,
        name: Some("worker"),
        config,
        world,
    }
}

#[test]
fn components_subscribe_to_what_they_are_configured_for() {
    let world = WitWorld {
        imports: vec![],
        exports: vec![WitInterface::parse("wasmcloud:messaging/handler@0.4.0")],
    };
    let interfaces = vec![WitInterface::parse("wasmcloud:messaging/handler@0.4.0")];
    let mut config: Table<String> = Table::new();
    config.insert("subscriptions".to_string(), "tasks.a, tasks.b".to_string());
    let mut plugin = NatsMessaging::new();
    assert_eq!(plugin.id(), "wasmcloud-messaging");
    assert_eq!(plugin.world().imports.len(), 1);
    assert_eq!(plugin.on_workload_item_bind(&item("c", &config, &world), &interfaces), Ok(true));
    let group = default_consumer_group("ns", "orders", "worker");
    let plan = plugin.on_workload_resolved("c");
    assert_eq!(
        plan,
        vec![
            Subscription { subject: "tasks.a".to_string(), group: Some(group.clone()) },
            Subscription { subject: "tasks.b".to_string(), group: Some(group) },
        ]
    );
    assert_eq!(subscribe_next(&plan, 0, false, None), SubscribeAction::Subscribe(0));
    assert_eq!(subscribe_next(&plan, 1, false, None), SubscribeAction::Subscribe(1));
    assert_eq!(
        subscribe_next(&plan, 1, true, None),
        SubscribeAction::Abandon("failed to subscribe to tasks.b".to_string())
    );
    assert_eq!(subscribe_next(&plan, 2, false, None), SubscribeAction::Synchronize);
    assert_eq!(
        subscribe_next(&plan, 2, false, Some(RoundTrip::Returned)),
        SubscribeAction::Receive
    );
    assert_eq!(
        subscribe_next(&plan, 2, false, Some(RoundTrip::TimedOut)),
        SubscribeAction::Abandon(
            "failed to sync subscriptions with NATS server: sync with NATS timed out after 5s"
                .to_string()
        )
    );

    config.insert(CONSUMER_GROUP_CONFIG.to_string(), "broadcast".to_string());
    plugin.on_workload_item_bind(&item("d", &config, &world), &interfaces).unwrap();
    assert_eq!(plugin.on_workload_resolved("d")[0].group, None);

    config.insert(CONSUMER_GROUP_CONFIG.to_string(), "two groups".to_string());
    assert!(plugin.on_workload_item_bind(&item("e", &config, &world), &interfaces).is_err());
    assert!(plugin.on_workload_resolved("e").is_empty());

    let mut gone = plugin.on_workload_unbind("w");
    gone.sort();
    assert_eq!(gone, vec!["c".to_string(), "d".to_string()]);
    assert!(plugin.on_workload_resolved("c").is_empty());
}

#[test]
fn components_without_subjects_subscribe_to_nothing() {
    let world = WitWorld {
        imports: vec![],
        exports: vec![WitInterface::parse("wasmcloud:messaging/handler@0.4.0")],
    };
    let interfaces = vec![WitInterface::parse("wasmcloud:messaging/handler@0.4.0")];
    let mut config: Table<String> = Table::new();
    let mut plugin = NatsMessaging::new();
    assert_eq!(plugin.on_workload_item_bind(&item("c", &config, &world), &interfaces), Ok(true));
    let plan = plugin.on_workload_resolved("c");
    assert!(plan.is_empty());
    assert_eq!(subscribe_next(&plan, 0, false, None), SubscribeAction::Idle);
    config.insert("subscriptions".to_string(), " , tasks.a,,".to_string());
    assert_eq!(plugin.on_workload_item_bind(&item("d", &config, &world), &interfaces), Ok(true));
    let plan = plugin.on_workload_resolved("d");
    assert_eq!(plan.len(), 1);
    assert_eq!(plan[0].subject, "tasks.a");
}

#[test]
fn subscriptions_are_confirmed_by_a_round_trip() {
    assert_eq!(sync_outcome(RoundTrip::Returned), Ok(()));
    for trip in [
        RoundTrip::SubscribeFailed,
        RoundTrip::PublishFailed,
        RoundTrip::Ended,
        RoundTrip::TimedOut,
    ] {
        assert!(sync_outcome(trip).is_err());
    }
}

#[test]
fn providers_are_told_where_to_connect() {
    let provider = NatsMsgProvider;
    assert_eq!(provider.backend_type(), "nats");
    let mut config: Table<String> = Table::new();
    assert_eq!(provider.pool_key(&config), None);
    assert_eq!(
        provider.server(&config),
        Err("nats messaging backend requires a 'url' config")
    );
    config.insert("url".to_string(), "nats://localhost".to_string());
    assert_eq!(provider.pool_key(&config).as_deref(), Some("nats://localhost"));
    assert_eq!(provider.server(&config).as_deref(), Ok("nats://localhost"));
    let context = parent_context(TraceContext { traceparent: "p".into(), tracestate: None });
    assert_eq!(context.traceparent, "p");
}

#[test]
fn fence_waits_for_queued_delivery_until_its_owner_finishes() {
    let mut activity = Activity::default();
    let delivery = activity.begin();
    let reader = activity.reader();
    assert_eq!(reader, 0);
    let mut fence = activity.fence();
    assert_eq!(fence.next(&activity, FenceEvent::Changed), FenceAction::Ask(0));
    assert_eq!(fence.next(&activity, FenceEvent::Passed), FenceAction::Wait);
    activity.finish(delivery);
    assert_eq!(fence.next(&activity, FenceEvent::Changed), FenceAction::Done);
}

#[test]
fn stopped_reader_fails_instead_of_reporting_idle() {
    let mut activity = Activity::default();
    activity.reader();
    let mut fence = activity.fence();
    assert_eq!(fence.next(&activity, FenceEvent::Changed), FenceAction::Ask(0));
    assert_eq!(
        fence.next(&activity, FenceEvent::Stopped),
        FenceAction::Fail(FenceError::ReaderStopped)
    );
}

#[test]
fn generations_count_deliveries() {
    let mut activity = Activity::new();
    let before = activity.generation();
    let delivery = activity.begin();
    assert_eq!(activity.pending(), 1);
    assert_ne!(activity.generation(), before);
    activity.finish(delivery);
    assert_eq!(activity.pending(), 0);
    let mut fence = activity.fence();
    assert_eq!(
        fence.next(&activity, FenceEvent::Cancelled),
        FenceAction::Fail(FenceError::Cancelled)
    );
    assert!(synchronized(Some(true)).is_ok());
    assert!(synchronized(Some(false)).is_err());
    assert!(synchronized(None).is_err());
}
