use wash_messaging::otel::plugin::{
    component_resource, otlp_endpoint, ComponentContext, ExportStep, SpanEnd, WasiOtel,
    WasiOtelConfig, DEFAULT_OTLP_GRPC_ENDPOINT, QUEUE_FULL_DIAGNOSTIC_SECONDS,
    SPAN_SUBMISSION_QUEUE_CAPACITY,
};
use wash_messaging::otel::types::{
    Datetime, ExportedScope, ExportedSpan, InstrumentationScope, SpanData, SpanKind, Status,
    WitSpanContext,
};
use wash_messaging::propagation::SpanContext;

fn attribute(resource: &[(String, String)], key: &str) -> String {
    resource
        .iter()
        .find(|(candidate, _)| candidate == key)
        .map(|(_, value)| value.to_string())
        .unwrap()
}

fn span(trace_id: u128, span_id: u64, parent_id: u64, name: &'static str) -> ExportedSpan {
    ExportedSpan {
        span_context: SpanContext {
            trace_id,
            span_id,
            sampled: true,
            is_remote: false,
            trace_state: vec![],
        },
        parent_span_id: parent_id,
        parent_span_is_remote: false,
        span_kind: SpanKind::Internal,
        name: name.into(),
        start_time: Datetime { seconds: 1, nanoseconds: 0 },
        end_time: Datetime { seconds: 2, nanoseconds: 0 },
        attributes: vec![],
        dropped_attributes_count: 0,
        events: vec![],
        dropped_events_count: 0,
        links: vec![],
        dropped_links_count: 0,
        status: Status::Okay,
        instrumentation_scope: ExportedScope {
            name: "guest-test".into(),
            version: None,
            schema_url: None,
            attributes: vec![],
        },
    }
}

fn guest_span(span_id: &str) -> SpanData {
    SpanData {
        span_context: WitSpanContext {
            trace_id: "00112233445566778899aabbccddeeff".into(),
            span_id: span_id.into(),
            sampled: true,
            is_remote: false,
            trace_state: vec![],
        },
        parent_span_id: String::new(),
        span_kind: SpanKind::Internal,
        name: "guest".into(),
        start_time: Datetime { seconds: 1, nanoseconds: 0 },
        end_time: Datetime { seconds: 2, nanoseconds: 0 },
        attributes: vec![],
        events: vec![],
        links: vec![],
        status: Status::Unset,
        instrumentation_scope: InstrumentationScope {
            name: "guest-sdk".into(),
            version: None,
            schema_url: None,
            attributes: vec![],
        },
        dropped_attributes: 0,
        dropped_events: 0,
        dropped_links: 0,
    }
}

/// Fetches the spans of a stopped context until it is to be flushed.
fn drain(context: &mut ComponentContext) -> Vec<ExportedSpan> {
    let mut spans = vec![];
    loop {
        match context.next() {
            ExportStep::Export(span) => spans.push(span),
            ExportStep::Flush => return spans,
            ExportStep::Wait => panic!("not stopped"),
        }
    }
}

#[test]
fn the_service_name_can_be_configured() {
    let cfg = WasiOtelConfig::builder().service_name("my-service").build();
    assert_eq!(cfg.service_name, "my-service");
    assert_eq!(WasiOtelConfig::default().service_name, "wasi-otel");
}

#[test]
fn component_resources_have_distinct_namespace_and_name() {
    let config = WasiOtelConfig::default();
    let first = component_resource(&config, "random-a", "instance-a", "orders", "shop");
    let second = component_resource(&config, "random-b", "instance-b", "billing", "finance");

    assert_eq!(attribute(&first, "service.name"), "orders");
    assert_eq!(attribute(&first, "service.namespace"), "shop");
    assert_eq!(attribute(&second, "service.name"), "billing");
    assert_eq!(attribute(&second, "service.namespace"), "finance");
    assert_ne!(
        attribute(&first, "service.name"),
        attribute(&first, "service.namespace")
    );
}

#[test]
fn component_resource_name_is_stable_across_random_instance_ids() {
    let config = WasiOtelConfig::builder().service_name("   ").build();
    let first = component_resource(&config, "random-a", "instance-a", "orders", "shop");
    let second = component_resource(&config, "random-b", "instance-b", "orders", "shop");

    assert_eq!(attribute(&first, "service.name"), "orders");
    assert_eq!(attribute(&second, "service.name"), "orders");
    assert_ne!(
        attribute(&first, "service.instance.id"),
        attribute(&second, "service.instance.id")
    );
}

#[test]
fn validated_configured_service_name_takes_precedence() {
    let config = WasiOtelConfig::builder().service_name("orders").build();
    let resource = component_resource(&config, "component-id", "instance", "rollout", "shop");

    assert_eq!(attribute(&resource, "service.name"), "orders");
}

#[test]
fn guest_spans_keep_exact_ids_resources_and_component_isolation_on_unbind() {
    let mut plugin = WasiOtel::default();
    let first_resource = plugin
        .on_workload_item_bind(true, "component-a", "instance-a", "orders", "shop")
        .unwrap();
    let second_resource = plugin
        .on_workload_item_bind(true, "component-b", "instance-b", "billing", "finance")
        .unwrap();

    plugin.end_span("component-a", Ok(span(0x1111, 0xaaaa, 0x1010, "first")), 0);
    plugin.end_span("component-b", Ok(span(0x2222, 0xbbbb, 0x2020, "second")), 0);
    let mut first = plugin.on_workload_unbind("instance-a");
    let mut second = plugin.on_workload_unbind("instance-b");
    assert_eq!((first.len(), second.len()), (1, 1));

    let first_spans = drain(&mut first[0]);
    let second_spans = drain(&mut second[0]);
    assert_eq!(first_spans.len(), 1);
    assert_eq!(second_spans.len(), 1);
    assert_eq!(first_spans[0].span_context.trace_id, 0x1111);
    assert_eq!(first_spans[0].span_context.span_id, 0xaaaa);
    assert_eq!(first_spans[0].parent_span_id, 0x1010);
    assert_eq!(second_spans[0].span_context.trace_id, 0x2222);
    assert_eq!(second_spans[0].name, "second");

    assert_eq!(attribute(&first_resource, "service.name"), "orders");
    assert_eq!(attribute(&first_resource, "service.namespace"), "shop");
    assert_eq!(attribute(&first_resource, "wasmcloud.component.id"), "component-a");
    assert_eq!(attribute(&second_resource, "service.name"), "billing");
    assert_eq!(attribute(&second_resource, "wasmcloud.component.id"), "component-b");
}

#[test]
fn plugin_stop_style_shutdown_drains_every_component() {
    let mut components: Vec<ComponentContext> = (0..2)
        .map(|id: u64| {
            let mut component = ComponentContext::new(format!("component-{id}"), 16);
            component.submit(span(id as u128 + 1, id + 1, 9, "queued"), 0);
            component
        })
        .collect();
    for component in components.iter_mut() {
        component.shutdown();
    }
    assert!(components.iter_mut().all(|component| drain(component).len() == 1));
}

#[test]
fn queue_rejections_are_counted_per_component() {
    let mut context = ComponentContext::new("component-a".to_string(), 1);
    context.record_queue_rejection(1_000);
    context.record_queue_rejection(1_000);
    assert_eq!(context.dropped_spans(), 2);
    assert_eq!(context.component_id(), "component-a");
}

#[test]
fn losses_are_reported_now_and_then() {
    let mut context = ComponentContext::new("component-a".to_string(), 1);
    assert_eq!(context.submit(span(1, 1, 0, "kept"), 100), None);
    assert_eq!(context.submit(span(1, 2, 0, "lost"), 100), Some(1));
    assert_eq!(context.submit(span(1, 3, 0, "lost"), 129), None);
    assert_eq!(
        context.submit(span(1, 4, 0, "lost"), 100 + QUEUE_FULL_DIAGNOSTIC_SECONDS),
        Some(3)
    );
    // A clock that runs backwards reports nothing.
    assert_eq!(context.submit(span(1, 5, 0, "lost"), 50), None);
    assert!(matches!(context.next(), ExportStep::Export(_)));
    assert!(matches!(context.next(), ExportStep::Wait));
}

#[test]
fn spans_of_bound_components_wait_to_be_exported() {
    let mut plugin = WasiOtel::new(WasiOtelConfig::default());
    assert_eq!(plugin.id(), "wasi-otel");
    assert_eq!(plugin.service_name(), "wasi-otel");
    assert_eq!(plugin.world().imports[0].interfaces.len(), 4);
    plugin.on_workload_item_bind(true, "c", "w", "orders", "shop").unwrap();

    let end = plugin.on_end("c", guest_span("0102030405060708"), None, 0);
    assert!(matches!(end, SpanEnd::Submitted(None)));
    assert_eq!(end.slug(), None);
    match plugin.next_step("c") {
        Some(ExportStep::Export(span)) => {
            assert_eq!(span.span_context.span_id, 0x0102030405060708);
        }
        _ => panic!("nothing to export"),
    }
    assert!(matches!(plugin.next_step("c"), Some(ExportStep::Wait)));

    let mut early = guest_span("0102030405060709");
    early.start_time = Datetime { seconds: 0, nanoseconds: 0 };
    early.end_time = early.start_time;
    early.events.clear();
    let end = plugin.on_end("c", early, None, 0);
    assert!(matches!(end, SpanEnd::Submitted(None)));
    assert!(matches!(plugin.next_step("c"), Some(ExportStep::Export(_))));

    let end = plugin.on_end("c", guest_span("bad"), None, 0);
    assert_eq!(end.slug(), Some("wasi-otel-invalid-span-data"));
    let end = plugin.on_end("stranger", guest_span("0102030405060708"), None, 0);
    assert_eq!(end.slug(), Some("wasi-otel-component-not-bound"));
    assert!(plugin.next_step("stranger").is_none());
    assert_eq!(plugin.dropped_spans("stranger"), 0);
}

#[test]
fn full_queues_lose_spans() {
    let mut plugin = WasiOtel::default();
    plugin.on_workload_item_bind(true, "c", "w", "orders", "shop").unwrap();
    for id in 0..SPAN_SUBMISSION_QUEUE_CAPACITY {
        let end = plugin.end_span("c", Ok(span(1, id as u64 + 1, 0, "kept")), 40);
        assert!(matches!(end, SpanEnd::Submitted(None)));
    }
    let end = plugin.end_span("c", Ok(span(1, 9999, 0, "lost")), 40);
    assert!(matches!(end, SpanEnd::Submitted(Some(1))));
    assert_eq!(end.slug(), Some("wasi-otel-export-queue-full"));
}

#[test]
fn services_cannot_be_tracked() {
    let mut plugin = WasiOtel::default();
    assert_eq!(
        plugin.on_workload_item_bind(false, "c", "w", "orders", "shop"),
        Err("Service can not be tracked")
    );
    assert!(plugin.workloads().is_empty());
    assert!(plugin.on_workload_unbind("w").is_empty());
    plugin.on_workload_item_bind(true, "c", "w", "orders", "shop").unwrap();
    assert_eq!(plugin.workloads(), vec!["w".to_string()]);
    plugin.on_workload_unbind("w");
    assert!(plugin.workloads().is_empty());
}

#[test]
fn endpoints_are_found_in_order() {
    assert_eq!(otlp_endpoint(Some("a".into()), Some("b".into())), "a");
    assert_eq!(otlp_endpoint(None, Some("b".into())), "b");
    assert_eq!(otlp_endpoint(None, None), DEFAULT_OTLP_GRPC_ENDPOINT);
}
