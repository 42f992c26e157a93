use wash_messaging::messaging::delivery::{
    deliver_next, processor_next, DeliveryAction, DeliveryEvent, Handling, ProcessorAction,
    ProcessorEvent,
};
use wash_messaging::messaging::guest::{
    broker_publish_report, broker_request_report, guest_message,
};
use wash_messaging::messaging::in_memory::broker::{
    wants_messaging, Activity, InMemoryMessaging, NextMessage, Received, RequestPoll, ServiceError,
    MAX_QUEUE_SIZE,
};
use wash_messaging::messaging::in_memory::driver::InMemoryMessagingDriver;
use wash_messaging::messaging::in_memory::model::Lifecycle;
use wash_messaging::messaging::message::{
    propagation_context, to_host, to_routed, BrokerMessage, HostMessage, MessageOrigin,
    MessagingError, ObservedMessage, ObservedOperation, RoutedMessage, TraceContext,
};
use wash_messaging::messaging::queue::RequestTicket;
use wash_messaging::messaging::report::{FieldValue, SpanField};
use wash_messaging::messaging::tombstones::{Tombstones, MAX_TOMBSTONES};
use wash_messaging::propagation::{
    context_from_propagation, inject_context, PropagationContext, SpanContext,
};
use wash_messaging::wit::{WitInterface, WitWorld};

fn context(trace: u128, span: u64) -> SpanContext {
    SpanContext {
        trace_id: trace,
        span_id: span,
        sampled: true,
        is_remote: true,
        trace_state: vec![],
    }
}

fn message(subject: &str, body: &[u8]) -> HostMessage {
    HostMessage {
        subject: subject.to_string(),
        reply_to: None,
        body: body.to_vec(),
        trace_context: None,
    }
}

fn messaging() -> Vec<WitInterface> {
    vec![WitInterface::parse("wasmcloud:messaging/consumer,types@0.4.0")]
}

fn handler_world() -> WitWorld {
    WitWorld {
        imports: vec![],
        exports: vec![WitInterface::parse("wasmcloud:messaging/handler@0.4.0")],
    }
}

fn bound_driver() -> (InMemoryMessaging, InMemoryMessagingDriver) {
    let mut plugin = InMemoryMessaging::new();
    let driver = plugin.reserve_workload("test".to_string()).unwrap();
    plugin.on_workload_bind("test", &messaging()).unwrap();
    (plugin, driver)
}

/// Adds a component that handles messages on the subjects.
fn handler(plugin: &mut InMemoryMessaging, component: &str, subscriptions: Option<&str>) {
    assert!(plugin.on_workload_item_bind(
        "test",
        component,
        &messaging(),
        &handler_world(),
        subscriptions,
    ));
    assert!(matches!(plugin.on_workload_resolved(component), Ok(true)));
}

fn next(plugin: &mut InMemoryMessaging, component: &str) -> (RoutedMessage, Option<Activity>) {
    match plugin.next_message(component) {
        NextMessage::Message(message, activity) => (message, activity),
        NextMessage::Nothing => panic!("nothing to fetch"),
        NextMessage::Stopped => panic!("stopped"),
    }
}

fn observed(received: Received<ObservedMessage>) -> ObservedMessage {
    match received {
        Received::Item(item) => item,
        Received::Pending => panic!("pending"),
        Received::Ended => panic!("ended"),
    }
}

fn failure(poll: RequestPoll) -> MessagingError {
    match poll {
        RequestPoll::Done(Err(error)) => error,
        RequestPoll::Done(Ok(_)) => panic!("replied"),
        RequestPoll::Waiting => panic!("waiting"),
    }
}

fn replied(poll: RequestPoll) -> HostMessage {
    match poll {
        RequestPoll::Done(Ok(message)) => message,
        RequestPoll::Done(Err(error)) => panic!("{}", error.text()),
        RequestPoll::Waiting => panic!("waiting"),
    }
}

#[test]
fn concurrent_propagation_contexts_do_not_leak() {
    let injected: Vec<(u64, PropagationContext)> = (1..=256_u64)
        .map(|id| (id, inject_context(&context(id as u128, id))))
        .collect();
    for (id, propagation) in injected.iter().rev() {
        let extracted = context_from_propagation(propagation).unwrap();
        assert_eq!(extracted.trace_id, *id as u128);
        assert_eq!(extracted.span_id, *id);
    }
}

#[test]
fn routed_message_envelope_preserves_and_validates_context() {
    let message = BrokerMessage {
        subject: "orders.created".into(),
        reply_to: Some("_INBOX.reply".into()),
        body: vec![1, 2, 3],
    };
    let propagation = inject_context(&context(0x1234, 0x5678));
    let routed = RoutedMessage { message: message.clone(), propagation: Some(propagation) };

    assert_eq!(routed.message.subject, message.subject);
    assert_eq!(routed.message.reply_to, message.reply_to);
    assert_eq!(routed.message.body, message.body);
    let extracted = context_from_propagation(routed.propagation.as_ref().unwrap()).unwrap();
    assert_eq!(extracted.trace_id, 0x1234);
    assert_eq!(extracted.span_id, 0x5678);

    let missing = RoutedMessage { message: message.clone(), propagation: None };
    assert!(missing.propagation.is_none());
    let malformed = RoutedMessage {
        message,
        propagation: Some(PropagationContext {
            traceparent: "malformed".into(),
            tracestate: None,
        }),
    };
    assert!(context_from_propagation(malformed.propagation.as_ref().unwrap()).is_err());
}

#[test]
fn routing_keeps_the_whole_message() {
    let message = HostMessage {
        subject: "a.b".into(),
        reply_to: Some("inbox".into()),
        body: vec![1, 2],
        trace_context: Some(TraceContext {
            traceparent: "parent".into(),
            tracestate: Some("k=v".into()),
        }),
    };
    let routed = to_routed(message.clone());
    assert_eq!(routed.propagation.as_ref().unwrap().traceparent, "parent");
    assert_eq!(to_host(&routed), message);
    let context = propagation_context(message.trace_context.unwrap());
    assert_eq!(context.tracestate.as_deref(), Some("k=v"));
}

#[test]
fn host_injection_is_not_observed_but_guest_publish_is() {
    let (mut plugin, driver) = bound_driver();
    let observations = driver.observe(&mut plugin, 4).unwrap();
    driver.publish(&mut plugin, message("events", b"host")).unwrap();
    assert!(matches!(observations.recv(&mut plugin), Received::Pending));
    plugin
        .publish_core("test", message("events", b"guest"), MessageOrigin::Guest)
        .unwrap();
    let observed = observed(observations.recv(&mut plugin));
    assert_eq!(observed.operation, ObservedOperation::Publish);
    assert_eq!(observed.message.body, b"guest");
    assert_eq!(observed.origin, MessageOrigin::Guest);
}

#[test]
fn explicit_responder_replies_to_guest_request() {
    let (mut plugin, driver) = bound_driver();
    let responder = driver.register_responder(&mut plugin, "rpc.*".to_string(), 1).unwrap();
    let ticket = plugin
        .request("test", message("rpc.echo", b"request"), MessageOrigin::Guest)
        .unwrap();
    let request = match responder.recv(&mut plugin) {
        Received::Item(request) => request,
        _ => panic!("no request"),
    };
    assert_eq!(request.message.body, b"request");
    request.reply(&mut plugin, message("ignored", b"reply")).unwrap();
    let reply = replied(plugin.poll_request(&ticket));
    assert_eq!(reply.body, b"reply");
}

#[test]
fn request_timeout_cleans_pending_and_idle_activity() {
    let (mut plugin, driver) = bound_driver();
    let ticket = driver.request(&mut plugin, message("nobody", b"request")).unwrap();
    assert!(matches!(plugin.poll_request(&ticket), RequestPoll::Waiting));
    assert_eq!(driver.is_idle(&plugin), Ok(false));
    assert_eq!(plugin.expire_request(&ticket), Err(MessagingError::Timeout));
    assert_eq!(driver.is_idle(&plugin), Ok(true));
    assert_eq!(failure(plugin.poll_request(&ticket)), MessagingError::Closed);
}

#[test]
fn dropped_request_cleans_pending_synchronously() {
    let (mut plugin, driver) = bound_driver();
    let ticket = driver.request(&mut plugin, message("nobody", b"request")).unwrap();
    plugin.cancel_request(&ticket);
    assert_eq!(driver.is_idle(&plugin), Ok(true));
    assert_eq!(failure(plugin.poll_request(&ticket)), MessagingError::Closed);
}

#[test]
fn full_observer_and_responder_do_not_delay_request_deadline() {
    let (mut plugin, driver) = bound_driver();
    let _observer = driver.observe(&mut plugin, 1).unwrap();
    plugin
        .publish_core("test", message("event", b"first"), MessageOrigin::Guest)
        .unwrap();
    plugin
        .publish_core("test", message("event", b"second"), MessageOrigin::Guest)
        .unwrap();

    let _responder = driver.register_responder(&mut plugin, "rpc".to_string(), 1).unwrap();
    let ticket = plugin
        .request("test", message("rpc", b"request"), MessageOrigin::Guest)
        .unwrap();
    assert!(matches!(plugin.poll_request(&ticket), RequestPoll::Waiting));
    assert_eq!(plugin.expire_request(&ticket), Err(MessagingError::Timeout));
}

#[test]
fn tombstones_evict_oldest_at_cap() {
    let mut tombstones = Tombstones::new();
    for index in 0..=MAX_TOMBSTONES {
        tombstones.insert(index.to_string());
    }
    assert_eq!(tombstones.len(), MAX_TOMBSTONES);
    assert!(!tombstones.contains("0"));
    assert!(tombstones.contains(&MAX_TOMBSTONES.to_string()));
}

#[test]
fn tombstones_remember_a_subject_once() {
    let mut tombstones = Tombstones::new();
    tombstones.insert("a".to_string());
    tombstones.insert("a".to_string());
    assert_eq!(tombstones.len(), 1);
    assert!(tombstones.contains("a"));
    assert!(!tombstones.contains("b"));
}

#[test]
fn registration_blocked_during_close_is_rejected() {
    let (mut plugin, driver) = bound_driver();
    driver.close(&mut plugin).unwrap();
    assert!(matches!(driver.observe(&mut plugin, 1), Err(MessagingError::Closed)));
    assert!(matches!(
        driver.register_responder(&mut plugin, "event".to_string(), 1),
        Err(MessagingError::Closed)
    ));
}

#[test]
fn reservation_prebind_duplicate_and_close() {
    let mut plugin = InMemoryMessaging::new();
    let driver = plugin.reserve_workload("test".to_string()).unwrap();
    assert_eq!(
        driver.publish(&mut plugin, message("event", b"body")),
        Err(MessagingError::NotBound)
    );
    assert!(matches!(
        plugin.reserve_workload("test".to_string()),
        Err(MessagingError::AlreadyReserved)
    ));
    plugin.on_workload_bind("test", &messaging()).unwrap();
    let observer = driver.observe(&mut plugin, 1).unwrap();
    let responder = driver.register_responder(&mut plugin, "event".to_string(), 1).unwrap();
    driver.close(&mut plugin).unwrap();
    assert!(matches!(observer.recv(&mut plugin), Received::Ended));
    assert!(matches!(responder.recv(&mut plugin), Received::Ended));
    assert_eq!(
        driver.publish(&mut plugin, message("event", b"body")),
        Err(MessagingError::Closed)
    );
    assert!(matches!(driver.observe(&mut plugin, 1), Err(MessagingError::Closed)));
    assert!(matches!(
        driver.register_responder(&mut plugin, "event".to_string(), 1),
        Err(MessagingError::Closed)
    ));
}

#[test]
fn async_request_replies_between_components() {
    let (mut plugin, driver) = bound_driver();
    handler(&mut plugin, "echo", Some("async.echo"));

    let ticket = plugin
        .request("test", message("async.echo", b"payload"), MessageOrigin::Guest)
        .unwrap();
    let (request, activity) = next(&mut plugin, "echo");
    assert_eq!(request.message.body, b"payload");
    let reply_to = request.message.reply_to.clone().unwrap();
    assert!(reply_to.starts_with("_INBOX."));
    assert_eq!(reply_to, ticket.inbox);
    plugin
        .publish_core("test", message(&reply_to, b"payload"), MessageOrigin::Guest)
        .unwrap();
    assert_eq!(driver.is_idle(&plugin), Ok(false));
    let reply = replied(plugin.poll_request(&ticket));
    assert_eq!(reply.body, b"payload");
    assert_eq!(reply.subject, reply_to);
    plugin.finish(activity.unwrap());
    assert_eq!(driver.is_idle(&plugin), Ok(true));
}

#[test]
fn replies_come_through_whatever_else_goes_on() {
    let (mut plugin, driver) = bound_driver();
    handler(&mut plugin, "echo", Some("echo"));
    handler(&mut plugin, "all", None);
    let observer = driver.observe(&mut plugin, 20).unwrap();
    let ticket = plugin.request("test", message("echo", b"q"), MessageOrigin::Guest).unwrap();
    let other = plugin.request("test", message("echo", b"o"), MessageOrigin::Guest).unwrap();
    assert!(matches!(plugin.poll_request(&ticket), RequestPoll::Waiting));

    let (_, first) = next(&mut plugin, "echo");
    let (_, second) = next(&mut plugin, "echo");
    plugin.publish_core("test", message("news", b"n"), MessageOrigin::HostInjected).unwrap();
    plugin.on_workload_bind("elsewhere", &messaging()).unwrap();
    plugin.close_workload("elsewhere").unwrap();
    plugin.cancel_request(&other);
    plugin.finish(second.unwrap());
    assert!(matches!(observer.recv(&mut plugin), Received::Item(_)));
    assert!(matches!(plugin.poll_request(&ticket), RequestPoll::Waiting));

    for body in [b"one", b"two"] {
        let reply = message(&ticket.inbox, body);
        plugin.publish_core("test", reply, MessageOrigin::Guest).unwrap();
    }
    let late = message(&other.inbox, b"late");
    plugin.publish_core("test", late, MessageOrigin::HostInjected).unwrap();
    plugin.finish(first.unwrap());
    let waiting: Vec<Vec<u8>> = (0..3)
        .map(|_| {
            let (message, activity) = next(&mut plugin, "all");
            plugin.finish(activity.unwrap());
            message.message.body
        })
        .collect();
    assert_eq!(waiting, vec![b"q".to_vec(), b"o".to_vec(), b"n".to_vec()]);
    assert!(matches!(plugin.next_message("all"), NextMessage::Nothing));
    assert_eq!(driver.is_idle(&plugin), Ok(false));
    assert_eq!(replied(plugin.poll_request(&ticket)).body, b"one");
    assert_eq!(driver.is_idle(&plugin), Ok(true));
}

#[test]
fn responders_answer_whatever_else_goes_on() {
    let (mut plugin, driver) = bound_driver();
    let responder = driver.register_responder(&mut plugin, "rpc".to_string(), 2).unwrap();
    let ticket = plugin.request("test", message("rpc", b"q"), MessageOrigin::Guest).unwrap();
    let request = match responder.recv(&mut plugin) {
        Received::Item(request) => request,
        _ => panic!("no request"),
    };
    responder.release(&mut plugin);
    plugin.publish_core("test", message("news", b"n"), MessageOrigin::Guest).unwrap();
    assert!(matches!(plugin.poll_request(&ticket), RequestPoll::Waiting));
    request.reply(&mut plugin, message("ignored", b"a")).unwrap();
    plugin.publish_core("test", message("news", b"m"), MessageOrigin::Guest).unwrap();
    let reply = replied(plugin.poll_request(&ticket));
    assert_eq!(reply.body, b"a");
    assert_eq!(reply.subject, ticket.inbox);
}

#[test]
fn each_request_gets_an_inbox_of_its_own() {
    let (mut plugin, _driver) = bound_driver();
    let first = plugin.request("test", message("a", b""), MessageOrigin::Guest).unwrap();
    let second = plugin.request("test", message("a", b""), MessageOrigin::Guest).unwrap();
    assert_ne!(first.inbox, second.inbox);
    assert_ne!(first.id, second.id);
    let id: Vec<char> = first.inbox["_INBOX.".len()..].chars().collect();
    assert_eq!(id.len(), 36);
    assert_eq!(id[14], '4');
    assert!("89ab".contains(id[19]));
}

#[test]
fn a_second_reply_is_dropped() {
    let (mut plugin, _driver) = bound_driver();
    handler(&mut plugin, "echo", None);
    let ticket = plugin
        .begin_request("test", message("a", b""), MessageOrigin::Guest, "_INBOX.x".to_string())
        .unwrap();
    let (_, activity) = next(&mut plugin, "echo");
    plugin
        .publish_core("test", message("_INBOX.x", b"one"), MessageOrigin::Guest)
        .unwrap();
    plugin
        .publish_core("test", message("_INBOX.x", b"two"), MessageOrigin::Guest)
        .unwrap();
    assert_eq!(replied(plugin.poll_request(&ticket)).body, b"one");
    // The late reply went to no component either.
    assert!(matches!(plugin.next_message("echo"), NextMessage::Nothing));
    plugin.finish(activity.unwrap());
}

#[test]
fn replies_to_guests_are_observed_as_replies() {
    let (mut plugin, driver) = bound_driver();
    let observations = driver.observe(&mut plugin, 8).unwrap();
    let ticket = plugin
        .begin_request("test", message("a", b"q"), MessageOrigin::Guest, "_INBOX.x".to_string())
        .unwrap();
    assert_eq!(observed(observations.recv(&mut plugin)).operation, ObservedOperation::Request);
    plugin
        .publish_core("test", message("_INBOX.x", b"a"), MessageOrigin::Guest)
        .unwrap();
    let reply = observed(observations.recv(&mut plugin));
    assert_eq!(reply.operation, ObservedOperation::Reply);
    assert_eq!(reply.message.body, b"a");
    assert_eq!(replied(plugin.poll_request(&ticket)).body, b"a");
}

#[test]
fn messages_stay_in_their_workload() {
    let (mut plugin, _driver) = bound_driver();
    handler(&mut plugin, "mine", None);
    plugin.on_workload_bind("other", &messaging()).unwrap();
    plugin
        .publish_core("other", message("a", b"x"), MessageOrigin::Guest)
        .unwrap();
    assert!(matches!(plugin.next_message("mine"), NextMessage::Nothing));
}

#[test]
fn subscriptions_select_the_handlers() {
    let (mut plugin, _driver) = bound_driver();
    handler(&mut plugin, "leet", Some("tasks.leet"));
    handler(&mut plugin, "all", Some("tasks.>"));
    plugin
        .publish_core("test", message("tasks.reverse", b"x"), MessageOrigin::Guest)
        .unwrap();
    assert!(matches!(plugin.next_message("leet"), NextMessage::Nothing));
    let (routed, activity) = next(&mut plugin, "all");
    assert_eq!(routed.message.subject, "tasks.reverse");
    plugin.finish(activity.unwrap());
}

#[test]
fn a_full_inbox_refuses_the_message_for_all() {
    let (mut plugin, _driver) = bound_driver();
    handler(&mut plugin, "narrow", Some("a"));
    for _ in 0..MAX_QUEUE_SIZE {
        plugin.publish_core("test", message("a", b""), MessageOrigin::Guest).unwrap();
    }
    handler(&mut plugin, "wide", Some("a"));
    assert_eq!(
        plugin.publish_core("test", message("a", b""), MessageOrigin::Guest),
        Err(MessagingError::QueueFull)
    );
    assert!(matches!(plugin.next_message("wide"), NextMessage::Nothing));
    assert_eq!(
        plugin.request("test", message("a", b""), MessageOrigin::Guest),
        Err(MessagingError::QueueFull)
    );
}

#[test]
fn unbound_workloads_are_gone() {
    let (mut plugin, driver) = bound_driver();
    handler(&mut plugin, "echo", None);
    let observer = driver.observe(&mut plugin, 1).unwrap();
    assert_eq!(plugin.on_workload_unbind("test"), vec!["echo".to_string()]);
    assert!(matches!(plugin.next_message("echo"), NextMessage::Stopped));
    assert!(matches!(observer.recv(&mut plugin), Received::Ended));
    assert_eq!(
        driver.publish(&mut plugin, message("a", b"")),
        Err(MessagingError::NotBound)
    );
    assert!(plugin.on_workload_unbind("test").is_empty());
}

#[test]
fn bound_workloads_cannot_be_bound_again() {
    let (mut plugin, driver) = bound_driver();
    let again = plugin.on_workload_bind("test", &messaging());
    assert_eq!(again, Err(ServiceError::WrongState(Lifecycle::Bound)));
    assert_eq!(
        again.unwrap_err().text(),
        "workload cannot be bound from lifecycle state 1"
    );
    driver.close(&mut plugin).unwrap();
    assert_eq!(
        plugin.on_workload_bind("test", &messaging()).unwrap_err().text(),
        "workload cannot be bound from lifecycle state 3"
    );
    // A workload that does not ask for messaging is left alone.
    let http = vec![WitInterface::parse("wasi:http/handler")];
    assert!(!wants_messaging(&http));
    assert_eq!(plugin.on_workload_bind("test", &http), Ok(()));
}

#[test]
fn processors_start_once() {
    let (mut plugin, _driver) = bound_driver();
    handler(&mut plugin, "echo", None);
    assert_eq!(plugin.on_workload_resolved("echo"), Err(ServiceError::AlreadyStarted));
    assert_eq!(ServiceError::AlreadyStarted.text(), "messaging processor already started");
    assert_eq!(plugin.on_workload_resolved("stranger"), Ok(false));
}

#[test]
fn receivers_that_are_released_hear_no_more() {
    let (mut plugin, driver) = bound_driver();
    let observer = driver.observe(&mut plugin, 4).unwrap();
    let id = observer.id;
    observer.release(&mut plugin);
    plugin.publish_core("test", message("a", b""), MessageOrigin::Guest).unwrap();
    let same = wash_messaging::messaging::in_memory::broker::ObservationReceiver { id };
    assert!(matches!(same.recv(&mut plugin), Received::Ended));
    let responder = driver.register_responder(&mut plugin, "a".to_string(), 4).unwrap();
    responder.release(&mut plugin);
    let ticket = plugin.request("test", message("a", b""), MessageOrigin::Guest).unwrap();
    assert!(matches!(plugin.poll_request(&ticket), RequestPoll::Waiting));
}

#[test]
fn closing_ends_requests() {
    let (mut plugin, driver) = bound_driver();
    let ticket = driver.request(&mut plugin, message("nobody", b"")).unwrap();
    driver.close(&mut plugin).unwrap();
    assert_eq!(failure(plugin.poll_request(&ticket)), MessagingError::Closed);
    assert_eq!(
        plugin.answer(
            RequestTicket { workload: ticket.workload, inbox: ticket.inbox, id: ticket.id },
            message("x", b""),
        ),
        Err(MessagingError::Closed)
    );
}

#[test]
fn closing_what_is_not_there_fails() {
    let mut plugin = InMemoryMessaging::default();
    assert_eq!(plugin.close_workload("nobody"), Err(MessagingError::Closed));
    assert_eq!(plugin.is_idle("nobody"), Err(MessagingError::NotBound));
    let driver = plugin.driver("nobody".to_string());
    assert_eq!(driver.workload_id, "nobody");
    assert_eq!(
        driver.publish(&mut plugin, message("a", b"")),
        Err(MessagingError::NotBound)
    );
}

#[test]
fn publishing_in_words() {
    let (mut plugin, _driver) = bound_driver();
    assert_eq!(plugin.publish("test", "a.b", vec![1]), Ok(()));
    assert_eq!(
        plugin.publish("nobody", "a.b", vec![1]),
        Err("workload is not bound".to_string())
    );
}

#[test]
fn abandoned_inboxes_refuse_messages() {
    let (mut plugin, _driver) = bound_driver();
    handler(&mut plugin, "echo", None);
    plugin.publish_core("test", message("a", b""), MessageOrigin::Guest).unwrap();
    plugin.abandon("echo");
    assert_eq!(
        plugin.publish_core("test", message("a", b""), MessageOrigin::Guest),
        Err(MessagingError::Closed)
    );
}

#[test]
fn errors_have_words() {
    for (error, text) in [
        (MessagingError::AlreadyReserved, "workload is already reserved"),
        (MessagingError::NotBound, "workload is not bound"),
        (MessagingError::Closed, "workload is closed"),
        (MessagingError::QueueFull, "message queue is full"),
        (MessagingError::Timeout, "request timed out"),
        (MessagingError::AlreadyReplied, "reply was already sent"),
    ] {
        assert_eq!(error.text(), text);
    }
}

fn text_of(fields: &[SpanField], name: &str) -> String {
    match &fields.iter().find(|field| field.name == name).unwrap().value {
        FieldValue::Text(text) => text.clone(),
        FieldValue::Flag(flag) => flag.to_string(),
        FieldValue::Size(size) => size.to_string(),
    }
}

#[test]
fn guests_get_the_outcome_and_spans_record_it() {
    let message = guest_message("a".into(), None, vec![1], None);
    assert_eq!(message.subject, "a");
    let report = broker_request_report(Ok(message));
    assert_eq!(report.result.unwrap().body, vec![1]);
    assert_eq!(text_of(&report.fields, "messaging.operation.outcome"), "success");

    let report = broker_request_report(Err(MessagingError::Timeout));
    assert_eq!(report.result.unwrap_err(), "request timed out");
    assert_eq!(text_of(&report.fields, "exception.slug"), "messaging-broker-failed");
    assert_eq!(text_of(&report.fields, "messaging.operation.outcome"), "failure");

    assert!(broker_publish_report(Ok(())).result.is_ok());
    let report = broker_publish_report(Err(MessagingError::QueueFull));
    assert_eq!(report.result.unwrap_err(), "message queue is full");
}

#[test]
fn deliveries_prefer_a_running_service() {
    assert!(matches!(
        deliver_next(DeliveryEvent::Received, true),
        DeliveryAction::AskForService
    ));
    assert!(matches!(
        deliver_next(DeliveryEvent::Service(true), true),
        DeliveryAction::Serve
    ));
    assert!(matches!(
        deliver_next(DeliveryEvent::Service(false), true),
        DeliveryAction::OpenStore
    ));
    assert!(matches!(
        deliver_next(DeliveryEvent::Store(None), true),
        DeliveryAction::Instantiate
    ));
    assert!(matches!(
        deliver_next(DeliveryEvent::Instance(None), true),
        DeliveryAction::Handle
    ));
    match deliver_next(DeliveryEvent::Answered(Handling::Handled), true) {
        DeliveryAction::Record(fields) => {
            assert_eq!(text_of(&fields, "messaging.operation.outcome"), "success");
        }
        _ => panic!("not recorded"),
    }
    match deliver_next(DeliveryEvent::Answered(Handling::Failed("boom".into())), true) {
        DeliveryAction::Record(fields) => {
            assert_eq!(text_of(&fields, "messaging.operation.outcome"), "failure");
        }
        _ => panic!("not recorded"),
    }
}

#[test]
fn processors_run_until_their_inbox_ends() {
    assert_eq!(processor_next(ProcessorEvent::Message), ProcessorAction::Spawn);
    assert_eq!(processor_next(ProcessorEvent::Handled), ProcessorAction::Wait);
    assert_eq!(processor_next(ProcessorEvent::Cancelled), ProcessorAction::Abort);
    assert_eq!(processor_next(ProcessorEvent::Ended), ProcessorAction::Finish);
}

#[test]
fn the_plugin_offers_messaging() {
    let plugin = InMemoryMessaging::new();
    assert_eq!(plugin.id(), "wasmcloud-messaging-memory");
    let world = plugin.world();
    assert_eq!(world.imports[0].interfaces, vec!["consumer".to_string(), "types".to_string()]);
    assert_eq!(world.exports[0].version.as_deref(), Some("0.4.0"));
}
