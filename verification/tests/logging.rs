use std::sync::{Arc, Mutex};

use wash_messaging::logging::{
    event_level, EventLevel, Level, LogError, LogRecord, LogSink, TracingLogger,
};
use wash_messaging::wit::WitInterface;

#[test]
fn sink_receives_original_record_without_a_subscriber() {
    let records = Arc::new(Mutex::new(Vec::new()));
    let captured = Arc::clone(&records);
    let logger = TracingLogger::with_sink(move |record: LogRecord| {
        if let Ok(mut records) = captured.lock() {
            records.push(record);
        }
    });
    let record = LogRecord {
        level: Level::Warn,
        context: "request-42".to_string(),
        message: "careful".to_string(),
        workload_name: "worker".to_string(),
        workload_namespace: "default".to_string(),
        component_id: "logger".to_string(),
    };
    if let Some(sink) = logger.sink() {
        sink.log(record);
    }

    let records = records.lock().unwrap_or_else(|error| error.into_inner());
    assert_eq!(records.len(), 1);
    assert!(matches!(records[0].level, Level::Warn));
    assert_eq!(records[0].context, "request-42");
    assert_eq!(records[0].message, "careful");
    assert_eq!(records[0].workload_name, "worker");
    assert_eq!(records[0].workload_namespace, "default");
    assert_eq!(records[0].component_id, "logger");
}

#[test]
fn bound_components_log_under_their_names() {
    let records = Arc::new(Mutex::new(Vec::new()));
    let captured = Arc::clone(&records);
    let mut logger = TracingLogger::with_sink(move |record: LogRecord| {
        captured.lock().unwrap().push(record);
    });
    let logging = vec![WitInterface::parse("wasi:logging/logging")];
    assert!(logger.on_workload_item_bind(&logging, "c", "worker", "default"));
    let record = logger
        .record("c", Level::Critical, "ctx".to_string(), "boom".to_string())
        .unwrap();
    assert_eq!(record.workload_name, "worker");
    assert_eq!(record.component_id, "c");
    assert!(logger.deliver(record.clone()));
    assert_eq!(*records.lock().unwrap(), vec![record]);
}

#[test]
fn unknown_components_cannot_log() {
    let mut logger: TracingLogger<fn(LogRecord)> = TracingLogger::default();
    let http = vec![WitInterface::parse("wasi:http/handler")];
    assert!(!logger.on_workload_item_bind(&http, "c", "worker", "default"));
    let error = logger.record("c", Level::Info, String::new(), String::new()).unwrap_err();
    assert_eq!(error, LogError::UnknownComponent);
    assert_eq!(error.text(), "Component not found in TracingLogger plugin");
    assert!(logger.sink().is_none());
}

#[test]
fn critical_events_are_errors_to_the_host() {
    assert_eq!(event_level(Level::Critical), EventLevel::Error);
    assert_eq!(event_level(Level::Error), EventLevel::Error);
    assert_eq!(event_level(Level::Warn), EventLevel::Warn);
    assert_eq!(event_level(Level::Info), EventLevel::Info);
    assert_eq!(event_level(Level::Debug), EventLevel::Debug);
    assert_eq!(event_level(Level::Trace), EventLevel::Trace);
}

#[test]
fn the_plugin_offers_logging() {
    let logger: TracingLogger<fn(LogRecord)> = TracingLogger::default();
    assert_eq!(logger.id(), "wasi-logging");
    let world = logger.world();
    assert_eq!(world.imports[0].package, "logging");
    assert!(world.exports.is_empty());
}
