//! Logging for guests: what they log goes to the host's own log and to a sink.
use vstd::prelude::*;

use crate::table::Table;
use crate::wit::find_package;
use crate::wit::of_package;
use crate::wit::written_as;
use crate::wit::WitInterface;
use crate::wit::WitWorld;

verus! {

/// The id of the plugin.
pub const PLUGIN_LOGGING_ID: &'static str = "wasi-logging";

/// How serious a log event is to the guest that logs it.
#[derive(Clone, Copy, Debug, PartialEq, Eq, Structural)]
pub enum Level {
    Trace,
    Debug,
    Info,
    Warn,
    Error,
    Critical,
}

/// How serious an event is in the host's own log.
#[derive(Clone, Copy, Debug, PartialEq, Eq, Structural)]
pub enum EventLevel {
    Trace,
    Debug,
    Info,
    Warn,
    Error,
}

/// The level of an event in the host's own log, which knows nothing more serious than an error.
pub open spec fn host_level(level: Level) -> EventLevel {
    match level {
        Level::Trace => EventLevel::Trace,
        Level::Debug => EventLevel::Debug,
        Level::Info => EventLevel::Info,
        Level::Warn => EventLevel::Warn,
        Level::Error => EventLevel::Error,
        Level::Critical => EventLevel::Error,
    }
}

/// The level of an event in the host's own log.
pub fn event_level(level: Level) -> (out: EventLevel)
    ensures
        out == host_level(level),
{
    match level {
        Level::Trace => EventLevel::Trace,
        Level::Debug => EventLevel::Debug,
        Level::Info => EventLevel::Info,
        Level::Warn => EventLevel::Warn,
        Level::Error => EventLevel::Error,
        Level::Critical => EventLevel::Error,
    }
}

/// A log event emitted by a workload component.
#[derive(Debug, PartialEq, Eq)]
pub struct LogRecord {
    pub level: Level,
    pub context: String,
    pub message: String,
    pub workload_name: String,
    pub workload_namespace: String,
    pub component_id: String,
}

/// What a [`LogRecord`] holds.
pub struct LogRecordView {
    pub level: Level,
    pub context: Seq<char>,
    pub message: Seq<char>,
    pub workload_name: Seq<char>,
    pub workload_namespace: Seq<char>,
    pub component_id: Seq<char>,
}

impl View for LogRecord {
    type V = LogRecordView;

    open spec fn view(&self) -> LogRecordView {
        LogRecordView {
            level: self.level,
            context: self.context@,
            message: self.message@,
            workload_name: self.workload_name@,
            workload_namespace: self.workload_namespace@,
            component_id: self.component_id@,
        }
    }
}

impl Clone for LogRecord {
    fn clone(&self) -> (copy: Self)
        ensures
            copy@ == self@,
    {
        LogRecord {
            level: self.level,
            context: self.context.clone(),
            message: self.message.clone(),
            workload_name: self.workload_name.clone(),
            workload_namespace: self.workload_namespace.clone(),
            component_id: self.component_id.clone(),
        }
    }
}

/// A synchronous destination for component log events.
pub trait LogSink: Send + Sync + 'static {
    /// Whether the sink can take the record.
    spec fn takes(&self, record: LogRecord) -> bool;

    /// Whether the sink may have taken the record.
    spec fn took(&self, record: LogRecord) -> bool;

    fn log(&self, record: LogRecord)
        requires
            self.takes(record),
        ensures
            self.took(record),
    ;
}

impl<F> LogSink for F where F: Fn(LogRecord) + Send + Sync + 'static {
    open spec fn takes(&self, record: LogRecord) -> bool {
        call_requires(*self, (record,))
    }

    open spec fn took(&self, record: LogRecord) -> bool {
        call_ensures(*self, (record,), ())
    }

    fn log(&self, record: LogRecord) {
        self(record);
    }
}

/// What is kept of a component.
#[derive(Debug, PartialEq, Eq)]
struct ComponentInfo {
    workload_name: String,
    workload_namespace: String,
    component_id: String,
}

/// The plugin: the components that it serves, and the sink, if there is one.
pub struct TracingLogger<S> {
    components: Table<ComponentInfo>,
    sink: Option<S>,
}

/// Whose a component is.
pub struct ComponentOwner {
    pub workload_name: Seq<char>,
    pub workload_namespace: Seq<char>,
}

/// Why a guest's log event was rejected.
#[derive(Clone, Copy, Debug, PartialEq, Eq, Structural)]
pub enum LogError {
    UnknownComponent,
}

impl LogError {
    /// The words for this error.
    pub fn text(&self) -> (text: &'static str)
        ensures
            text@ == "Component not found in TracingLogger plugin"@,
    {
        "Component not found in TracingLogger plugin"
    }
}

/// Whether a workload asks for logging.
pub open spec fn wants_logging(interfaces: Seq<WitInterface>) -> bool {
    exists|i: int|
        0 <= i < interfaces.len() && of_package(
            (#[trigger] interfaces[i])@,
            "wasi"@,
            "logging"@,
        )
}

/// The components that the plugin serves, with their workloads. Where their records go is
/// [`TracingLogger::destination`].
impl<S> View for TracingLogger<S> {
    type V = Map<Seq<char>, ComponentOwner>;

    closed spec fn view(&self) -> Map<Seq<char>, ComponentOwner> {
        self.components@.map_values(
            |info: ComponentInfo|
                ComponentOwner {
                    workload_name: info.workload_name@,
                    workload_namespace: info.workload_namespace@,
                },
        )
    }
}

impl<S> TracingLogger<S> {
    /// The tables of the plugin are in order.
    pub closed spec fn wf(&self) -> bool {
        &&& self.components.wf()
        &&& forall|id: Seq<char>| #[trigger]
            self.components@.contains_key(id) ==> self.components@[id].component_id@ == id
    }

    /// Where what components log is handed to, if anywhere.
    pub closed spec fn destination(&self) -> Option<S> {
        self.sink
    }

    /// Where what components log is handed to, if anywhere.
    pub fn sink(&self) -> (sink: Option<&S>)
        ensures
            match sink {
                Some(sink) => self.destination() == Some(*sink),
                None => self.destination() is None,
            },
    {
        match &self.sink {
            Some(sink) => Some(sink),
            None => None,
        }
    }

    /// The id of the plugin.
    pub fn id(&self) -> (id: &'static str)
        ensures
            id@ == "wasi-logging"@,
    {
        PLUGIN_LOGGING_ID
    }

    /// What the plugin offers to guests.
    pub fn world(&self) -> (world: WitWorld)
        ensures
            world.imports@.len() == 1,
            written_as(world.imports@[0], "wasi:logging/logging"@),
            world.exports@.len() == 0,
    {
        let mut imports: Vec<WitInterface> = Vec::new();
        imports.push(WitInterface::parse("wasi:logging/logging"));
        WitWorld { imports, exports: Vec::new() }
    }

    /// Binds a component to the plugin, if its workload asks for logging.
    pub fn on_workload_item_bind(
        &mut self,
        interfaces: &[WitInterface],
        component_id: &str,
        workload_name: &str,
        workload_namespace: &str,
    ) -> (bound: bool)
        requires
            old(self).wf(),
        ensures
            final(self).wf(),
            final(self).destination() == old(self).destination(),
            bound == wants_logging(interfaces@),
            final(self)@ == (if bound {
                old(self)@.insert(
                    component_id@,
                    ComponentOwner {
                        workload_name: workload_name@,
                        workload_namespace: workload_namespace@,
                    },
                )
            } else {
                old(self)@
            }),
    {
        match find_package(interfaces, "wasi", "logging") {
            Some(_) => {},
            None => {
                return false;
            },
        }
        let ghost before = *self;
        let info = ComponentInfo {
            workload_name: workload_name.to_string(),
            workload_namespace: workload_namespace.to_string(),
            component_id: component_id.to_string(),
        };
        self.components.insert(component_id.to_string(), info);
        assert(self@ =~= before@.insert(
            component_id@,
            ComponentOwner {
                workload_name: workload_name@,
                workload_namespace: workload_namespace@,
            },
        ));
        true
    }

    /// The record of what a component logs, which must be bound.
    pub fn record(&self, component: &str, level: Level, context: String, message: String) -> (result:
        Result<LogRecord, LogError>)
        requires
            self.wf(),
        ensures
            match result {
                Ok(record) => {
                    &&& self@.contains_key(component@)
                    &&& record@ == (LogRecordView {
                        level,
                        context: context@,
                        message: message@,
                        workload_name: self@[component@].workload_name,
                        workload_namespace: self@[component@].workload_namespace,
                        component_id: component@,
                    })
                },
                Err(_) => !self@.contains_key(component@),
            },
    {
        match self.components.get(component) {
            Some(info) => Ok(
                LogRecord {
                    level,
                    context,
                    message,
                    workload_name: info.workload_name.clone(),
                    workload_namespace: info.workload_namespace.clone(),
                    component_id: info.component_id.clone(),
                },
            ),
            None => Err(LogError::UnknownComponent),
        }
    }
}

impl<S: LogSink> TracingLogger<S> {
    /// A plugin that serves no components and hands what they log to a sink.
    pub fn with_sink(sink: S) -> (logger: Self)
        ensures
            logger.wf(),
            logger@ == Map::<Seq<char>, ComponentOwner>::empty(),
            logger.destination() == Some(sink),
    {
        let logger = TracingLogger { components: Table::new(), sink: Some(sink) };
        assert(logger@ =~= Map::<Seq<char>, ComponentOwner>::empty());
        logger
    }

    /// Hands a record to the sink as it is, if there is one.
    pub fn deliver(&self, record: LogRecord) -> (delivered: bool)
        requires
            self.destination() matches Some(sink) ==> sink.takes(record),
        ensures
            delivered == self.destination() is Some,
            self.destination() matches Some(sink) ==> sink.took(record),
    {
        match &self.sink {
            Some(sink) => {
                sink.log(record);
                true
            },
            None => false,
        }
    }
}

impl<S> Default for TracingLogger<S> {
    fn default() -> (logger: Self)
        ensures
            logger.wf(),
            logger@ == Map::<Seq<char>, ComponentOwner>::empty(),
            logger.destination() is None,
    {
        let logger = TracingLogger { components: Table::new(), sink: None };
        assert(logger@ =~= Map::<Seq<char>, ComponentOwner>::empty());
        logger
    }
}

/// How serious a level is to a guest, from the least up.
pub open spec fn level_rank(level: Level) -> int {
    match level {
        Level::Trace => 0,
        Level::Debug => 1,
        Level::Info => 2,
        Level::Warn => 3,
        Level::Error => 4,
        Level::Critical => 5,
    }
}

/// How serious a level is in the host's own log, from the least up.
pub open spec fn event_rank(level: EventLevel) -> int {
    match level {
        EventLevel::Trace => 0,
        EventLevel::Debug => 1,
        EventLevel::Info => 2,
        EventLevel::Warn => 3,
        EventLevel::Error => 4,
    }
}

/// An event is as serious in the host's own log as it is to the guest, up to an error; so of two
/// events the more serious one stays the more serious one, or both are errors.
pub proof fn law_levels_keep_their_order(a: Level, b: Level)
    ensures
        event_rank(host_level(a)) == (if level_rank(a) < 4 {
            level_rank(a)
        } else {
            4
        }),
        level_rank(a) < level_rank(b) ==> event_rank(host_level(a)) < event_rank(host_level(b)) || (
        host_level(a) == EventLevel::Error && host_level(b) == EventLevel::Error),
{
}

/// A workload asks for logging exactly where one of its interfaces is of the package
/// `wasi:logging`.
pub proof fn law_logging_is_asked_for_by_package(interfaces: Seq<WitInterface>)
    ensures
        wants_logging(interfaces) == exists|i: int|
            0 <= i < interfaces.len() && (#[trigger] interfaces[i])@.namespace == "wasi"@
                && interfaces[i]@.package == "logging"@,
{
    assert forall|i: int| 0 <= i < interfaces.len() implies of_package(
        (#[trigger] interfaces[i])@,
        "wasi"@,
        "logging"@,
    ) == (interfaces[i]@.namespace == "wasi"@ && interfaces[i]@.package == "logging"@) by {}
}

} // verus!
