//! NATS as one of several messaging backends.
use vstd::prelude::*;

use crate::messaging::message::TraceContext;
use crate::propagation::PropagationContext;
use crate::table::Table;
use crate::text::optional_text;

verus! {

/// Provides messaging backends that talk to a NATS server.
#[derive(Default)]
pub struct NatsMsgProvider;

/// A caller's trace context as the context that is propagated.
pub fn parent_context(value: TraceContext) -> (context: PropagationContext)
    ensures
        context@ == value@,
{
    PropagationContext { traceparent: value.traceparent, tracestate: value.tracestate }
}

/// The server that a configuration names.
pub open spec fn configured_url(config: Map<Seq<char>, String>) -> Option<Seq<char>> {
    if config.contains_key("url"@) {
        Some(config["url"@]@)
    } else {
        None
    }
}

impl NatsMsgProvider {
    /// What backends share a connection by: the server that they talk to.
    pub fn pool_key(&self, config: &Table<String>) -> (key: Option<String>)
        ensures
            optional_text(key) == configured_url(config@),
    {
        match config.get("url") {
            Some(url) => Some(url.clone()),
            None => None,
        }
    }

    /// The kind of backend.
    pub fn backend_type(&self) -> (kind: &'static str)
        ensures
            kind@ == "nats"@,
    {
        "nats"
    }

    /// The server to connect to, which the configuration must name.
    pub fn server(&self, config: &Table<String>) -> (url: Result<String, &'static str>)
        ensures
            match configured_url(config@) {
                Some(text) => url matches Ok(url) && url@ == text,
                None => url matches Err(error) && error@
                    == "nats messaging backend requires a 'url' config"@,
            },
    {
        match self.pool_key(config) {
            Some(url) => Ok(url),
            None => Err("nats messaging backend requires a 'url' config"),
        }
    }
}

/// A configuration names the server under `url`, whatever else it holds.
pub proof fn law_servers_are_named_under_url(
    config: Map<Seq<char>, String>,
    url: String,
    other: Seq<char>,
    value: String,
)
    requires
        other != "url"@,
    ensures
        configured_url(config.insert("url"@, url)) == Some(url@),
        configured_url(config.remove("url"@)) is None,
        configured_url(config.insert(other, value)) == configured_url(config),
{
}

} // verus!
