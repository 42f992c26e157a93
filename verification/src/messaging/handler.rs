//! Guests that handle messages.
use vstd::prelude::*;

use crate::wit::some_covers;
use crate::wit::written_as;
use crate::wit::InterfaceNames;
use crate::wit::WitInterface;
use crate::wit::WitWorld;

verus! {

/// The id of the plugin that delivers messages within the host.
pub const PLUGIN_MESSAGING_MEMORY_ID: &'static str = "wasmcloud-messaging-memory";

/// The id of the plugin that delivers messages through NATS.
pub const PLUGIN_MESSAGING_ID: &'static str = "wasmcloud-messaging";

/// What messaging offers to guests: they import the consumer and export the handler.
pub fn messaging_world() -> (world: WitWorld)
    ensures
        world.imports@.len() == 1,
        written_as(world.imports@[0], "wasmcloud:messaging/consumer,types@0.4.0"@),
        world.exports@.len() == 1,
        written_as(world.exports@[0], "wasmcloud:messaging/handler@0.4.0"@),
{
    let mut imports: Vec<WitInterface> = Vec::new();
    imports.push(WitInterface::parse("wasmcloud:messaging/consumer,types@0.4.0"));
    let mut exports: Vec<WitInterface> = Vec::new();
    exports.push(WitInterface::parse("wasmcloud:messaging/handler@0.4.0"));
    WitWorld { imports, exports }
}

/// The handler interface of messaging, at no particular version.
pub open spec fn handler_names() -> InterfaceNames {
    InterfaceNames {
        namespace: "wasmcloud"@,
        package: "messaging"@,
        interfaces: seq!["handler"@],
        version: None,
    }
}

/// The text of the handler interface names it.
proof fn lemma_handler_names()
    ensures
        crate::wit::interface_names("wasmcloud:messaging/handler"@) == handler_names(),
{
    let text = "wasmcloud:messaging/handler"@;
    reveal_strlit("wasmcloud:messaging/handler");
    reveal_strlit("wasmcloud");
    reveal_strlit("messaging");
    reveal_strlit("handler");
    crate::text::lemma_first_position_is(text, '@', 27);
    crate::text::lemma_first_position_is(text, '/', 19);
    let path = text.take(19);
    let list = text.skip(20);
    crate::text::lemma_first_position_is(path, ':', 9);
    assert(path.take(9) =~= "wasmcloud"@);
    assert(path.skip(10) =~= "messaging"@);
    assert(list =~= "handler"@);
    crate::text::law_join_then_split(seq!["handler"@], ',');
    assert(crate::text::join_with(seq!["handler"@], ',') == "handler"@);
}

/// Whether a guest exports the handler interface of messaging, at whatever version.
pub fn exports_messaging_handler(world: &WitWorld) -> (yes: bool)
    ensures
        yes == some_covers(world.exports@, handler_names()),
{
    let handler = WitInterface::parse("wasmcloud:messaging/handler");
    proof {
        lemma_handler_names();
    }
    let n: usize = world.exports.len();
    for i in 0..n
        invariant
            n == world.exports@.len(),
            handler@ == handler_names(),
            forall|j: int|
                0 <= j < i ==> !crate::wit::covers((#[trigger] world.exports@[j])@, handler_names()),
    {
        if world.exports[i].contains(&handler) {
            assert(crate::wit::covers(world.exports@[i as int]@, handler_names()));
            return true;
        }
    }
    false
}

/// The version at which a handler is exported makes no difference to whether it is one.
pub proof fn law_handler_of_any_version(export: InterfaceNames, version: Option<Seq<char>>)
    ensures
        crate::wit::covers(export, handler_names()) == crate::wit::covers(
            InterfaceNames { version, ..export },
            handler_names(),
        ),
{
}

/// A guest without exports is no handler, whatever it imports.
pub proof fn law_importing_is_not_exporting(world: WitWorld)
    requires
        world.exports@.len() == 0,
    ensures
        !some_covers(world.exports@, handler_names()),
{
}

/// A guest exports the handler exactly where some package that it exports is the messaging package
/// of the host and has an interface of that name.
pub proof fn law_handlers_export_the_interface(world: WitWorld)
    ensures
        some_covers(world.exports@, handler_names()) == exists|i: int|
            0 <= i < world.exports@.len() && (#[trigger] world.exports@[i])@.namespace
                == "wasmcloud"@ && world.exports@[i]@.package == "messaging"@
                && world.exports@[i]@.interfaces.contains("handler"@),
{
    let names = handler_names();
    assert(names.interfaces[0] == "handler"@);
    assert forall|i: int| 0 <= i < world.exports@.len() implies crate::wit::covers(
        (#[trigger] world.exports@[i])@,
        names,
    ) == (world.exports@[i]@.namespace == "wasmcloud"@ && world.exports@[i]@.package
        == "messaging"@ && world.exports@[i]@.interfaces.contains("handler"@)) by {}
}

} // verus!
