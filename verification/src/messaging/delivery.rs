//! From a received message to the guest that handles it.
use vstd::prelude::*;

use crate::messaging::report::failure_fields;
use crate::messaging::report::fields;
use crate::messaging::report::record_messaging_error;
use crate::messaging::report::record_success;
use crate::messaging::report::success_fields;
use crate::messaging::report::SpanField;
use crate::messaging::report::SpanFieldView;

verus! {

/// How a guest took a message.
pub enum Handling {
    Handled,
    Rejected(String),
    Failed(String),
}

/// What happened to a message that is being delivered.
pub enum DeliveryEvent {
    /// It was received.
    Received,
    /// Whether the workload runs a service that takes messages.
    Service(bool),
    /// The service answered.
    Served(Handling),
    /// A store was opened, or why not.
    Store(Option<String>),
    /// The component was instantiated, or why not.
    Instance(Option<String>),
    /// The instance answered.
    Answered(Handling),
}

/// What is to be done with a message that is being delivered.
pub enum DeliveryAction {
    /// Find out whether the workload runs a service that takes messages.
    AskForService,
    /// Hand the message to the service.
    Serve,
    /// Open a store for a new instance of the component.
    OpenStore,
    /// Instantiate the component.
    Instantiate,
    /// Hand the message to the instance.
    Handle,
    /// There is nobody to handle the message: drop it.
    Drop,
    /// The delivery is over: record its outcome.
    Record(Vec<SpanField>),
}

/// What a [`DeliveryAction`] says.
pub enum DeliveryActionView {
    AskForService,
    Serve,
    OpenStore,
    Instantiate,
    Handle,
    Drop,
    Record(Seq<SpanFieldView>),
}

impl View for DeliveryAction {
    type V = DeliveryActionView;

    open spec fn view(&self) -> DeliveryActionView {
        match self {
            DeliveryAction::AskForService => DeliveryActionView::AskForService,
            DeliveryAction::Serve => DeliveryActionView::Serve,
            DeliveryAction::OpenStore => DeliveryActionView::OpenStore,
            DeliveryAction::Instantiate => DeliveryActionView::Instantiate,
            DeliveryAction::Handle => DeliveryActionView::Handle,
            DeliveryAction::Drop => DeliveryActionView::Drop,
            DeliveryAction::Record(list) => DeliveryActionView::Record(fields(list@)),
        }
    }
}

/// The action that records a failure.
pub open spec fn failed(slug: Seq<char>, message: Seq<char>) -> DeliveryActionView {
    DeliveryActionView::Record(failure_fields(slug, message))
}

/// What is done next. A service that runs gets the message rather than a new instance of the
/// component; where neither is to be had, the message is dropped. Each way in which the delivery
/// can fail is recorded under its own slug.
pub open spec fn delivery_step(event: DeliveryEvent, instantiable: bool) -> DeliveryActionView {
    match event {
        DeliveryEvent::Received => DeliveryActionView::AskForService,
        DeliveryEvent::Service(runs) => if runs {
            DeliveryActionView::Serve
        } else if instantiable {
            DeliveryActionView::OpenStore
        } else {
            DeliveryActionView::Drop
        },
        DeliveryEvent::Served(Handling::Handled) => DeliveryActionView::Record(success_fields()),
        DeliveryEvent::Served(Handling::Rejected(error)) => failed(
            "messaging-handler-rejected"@,
            error@,
        ),
        DeliveryEvent::Served(Handling::Failed(error)) => failed(
            "messaging-consumer-delivery-failed"@,
            error@,
        ),
        DeliveryEvent::Store(None) => DeliveryActionView::Instantiate,
        DeliveryEvent::Store(Some(error)) => failed("messaging-consumer-setup-failed"@, error@),
        DeliveryEvent::Instance(None) => DeliveryActionView::Handle,
        DeliveryEvent::Instance(Some(error)) => failed("messaging-consumer-setup-failed"@, error@),
        DeliveryEvent::Answered(Handling::Handled) => DeliveryActionView::Record(success_fields()),
        DeliveryEvent::Answered(Handling::Rejected(error)) => failed(
            "messaging-handler-rejected"@,
            error@,
        ),
        DeliveryEvent::Answered(Handling::Failed(error)) => failed(
            "messaging-handler-rejected"@,
            error@,
        ),
    }
}

/// What is done next with a message that is being delivered. The component can be instantiated
/// per message or not: a service that lives long cannot.
pub fn deliver_next(event: DeliveryEvent, instantiable: bool) -> (action: DeliveryAction)
    ensures
        action@ == delivery_step(event, instantiable),
{
    match event {
        DeliveryEvent::Received => DeliveryAction::AskForService,
        DeliveryEvent::Service(runs) => {
            if runs {
                DeliveryAction::Serve
            } else if instantiable {
                DeliveryAction::OpenStore
            } else {
                DeliveryAction::Drop
            }
        },
        DeliveryEvent::Served(Handling::Handled) => DeliveryAction::Record(record_success()),
        DeliveryEvent::Served(Handling::Rejected(error)) => DeliveryAction::Record(
            record_messaging_error("messaging-handler-rejected", error.as_str()),
        ),
        DeliveryEvent::Served(Handling::Failed(error)) => DeliveryAction::Record(
            record_messaging_error("messaging-consumer-delivery-failed", error.as_str()),
        ),
        DeliveryEvent::Store(None) => DeliveryAction::Instantiate,
        DeliveryEvent::Store(Some(error)) => DeliveryAction::Record(
            record_messaging_error("messaging-consumer-setup-failed", error.as_str()),
        ),
        DeliveryEvent::Instance(None) => DeliveryAction::Handle,
        DeliveryEvent::Instance(Some(error)) => DeliveryAction::Record(
            record_messaging_error("messaging-consumer-setup-failed", error.as_str()),
        ),
        DeliveryEvent::Answered(Handling::Handled) => DeliveryAction::Record(record_success()),
        DeliveryEvent::Answered(Handling::Rejected(error)) => DeliveryAction::Record(
            record_messaging_error("messaging-handler-rejected", error.as_str()),
        ),
        DeliveryEvent::Answered(Handling::Failed(error)) => DeliveryAction::Record(
            record_messaging_error("messaging-handler-rejected", error.as_str()),
        ),
    }
}

/// What happened in the loop that processes a component's messages.
#[derive(Clone, Copy, Debug, PartialEq, Eq, Structural)]
pub enum ProcessorEvent {
    /// The component is to stop.
    Cancelled,
    /// A message was handled.
    Handled,
    /// A message came.
    Message,
    /// No more messages will come.
    Ended,
}

/// What the loop does next.
#[derive(Clone, Copy, Debug, PartialEq, Eq, Structural)]
pub enum ProcessorAction {
    /// Wait for the next event.
    Wait,
    /// Handle the message beside those that are being handled, and wait for the next event.
    Spawn,
    /// Break off what is being handled, and stop.
    Abort,
    /// Let what is being handled finish, and stop.
    Finish,
}

/// What the loop that processes a component's messages does next: messages are handled side by
/// side; a component that is to stop breaks off what it handles, and one that gets no more
/// messages finishes it.
pub fn processor_next(event: ProcessorEvent) -> (action: ProcessorAction)
    ensures
        action == (match event {
            ProcessorEvent::Cancelled => ProcessorAction::Abort,
            ProcessorEvent::Handled => ProcessorAction::Wait,
            ProcessorEvent::Message => ProcessorAction::Spawn,
            ProcessorEvent::Ended => ProcessorAction::Finish,
        }),
{
    match event {
        ProcessorEvent::Cancelled => ProcessorAction::Abort,
        ProcessorEvent::Handled => ProcessorAction::Wait,
        ProcessorEvent::Message => ProcessorAction::Spawn,
        ProcessorEvent::Ended => ProcessorAction::Finish,
    }
}

/// A service that runs gets the message whether or not the component could be instantiated, and
/// without one the message goes to a new instance where there can be one, else to nobody.
pub proof fn law_services_come_first(instantiable: bool)
    ensures
        delivery_step(DeliveryEvent::Service(true), instantiable) is Serve,
        delivery_step(DeliveryEvent::Service(false), instantiable) is OpenStore == instantiable,
        delivery_step(DeliveryEvent::Service(false), instantiable) is Drop == !instantiable,
{
}

/// A delivery ends with what the guest answers, and only a message that the guest handled counts as
/// a success: one that it rejected, or on which it failed, is recorded as a failure, in its words.
pub proof fn law_answers_end_deliveries(handling: Handling, instantiable: bool)
    ensures
        delivery_step(DeliveryEvent::Served(handling), instantiable) is Record,
        delivery_step(DeliveryEvent::Answered(handling), instantiable) is Record,
        match handling {
            Handling::Handled => {
                &&& delivery_step(DeliveryEvent::Served(handling), instantiable)
                    == DeliveryActionView::Record(success_fields())
                &&& delivery_step(DeliveryEvent::Answered(handling), instantiable)
                    == DeliveryActionView::Record(success_fields())
            },
            Handling::Rejected(error) => {
                &&& delivery_step(DeliveryEvent::Served(handling), instantiable) == failed(
                    "messaging-handler-rejected"@,
                    error@,
                )
                &&& delivery_step(DeliveryEvent::Answered(handling), instantiable) == failed(
                    "messaging-handler-rejected"@,
                    error@,
                )
            },
            Handling::Failed(error) => {
                &&& delivery_step(DeliveryEvent::Served(handling), instantiable) == failed(
                    "messaging-consumer-delivery-failed"@,
                    error@,
                )
                &&& delivery_step(DeliveryEvent::Answered(handling), instantiable) == failed(
                    "messaging-handler-rejected"@,
                    error@,
                )
            },
        },
{
}

/// A delivery begins by asking for a service. A new instance is opened, instantiated and then given
/// the message, step by step; a step that fails ends the delivery, and is recorded as a failed
/// setup, in the words of the failure.
pub proof fn law_deliveries_go_step_by_step(error: String, instantiable: bool)
    ensures
        delivery_step(DeliveryEvent::Received, instantiable) is AskForService,
        delivery_step(DeliveryEvent::Store(None), instantiable) is Instantiate,
        delivery_step(DeliveryEvent::Instance(None), instantiable) is Handle,
        delivery_step(DeliveryEvent::Store(Some(error)), instantiable)
            == DeliveryActionView::Record(
            failure_fields("messaging-consumer-setup-failed"@, error@),
        ),
        delivery_step(DeliveryEvent::Instance(Some(error)), instantiable)
            == DeliveryActionView::Record(
            failure_fields("messaging-consumer-setup-failed"@, error@),
        ),
{
}

/// A delivery that failed is recorded with the words of the failure, under the slug.
pub proof fn law_failed_deliveries_are_recorded(slug: Seq<char>, message: Seq<char>)
    ensures
        failed(slug, message) == DeliveryActionView::Record(failure_fields(slug, message)),
{
}

/// Messages are handled side by side; a component that is to stop breaks off what it handles, and
/// one that gets no more messages finishes it.
pub proof fn law_processors_stop_when_told(event: ProcessorEvent, action: ProcessorAction)
    requires
        call_ensures(processor_next, (event,), action),
    ensures
        event == ProcessorEvent::Cancelled <==> action == ProcessorAction::Abort,
        event == ProcessorEvent::Handled <==> action == ProcessorAction::Wait,
        event == ProcessorEvent::Message <==> action == ProcessorAction::Spawn,
        event == ProcessorEvent::Ended <==> action == ProcessorAction::Finish,
{
}

} // verus!
