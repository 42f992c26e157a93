//! A host's handle on one workload of the in-process broker.
use vstd::prelude::*;

use crate::messaging::in_memory::broker::is_inbox;
use crate::messaging::in_memory::broker::request_number;
use crate::messaging::in_memory::broker::InMemoryMessaging;
use crate::messaging::in_memory::broker::ObservationReceiver;
use crate::messaging::in_memory::broker::ResponderReceiver;
use crate::messaging::in_memory::model::admission;
use crate::messaging::in_memory::model::at_least_one;
use crate::messaging::in_memory::model::closing;
use crate::messaging::in_memory::model::idle;
use crate::messaging::in_memory::model::listening;
use crate::messaging::in_memory::model::publishing;
use crate::messaging::in_memory::model::requesting;
use crate::messaging::in_memory::model::started;
use crate::messaging::in_memory::model::Lifecycle;
use crate::messaging::message::HostMessage;
use crate::messaging::message::MessageOrigin;
use crate::messaging::message::MessagingError;
use crate::messaging::queue::RequestTicket;

verus! {

/// Drives one workload: what it sends counts as injected by the host.
#[derive(Debug, PartialEq, Eq)]
pub struct InMemoryMessagingDriver {
    pub workload_id: String,
}

impl Clone for InMemoryMessagingDriver {
    fn clone(&self) -> (copy: Self)
        ensures
            copy.workload_id@ == self.workload_id@,
    {
        InMemoryMessagingDriver { workload_id: self.workload_id.clone() }
    }
}

impl InMemoryMessaging {
    /// Reserves a workload before it is bound, and hands out a driver for it.
    pub fn reserve_workload(&mut self, workload_id: String) -> (result: Result<
        InMemoryMessagingDriver,
        MessagingError,
    >)
        requires
            old(self).wf(),
        ensures
            final(self).wf(),
            match result {
                Ok(driver) => {
                    &&& !old(self)@.workloads.contains_key(workload_id@)
                    &&& driver.workload_id@ == workload_id@
                    &&& final(self)@ == started(old(self)@, workload_id@, Lifecycle::Reserved)
                },
                Err(error) => {
                    &&& old(self)@.workloads.contains_key(workload_id@)
                    &&& error == MessagingError::AlreadyReserved
                    &&& final(self)@ == old(self)@
                },
            },
    {
        let driver = InMemoryMessagingDriver { workload_id: workload_id.clone() };
        match self.reserve(workload_id) {
            Ok(()) => Ok(driver),
            Err(error) => Err(error),
        }
    }

    /// A driver for a workload, whether or not the broker serves it.
    pub fn driver(&self, workload_id: String) -> (driver: InMemoryMessagingDriver)
        ensures
            driver.workload_id@ == workload_id@,
    {
        InMemoryMessagingDriver { workload_id }
    }
}

impl InMemoryMessagingDriver {
    /// Observes what the guests of the workload send.
    pub fn observe(&self, broker: &mut InMemoryMessaging, capacity: usize) -> (result: Result<
        ObservationReceiver,
        MessagingError,
    >)
        requires
            old(broker).wf(),
            capacity <= usize::MAX / 8,
        ensures
            final(broker).wf(),
            match admission(old(broker)@, self.workload_id@) {
                Ok(_) => {
                    &&& result matches Ok(receiver) && receiver.id == old(broker)@.next
                    &&& final(broker)@ == listening(
                        old(broker)@,
                        self.workload_id@,
                        None,
                        at_least_one(capacity),
                    )
                },
                Err(error) => {
                    &&& result matches Err(e) && e == error
                    &&& final(broker)@ == old(broker)@
                },
            },
    {
        broker.observe(self.workload_id.as_str(), capacity)
    }

    /// Responds to the requests of the guests of the workload that match `subject`.
    pub fn register_responder(
        &self,
        broker: &mut InMemoryMessaging,
        subject: String,
        capacity: usize,
    ) -> (result: Result<ResponderReceiver, MessagingError>)
        requires
            old(broker).wf(),
            capacity <= usize::MAX / 8,
        ensures
            final(broker).wf(),
            match admission(old(broker)@, self.workload_id@) {
                Ok(_) => {
                    &&& result matches Ok(receiver) && receiver.id == old(broker)@.next
                    &&& final(broker)@ == listening(
                        old(broker)@,
                        self.workload_id@,
                        Some(subject@),
                        at_least_one(capacity),
                    )
                },
                Err(error) => {
                    &&& result matches Err(e) && e == error
                    &&& final(broker)@ == old(broker)@
                },
            },
    {
        broker.register_responder(self.workload_id.as_str(), subject, capacity)
    }

    /// Publishes a message in the workload.
    pub fn publish(&self, broker: &mut InMemoryMessaging, message: HostMessage) -> (result: Result<
        (),
        MessagingError,
    >)
        requires
            old(broker).wf(),
        ensures
            final(broker).wf(),
            publishing(
                old(broker)@,
                final(broker)@,
                self.workload_id@,
                message@,
                MessageOrigin::HostInjected,
                result,
            ),
    {
        broker.publish_core(self.workload_id.as_str(), message, MessageOrigin::HostInjected)
    }

    /// Starts a request in the workload.
    pub fn request(&self, broker: &mut InMemoryMessaging, message: HostMessage) -> (result: Result<
        RequestTicket,
        MessagingError,
    >)
        requires
            old(broker).wf(),
        ensures
            final(broker).wf(),
            exists|inbox: Seq<char>| #[trigger]
                is_inbox(inbox) && requesting(
                    old(broker)@,
                    final(broker)@,
                    self.workload_id@,
                    message@,
                    MessageOrigin::HostInjected,
                    inbox,
                    request_number(result),
                ) && (result matches Ok(ticket) ==> ticket@.workload == self.workload_id@
                    && ticket@.inbox == inbox),
    {
        broker.request(self.workload_id.as_str(), message, MessageOrigin::HostInjected)
    }

    /// Whether nothing goes on in the workload.
    pub fn is_idle(&self, broker: &InMemoryMessaging) -> (result: Result<bool, MessagingError>)
        requires
            broker.wf(),
        ensures
            match admission(broker@, self.workload_id@) {
                Ok(data) => result == Ok::<bool, MessagingError>(
                    idle(broker@, self.workload_id@, data),
                ),
                Err(error) => result == Err::<bool, MessagingError>(error),
            },
    {
        broker.is_idle(self.workload_id.as_str())
    }

    /// Closes the workload.
    pub fn close(&self, broker: &mut InMemoryMessaging) -> (result: Result<(), MessagingError>)
        requires
            old(broker).wf(),
        ensures
            final(broker).wf(),
            (result, final(broker)@) == closing(old(broker)@, self.workload_id@),
    {
        broker.close_workload(self.workload_id.as_str())
    }
}

} // verus!
