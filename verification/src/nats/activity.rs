//! Completion accounting for NATS deliveries, queued work included.
use vstd::prelude::*;

verus! {

/// What is known of the deliveries of a plugin.
#[derive(Debug, PartialEq, Eq)]
pub struct Activity {
    pending: u64,
    generation: u64,
    readers: u64,
}

/// What an [`Activity`] holds.
#[verifier::ext_equal]
pub struct ActivityView {
    /// How many deliveries are queued or being handled.
    pub pending: nat,
    /// How often a delivery began or ended, from zero again after the largest number.
    pub generation: u64,
    /// How many readers of subscriptions there are.
    pub readers: nat,
}

impl View for Activity {
    type V = ActivityView;

    closed spec fn view(&self) -> ActivityView {
        ActivityView {
            pending: self.pending as nat,
            generation: self.generation,
            readers: self.readers as nat,
        }
    }
}

/// A delivery that is queued or being handled.
#[derive(Debug, PartialEq, Eq)]
pub struct Delivery {
    /// The generation that it began.
    pub generation: u64,
}

/// The generation after another.
pub open spec fn next_generation(generation: u64) -> u64 {
    if generation == u64::MAX {
        0
    } else {
        (generation + 1) as u64
    }
}

/// What is known once a delivery began.
pub open spec fn begun(activity: ActivityView) -> ActivityView {
    ActivityView {
        pending: activity.pending + 1,
        generation: next_generation(activity.generation),
        ..activity
    }
}

/// What is known once a delivery ended.
pub open spec fn ended(activity: ActivityView) -> ActivityView {
    ActivityView {
        pending: (activity.pending - 1) as nat,
        generation: next_generation(activity.generation),
        ..activity
    }
}

impl Activity {
    /// No deliveries and no readers.
    pub fn new() -> (activity: Activity)
        ensures
            activity@ == (ActivityView { pending: 0, generation: 0, readers: 0 }),
    {
        Activity { pending: 0, generation: 0, readers: 0 }
    }

    fn advance(generation: u64) -> (next: u64)
        ensures
            next == next_generation(generation),
    {
        if generation == u64::MAX {
            0
        } else {
            generation + 1
        }
    }

    /// Notes that a delivery began.
    pub fn begin(&mut self) -> (delivery: Delivery)
        requires
            old(self)@.pending < u64::MAX,
        ensures
            final(self)@ == begun(old(self)@),
            delivery.generation == final(self)@.generation,
    {
        self.pending = self.pending + 1;
        self.generation = Self::advance(self.generation);
        Delivery { generation: self.generation }
    }

    /// Notes that a delivery ended.
    pub fn finish(&mut self, delivery: Delivery)
        requires
            old(self)@.pending > 0,
        ensures
            final(self)@ == ended(old(self)@),
    {
        self.pending = self.pending - 1;
        self.generation = Self::advance(self.generation);
    }

    /// How many deliveries are queued or being handled.
    pub fn pending(&self) -> (n: u64)
        ensures
            n == self@.pending,
    {
        self.pending
    }

    /// The generation, which every beginning and every end of a delivery changes.
    pub fn generation(&self) -> (generation: u64)
        ensures
            generation == self@.generation,
    {
        self.generation
    }

    /// Registers a reader of a subscription, and gives it its number.
    pub fn reader(&mut self) -> (number: u64)
        requires
            old(self)@.readers < u64::MAX,
        ensures
            number == old(self)@.readers,
            final(self)@ == (ActivityView { readers: old(self)@.readers + 1, ..old(self)@ }),
    {
        let number: u64 = self.readers;
        self.readers = number + 1;
        number
    }

    /// Begins to wait until all that was received before is handled.
    pub fn fence(&self) -> (fence: Fence)
        ensures
            fence@ == (FenceView { readers: self@.readers, passed: 0 }),
    {
        Fence { readers: self.readers, passed: 0 }
    }
}

impl Default for Activity {
    fn default() -> (activity: Activity)
        ensures
            activity@ == (ActivityView { pending: 0, generation: 0, readers: 0 }),
    {
        Activity::new()
    }
}

/// How far a wait has come: each reader that there was at its beginning must pass the fence, by
/// which it has handed on all that it had received.
#[derive(Debug, PartialEq, Eq)]
pub struct Fence {
    readers: u64,
    passed: u64,
}

/// What a [`Fence`] holds.
#[verifier::ext_equal]
pub struct FenceView {
    pub readers: nat,
    pub passed: nat,
}

impl View for Fence {
    type V = FenceView;

    closed spec fn view(&self) -> FenceView {
        FenceView { readers: self.readers as nat, passed: self.passed as nat }
    }
}

/// What happened during a wait.
#[derive(Clone, Copy, Debug, PartialEq, Eq, Structural)]
pub enum FenceEvent {
    /// It began, or a delivery began or ended.
    Changed,
    /// The reader that was asked passed the fence.
    Passed,
    /// The reader that is to be asked has stopped.
    Stopped,
    /// The reader that was asked went away without passing the fence.
    Cancelled,
}

/// What is done next during a wait.
#[derive(Clone, Copy, Debug, PartialEq, Eq, Structural)]
pub enum FenceAction {
    /// Ask the reader with this number to pass the fence.
    Ask(u64),
    /// Wait until a delivery ends.
    Wait,
    /// All is handled.
    Done,
    /// It cannot be known whether all is handled.
    Fail(FenceError),
}

/// Why a wait failed.
#[derive(Clone, Copy, Debug, PartialEq, Eq, Structural)]
pub enum FenceError {
    ReaderStopped,
    Cancelled,
}

impl FenceError {
    /// The words for this error.
    pub fn text(&self) -> (text: &'static str)
        ensures
            text@ == (match self {
                FenceError::ReaderStopped => "NATS subscription reader stopped"@,
                FenceError::Cancelled => "NATS subscription fence cancelled"@,
            }),
    {
        match self {
            FenceError::ReaderStopped => "NATS subscription reader stopped",
            FenceError::Cancelled => "NATS subscription fence cancelled",
        }
    }
}

/// A wait after an event.
pub open spec fn fence_after(fence: FenceView, event: FenceEvent) -> FenceView {
    if event == FenceEvent::Passed && fence.passed < fence.readers {
        FenceView { passed: fence.passed + 1, ..fence }
    } else {
        fence
    }
}

/// What is done next: the readers are asked one after the other, and then the deliveries that are
/// left are waited for. A reader that went away fails the wait, whatever is pending.
pub open spec fn fence_step(
    activity: ActivityView,
    fence: FenceView,
    event: FenceEvent,
) -> FenceAction {
    let after = fence_after(fence, event);
    if event == FenceEvent::Stopped {
        FenceAction::Fail(FenceError::ReaderStopped)
    } else if event == FenceEvent::Cancelled {
        FenceAction::Fail(FenceError::Cancelled)
    } else if after.passed < after.readers {
        FenceAction::Ask(after.passed as u64)
    } else if activity.pending == 0 {
        FenceAction::Done
    } else {
        FenceAction::Wait
    }
}

impl Fence {
    /// What is done next.
    pub fn next(&mut self, activity: &Activity, event: FenceEvent) -> (action: FenceAction)
        requires
            old(self)@.passed <= old(self)@.readers,
        ensures
            final(self)@ == fence_after(old(self)@, event),
            final(self)@.passed <= final(self)@.readers,
            action == fence_step(activity@, old(self)@, event),
    {
        match event {
            FenceEvent::Stopped => {
                return FenceAction::Fail(FenceError::ReaderStopped);
            },
            FenceEvent::Cancelled => {
                return FenceAction::Fail(FenceError::Cancelled);
            },
            FenceEvent::Passed => {
                if self.passed < self.readers {
                    self.passed = self.passed + 1;
                }
            },
            FenceEvent::Changed => {},
        }
        if self.passed < self.readers {
            FenceAction::Ask(self.passed)
        } else if activity.pending == 0 {
            FenceAction::Done
        } else {
            FenceAction::Wait
        }
    }
}

/// A wait is over only when every reader passed the fence and no delivery is pending.
pub proof fn law_fences_wait_for_everything(
    activity: ActivityView,
    fence: FenceView,
    event: FenceEvent,
)
    requires
        fence.passed <= fence.readers,
        fence_step(activity, fence, event) is Done,
    ensures
        fence_after(fence, event).passed == fence.readers,
        activity.pending == 0,
{
}

/// A delivery that is under way keeps a wait from being over, whatever happens, and once it was
/// the last and ends, a wait that every reader passed is over.
pub proof fn law_fences_wait_for_pending_deliveries(
    activity: ActivityView,
    fence: FenceView,
    event: FenceEvent,
)
    requires
        fence.passed <= fence.readers,
    ensures
        !(fence_step(begun(activity), fence, event) is Done),
        fence.passed == fence.readers ==> fence_step(begun(activity), fence, FenceEvent::Changed)
            is Wait,
        fence.passed == fence.readers ==> (fence_step(
            ended(begun(activity)),
            fence,
            FenceEvent::Changed,
        ) is Done) == (activity.pending == 0),
{
}

/// A reader that stopped fails a wait: it is never taken for one that has nothing to do.
pub proof fn law_stopped_readers_fail_fences(activity: ActivityView, fence: FenceView)
    ensures
        fence_step(activity, fence, FenceEvent::Stopped) == FenceAction::Fail(
            FenceError::ReaderStopped,
        ),
{
}

/// Work that began or ended between two looks shows: the generation is another one, though the
/// same number may be pending.
pub proof fn law_generations_show_work(activity: ActivityView)
    ensures
        begun(activity).generation != activity.generation,
        ended(activity).generation != activity.generation,
        ended(begun(activity)).generation != activity.generation,
        ended(begun(activity)).pending == activity.pending,
{
}

/// What is made of the round trip by which the broker is known to have processed all earlier
/// commands: whether the message came back in time, or whether the subscription ended first.
pub fn synchronized(returned: Option<bool>) -> (result: Result<(), &'static str>)
    ensures
        match returned {
            Some(true) => result is Ok,
            Some(false) => result matches Err(text) && text@
                == "NATS synchronization subscription closed"@,
            None => result matches Err(text) && text@ == "NATS synchronization timed out"@,
        },
{
    match returned {
        Some(true) => Ok(()),
        Some(false) => Err("NATS synchronization subscription closed"),
        None => Err("NATS synchronization timed out"),
    }
}

/// A delivery that begins is one more that is pending, and one that ends one less; each moves the
/// generation on by one, round from the largest number to zero. The readers stay as many.
pub proof fn law_deliveries_are_counted(activity: ActivityView)
    ensures
        begun(activity).pending == activity.pending + 1,
        begun(activity).generation as int == (activity.generation + 1) % 0x1_0000_0000_0000_0000,
        begun(activity).readers == activity.readers,
        activity.pending > 0 ==> ended(activity).pending == activity.pending - 1,
        ended(activity).generation as int == (activity.generation + 1) % 0x1_0000_0000_0000_0000,
        ended(activity).readers == activity.readers,
{
}

/// The readers are asked one after the other, each by its number and each once: while one has not
/// passed, it is the one that is asked, and once it passed, the next is. A reader that went away
/// fails the wait, and nothing but a reader that passes moves the fence on.
pub proof fn law_fences_ask_one_reader_after_the_other(
    activity: ActivityView,
    fence: FenceView,
    event: FenceEvent,
)
    requires
        fence.passed < fence.readers <= u64::MAX,
    ensures
        fence_step(activity, fence, FenceEvent::Changed) matches FenceAction::Ask(number) && number
            == fence.passed,
        fence_after(fence, FenceEvent::Passed).passed == fence.passed + 1,
        fence.passed + 1 < fence.readers ==> (fence_step(activity, fence, FenceEvent::Passed)
            matches FenceAction::Ask(number) && number == fence.passed + 1),
        fence.passed + 1 == fence.readers ==> (if activity.pending == 0 {
            fence_step(activity, fence, FenceEvent::Passed) is Done
        } else {
            fence_step(activity, fence, FenceEvent::Passed) is Wait
        }),
        fence_step(activity, fence, FenceEvent::Cancelled) == FenceAction::Fail(
            FenceError::Cancelled,
        ),
        event != FenceEvent::Passed ==> fence_after(fence, event) == fence,
        fence_after(fence, event).readers == fence.readers,
{
}

/// Without readers a wait is over as soon as no delivery is pending.
pub proof fn law_fences_without_readers_wait_for_deliveries(activity: ActivityView, passed: nat)
    ensures
        (fence_step(activity, FenceView { readers: passed, passed }, FenceEvent::Changed) is Done)
            == (activity.pending == 0),
        (fence_step(activity, FenceView { readers: passed, passed }, FenceEvent::Changed) is Wait)
            == (activity.pending > 0),
        fence_after(FenceView { readers: passed, passed }, FenceEvent::Passed).passed == passed,
{
}

/// The broker has processed all earlier commands exactly where the message came back.
pub proof fn law_round_trips_synchronize(returned: Option<bool>, result: Result<(), &'static str>)
    requires
        call_ensures(synchronized, (returned,), result),
    ensures
        result is Ok <==> returned == Some(true),
        returned == Some(false) ==> (result matches Err(text) && text@
            == "NATS synchronization subscription closed"@),
        returned is None ==> (result matches Err(text) && text@
            == "NATS synchronization timed out"@),
{
}

} // verus!
