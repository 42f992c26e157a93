//! Traces follow guest tasks, not the host futures that wait for them.
use vstd::prelude::*;

use vstd::std_specs::cmp::PartialEqSpec;

verus! {

/// Whether `==` on tasks says whether they are the same.
pub open spec fn tells_apart<K: PartialEq>() -> bool {
    &&& K::obeys_eq_spec()
    &&& forall|a: K, b: K| #[trigger] a.eq_spec(&b) == (a == b)
}

/// The spans of the guest tasks that are running. Each task has at most one.
pub struct GuestTraces<K, S> {
    entries: Vec<(K, S)>,
}

/// Where a task stands: the first place, or the length.
pub open spec fn task_place<K, S>(entries: Seq<(K, S)>, task: K) -> int
    decreases entries.len(),
{
    if entries.len() == 0 || entries[0].0 == task {
        0
    } else {
        1 + task_place(entries.drop_first(), task)
    }
}

proof fn lemma_task_place<K, S>(entries: Seq<(K, S)>, task: K)
    ensures
        0 <= task_place(entries, task) <= entries.len(),
        task_place(entries, task) < entries.len() ==> entries[task_place(entries, task)].0 == task,
        forall|i: int| 0 <= i < task_place(entries, task) ==> (#[trigger] entries[i]).0 != task,
    decreases entries.len(),
{
    if entries.len() == 0 || entries[0].0 == task {
    } else {
        let rest = entries.drop_first();
        lemma_task_place(rest, task);
        assert forall|i: int| 0 <= i < task_place(entries, task) implies (#[trigger] entries[i]).0
            != task by {
            if i > 0 {
                assert(rest[i - 1] == entries[i]);
            }
        }
    }
}

/// The first place with a task at or after which there is one, given where it is.
proof fn lemma_task_place_is<K, S>(entries: Seq<(K, S)>, task: K, at: int)
    requires
        0 <= at <= entries.len(),
        at < entries.len() ==> entries[at].0 == task,
        forall|i: int| 0 <= i < at ==> (#[trigger] entries[i]).0 != task,
    ensures
        task_place(entries, task) == at,
{
    lemma_task_place(entries, task);
}

impl<K, S> GuestTraces<K, S> {
    /// Each task is registered at most once.
    pub closed spec fn wf(&self) -> bool {
        forall|i: int, j: int|
            0 <= i < j < self.entries@.len() ==> (#[trigger] self.entries@[i]).0 != (
            #[trigger] self.entries@[j]).0
    }
}

impl<K, S> View for GuestTraces<K, S> {
    type V = Map<K, S>;

    closed spec fn view(&self) -> Map<K, S> {
        Map::new(
            |task: K| task_place(self.entries@, task) < self.entries@.len(),
            |task: K| self.entries@[task_place(self.entries@, task)].1,
        )
    }
}

/// The nearest caller on a call stack that is registered: the first place, or the length.
pub open spec fn nearest_place<K, S>(traces: Map<K, S>, stack: Seq<K>) -> int
    decreases stack.len(),
{
    if stack.len() == 0 || traces.contains_key(stack[0]) {
        0
    } else {
        1 + nearest_place(traces, stack.drop_first())
    }
}

/// The span of the nearest caller on a call stack that is registered.
pub open spec fn nearest_span<K, S>(traces: Map<K, S>, stack: Seq<K>) -> Option<S> {
    let place = nearest_place(traces, stack);
    if place < stack.len() {
        Some(traces[stack[place]])
    } else {
        None
    }
}

proof fn lemma_nearest_place<K, S>(traces: Map<K, S>, stack: Seq<K>)
    ensures
        0 <= nearest_place(traces, stack) <= stack.len(),
        nearest_place(traces, stack) < stack.len() ==> traces.contains_key(
            stack[nearest_place(traces, stack)],
        ),
        forall|i: int|
            0 <= i < nearest_place(traces, stack) ==> !traces.contains_key(#[trigger] stack[i]),
    decreases stack.len(),
{
    if stack.len() == 0 || traces.contains_key(stack[0]) {
    } else {
        let rest = stack.drop_first();
        lemma_nearest_place(traces, rest);
        assert forall|i: int| 0 <= i < nearest_place(traces, stack) implies !traces.contains_key(
            #[trigger] stack[i],
        ) by {
            if i > 0 {
                assert(rest[i - 1] == stack[i]);
            }
        }
    }
}

impl<K: PartialEq, S> GuestTraces<K, S> {
    /// No tasks.
    pub fn new() -> (traces: Self)
        ensures
            traces.wf(),
            traces@ == Map::<K, S>::empty(),
    {
        let traces = GuestTraces { entries: Vec::new() };
        assert(traces@ =~= Map::<K, S>::empty());
        traces
    }

    /// Whether no task is registered.
    pub fn is_empty(&self) -> (empty: bool)
        requires
            self.wf(),
        ensures
            empty == (self@ == Map::<K, S>::empty()),
    {
        let n: usize = self.entries.len();
        proof {
            if n > 0 {
                let task = self.entries@[0].0;
                assert(self@.contains_key(task));
            } else {
                assert(self@ =~= Map::<K, S>::empty());
            }
        }
        n == 0
    }

    fn place(&self, task: &K) -> (i: usize)
        requires
            tells_apart::<K>(),
        ensures
            i == task_place(self.entries@, *task),
            i <= self.entries@.len(),
    {
        let n: usize = self.entries.len();
        let mut i: usize = 0;
        while i < n
            invariant
                n == self.entries@.len(),
                i <= n,
                tells_apart::<K>(),
                forall|j: int| 0 <= j < i ==> (#[trigger] self.entries@[j]).0 != *task,
            decreases n - i,
        {
            if self.entries[i].0 == *task {
                proof {
                    lemma_task_place_is(self.entries@, *task, i as int);
                }
                return i;
            }
            i = i + 1;
        }
        proof {
            lemma_task_place_is(self.entries@, *task, n as int);
        }
        i
    }

    /// Takes out the span of a task that is over, however it ended.
    pub fn release(&mut self, task: &K) -> (span: Option<S>)
        requires
            tells_apart::<K>(),
            old(self).wf(),
        ensures
            final(self).wf(),
            final(self)@ == old(self)@.remove(*task),
            match span {
                Some(span) => old(self)@.contains_key(*task) && span == old(self)@[*task],
                None => !old(self)@.contains_key(*task),
            },
    {
        let i: usize = self.place(task);
        if i < self.entries.len() {
            let ghost before = *self;
            let (_, span) = self.entries.remove(i);
            proof {
                lemma_task_place(before.entries@, *task);
                assert(self.entries@ =~= before.entries@.remove(i as int));
                assert forall|a: int, b: int| 0 <= a < b < self.entries@.len() implies (
                #[trigger] self.entries@[a]).0 != (#[trigger] self.entries@[b]).0 by {
                    let oa = if a < i {
                        a
                    } else {
                        a + 1
                    };
                    let ob = if b < i {
                        b
                    } else {
                        b + 1
                    };
                    assert(self.entries@[a] == before.entries@[oa]);
                    assert(self.entries@[b] == before.entries@[ob]);
                }
                let goal = before@.remove(*task);
                assert forall|k: K|
                    #![trigger self@.contains_key(k)]
                    self@.contains_key(k) == goal.contains_key(k) && (self@.contains_key(k)
                        ==> self@[k] == goal[k]) by {
                    lemma_task_place(before.entries@, k);
                    lemma_task_place(self.entries@, k);
                    let at = task_place(before.entries@, k);
                    if k == *task {
                        if task_place(self.entries@, k) < self.entries@.len() {
                            let a = task_place(self.entries@, k);
                            let oa = if a < i {
                                a
                            } else {
                                a + 1
                            };
                            assert(self.entries@[a] == before.entries@[oa]);
                        }
                    } else if at < before.entries@.len() {
                        let now = if at < i {
                            at
                        } else {
                            at - 1
                        };
                        assert(self.entries@[now] == before.entries@[at]);
                        assert forall|j: int| 0 <= j < now implies (#[trigger] self.entries@[j]).0
                            != k by {
                            let oj = if j < i {
                                j
                            } else {
                                j + 1
                            };
                            assert(self.entries@[j] == before.entries@[oj]);
                        }
                        lemma_task_place_is(self.entries@, k, now);
                    } else {
                        assert forall|j: int| 0 <= j < self.entries@.len() implies (
                        #[trigger] self.entries@[j]).0 != k by {
                            let oj = if j < i {
                                j
                            } else {
                                j + 1
                            };
                            assert(self.entries@[j] == before.entries@[oj]);
                        }
                        lemma_task_place_is(self.entries@, k, self.entries@.len() as int);
                    }
                }
                assert(self@ =~= goal);
            }
            Some(span)
        } else {
            assert(self@.remove(*task) =~= self@);
            None
        }
    }

    /// Registers the span under which a task was called.
    pub fn register(&mut self, task: K, span: S)
        requires
            tells_apart::<K>(),
            old(self).wf(),
        ensures
            final(self).wf(),
            final(self)@ == old(self)@.insert(task, span),
    {
        let _ = self.release(&task);
        let ghost before = *self;
        let ghost entry = (task, span);
        self.entries.push((task, span));
        proof {
            lemma_task_place(before.entries@, entry.0);
            assert(!before@.contains_key(entry.0));
            let n = before.entries@.len() as int;
            assert forall|a: int, b: int| 0 <= a < b < self.entries@.len() implies (
            #[trigger] self.entries@[a]).0 != (#[trigger] self.entries@[b]).0 by {
                assert(self.entries@[a] == before.entries@[a]);
                if b < n {
                    assert(self.entries@[b] == before.entries@[b]);
                }
            }
            let goal = before@.insert(entry.0, entry.1);
            assert forall|k: K|
                #![trigger self@.contains_key(k)]
                self@.contains_key(k) == goal.contains_key(k) && (self@.contains_key(k) ==> self@[k]
                    == goal[k]) by {
                lemma_task_place(before.entries@, k);
                let at = task_place(before.entries@, k);
                assert forall|j: int| 0 <= j < at implies (#[trigger] self.entries@[j]).0 != k by {
                    assert(self.entries@[j] == before.entries@[j]);
                }
                if k == entry.0 {
                    lemma_task_place_is(self.entries@, k, n);
                } else if at < n {
                    assert(self.entries@[at] == before.entries@[at]);
                    lemma_task_place_is(self.entries@, k, at);
                } else {
                    lemma_task_place_is(self.entries@, k, n + 1);
                }
            }
            assert(self@ =~= goal);
            assert(old(self)@.insert(entry.0, entry.1) =~= old(self)@.remove(entry.0).insert(
                entry.0,
                entry.1,
            ));
        }
    }

    /// The span around a guest's call: that of the nearest registered caller on its call stack,
    /// innermost first, or else the host's.
    pub fn current<'a>(&'a self, stack: &Vec<K>, host: &'a S) -> (span: &'a S)
        requires
            tells_apart::<K>(),
            self.wf(),
        ensures
            *span == (match nearest_span(self@, stack@) {
                Some(own) => own,
                None => *host,
            }),
    {
        match self.nearest(stack) {
            Some(span) => span,
            None => host,
        }
    }

    /// The span of the nearest caller on a call stack, innermost first, that is registered.
    pub fn nearest(&self, stack: &Vec<K>) -> (span: Option<&S>)
        requires
            tells_apart::<K>(),
            self.wf(),
        ensures
            match span {
                Some(span) => nearest_span(self@, stack@) == Some(*span),
                None => nearest_span(self@, stack@) is None,
            },
    {
        let n: usize = stack.len();
        proof {
            lemma_nearest_place(self@, stack@);
        }
        for i in 0..n
            invariant
                n == stack@.len(),
                tells_apart::<K>(),
                i <= nearest_place(self@, stack@) <= n,
                nearest_place(self@, stack@) < n ==> self@.contains_key(
                    stack@[nearest_place(self@, stack@)],
                ),
                forall|j: int|
                    0 <= j < nearest_place(self@, stack@) ==> !self@.contains_key(
                        #[trigger] stack@[j],
                    ),
        {
            let at: usize = self.place(&stack[i]);
            if at < self.entries.len() {
                assert(self@.contains_key(stack@[i as int]));
                return Some(&self.entries[at].1);
            }
            assert(!self@.contains_key(stack@[i as int]));
        }
        None
    }
}

/// Whether a call stack, innermost first, belongs to a task: the task is on it, and no registered
/// one is called in between.
pub open spec fn calls_from<K, S>(traces: Map<K, S>, stack: Seq<K>, task: K) -> bool {
    exists|own: int|
        0 <= own < stack.len() && #[trigger] stack[own] == task && forall|i: int|
            0 <= i < own ==> #[trigger] stack[i] != task && !traces.contains_key(stack[i])
}

/// What goes on with the calls of guests: one begins under a span, or one is over, however it
/// ended.
pub enum CallStep<K, S> {
    Begin(K, S),
    End(K),
}

/// Whether a step is about the call of a task.
pub open spec fn about<K, S>(step: CallStep<K, S>, task: K) -> bool {
    match step {
        CallStep::Begin(other, _) => other == task,
        CallStep::End(other) => other == task,
    }
}

/// The spans of the tasks that are running after calls began and ended.
pub open spec fn after_calls<K, S>(traces: Map<K, S>, steps: Seq<CallStep<K, S>>) -> Map<K, S>
    decreases steps.len(),
{
    if steps.len() == 0 {
        traces
    } else {
        let before = after_calls(traces, steps.drop_last());
        match steps.last() {
            CallStep::Begin(task, span) => before.insert(task, span),
            CallStep::End(task) => before.remove(task),
        }
    }
}

/// A call that runs finds its own span and no other's, whatever calls began and ended since it
/// began: whoever it calls that began no call of its own finds the span under which it began.
pub proof fn law_running_calls_find_their_own_spans<K, S>(
    traces: Map<K, S>,
    steps: Seq<CallStep<K, S>>,
    task: K,
    span: S,
    stack: Seq<K>,
)
    requires
        steps.len() > 0,
        steps[0] == CallStep::Begin(task, span),
        forall|i: int| 0 < i < steps.len() ==> !about(#[trigger] steps[i], task),
    ensures
        after_calls(traces, steps).contains_key(task),
        after_calls(traces, steps)[task] == span,
        calls_from(after_calls(traces, steps).remove(task), stack, task) ==> nearest_span(
            after_calls(traces, steps),
            stack,
        ) == Some(span),
    decreases steps.len(),
{
    let now = after_calls(traces, steps);
    let before = steps.drop_last();
    if steps.len() > 1 {
        assert forall|i: int| 0 < i < before.len() implies !about(#[trigger] before[i], task) by {
            assert(before[i] == steps[i]);
        }
        law_running_calls_find_their_own_spans(traces, before, task, span, stack);
        assert(!about(steps[steps.len() - 1], task));
    } else {
        assert(steps.last() == steps[0]);
    }
    if calls_from(now.remove(task), stack, task) {
        law_registrations_end_with_their_task(now.remove(task), task, span, stack);
        assert(now.remove(task).insert(task, span) =~= now);
    }
}

/// A task that is registered after calls began and ended was so from the beginning, or its call
/// began and is not over.
proof fn lemma_registered_calls_run<K, S>(
    traces: Map<K, S>,
    steps: Seq<CallStep<K, S>>,
    task: K,
)
    requires
        after_calls(traces, steps).contains_key(task),
    ensures
        traces.contains_key(task) || exists|i: int|
            0 <= i < steps.len() && #[trigger] steps[i] is Begin && steps[i]->Begin_0 == task
                && forall|j: int| i < j < steps.len() ==> #[trigger] steps[j] != CallStep::<
                K,
                S,
            >::End(task),
    decreases steps.len(),
{
    if steps.len() > 0 {
        let before = steps.drop_last();
        let last = steps.len() - 1;
        if steps[last] is Begin && steps[last]->Begin_0 == task {
        } else {
            lemma_registered_calls_run(traces, before, task);
            if !traces.contains_key(task) {
                let i = choose|i: int|
                    0 <= i < before.len() && #[trigger] before[i] is Begin && before[i]->Begin_0
                        == task && forall|j: int|
                        i < j < before.len() ==> #[trigger] before[j] != CallStep::<K, S>::End(
                            task,
                        );
                assert(steps[i] == before[i]);
                assert forall|j: int| i < j < steps.len() implies #[trigger] steps[j]
                    != CallStep::<K, S>::End(task) by {
                    if j < last {
                        assert(before[j] == steps[j]);
                    }
                }
            }
        }
    }
}

/// Calls that are over leave nothing behind, whatever began and ended in between: where nothing
/// was registered and every call that began is over, nothing is.
pub proof fn law_calls_that_are_over_leave_nothing<K, S>(steps: Seq<CallStep<K, S>>)
    requires
        forall|i: int|
            0 <= i < steps.len() && #[trigger] steps[i] is Begin ==> exists|j: int|
                i < j < steps.len() && #[trigger] steps[j] == CallStep::<K, S>::End(
                    steps[i]->Begin_0,
                ),
    ensures
        after_calls(Map::<K, S>::empty(), steps) == Map::<K, S>::empty(),
{
    let now = after_calls(Map::<K, S>::empty(), steps);
    assert forall|task: K| !(#[trigger] now.contains_key(task)) by {
        if now.contains_key(task) {
            lemma_registered_calls_run(Map::<K, S>::empty(), steps, task);
        }
    }
    assert(now =~= Map::<K, S>::empty());
}

/// A task's span is found while the task runs, whatever it calls, and is gone afterwards.
pub proof fn law_registrations_end_with_their_task<K, S>(
    traces: Map<K, S>,
    task: K,
    span: S,
    stack: Seq<K>,
)
    requires
        !traces.contains_key(task),
        calls_from(traces, stack, task),
    ensures
        nearest_span(traces.insert(task, span), stack) == Some(span),
        traces.insert(task, span).remove(task) == traces,
{
    let own = choose|own: int|
        0 <= own < stack.len() && #[trigger] stack[own] == task && forall|i: int|
            0 <= i < own ==> #[trigger] stack[i] != task && !traces.contains_key(stack[i]);
    lemma_nearest_place(traces.insert(task, span), stack);
    let place = nearest_place(traces.insert(task, span), stack);
    if place < own {
        assert(stack[place] != task);
    }
    assert(traces.insert(task, span).remove(task) =~= traces);
}

/// Two calls that run interleaved find their own spans and never the other's, and when both are
/// over, in whichever order, nothing of either is left: where nothing else is registered, nothing
/// is at all.
pub proof fn law_interleaved_calls_find_their_own_spans<K, S>(
    traces: Map<K, S>,
    first: K,
    first_span: S,
    first_stack: Seq<K>,
    second: K,
    second_span: S,
    second_stack: Seq<K>,
)
    requires
        first != second,
        !traces.contains_key(first),
        !traces.contains_key(second),
        calls_from(traces, first_stack, first),
        calls_from(traces, second_stack, second),
        !first_stack.contains(second),
        !second_stack.contains(first),
    ensures
        ({
            let both = traces.insert(first, first_span).insert(second, second_span);
            &&& nearest_span(both, first_stack) == Some(first_span)
            &&& nearest_span(both, second_stack) == Some(second_span)
            &&& nearest_span(both.remove(second), first_stack) == Some(first_span)
            &&& nearest_span(both.remove(first), second_stack) == Some(second_span)
            &&& both.remove(first).remove(second) == traces
            &&& both.remove(second).remove(first) == traces
        }),
{
    let one = traces.insert(first, first_span);
    let two = traces.insert(second, second_span);
    let both = one.insert(second, second_span);
    assert(both =~= two.insert(first, first_span));
    assert(both.remove(second) =~= one);
    assert(both.remove(first) =~= two);
    law_registrations_end_with_their_task(traces, first, first_span, first_stack);
    law_registrations_end_with_their_task(traces, second, second_span, second_stack);
    law_interleaved_tasks_keep_their_spans(one, second, second_span, first_stack);
    law_interleaved_tasks_keep_their_spans(two, first, first_span, second_stack);
}

/// Tasks that interleave keep their traces apart: a task that is on no call stack of another's
/// makes no difference to the span that the other finds.
pub proof fn law_interleaved_tasks_keep_their_spans<K, S>(
    traces: Map<K, S>,
    other: K,
    span: S,
    stack: Seq<K>,
)
    requires
        !stack.contains(other),
    ensures
        nearest_span(traces.insert(other, span), stack) == nearest_span(traces, stack),
        nearest_span(traces.remove(other), stack) == nearest_span(traces, stack),
    decreases stack.len(),
{
    if stack.len() > 0 {
        assert(stack.contains(stack[0]));
        let rest = stack.drop_first();
        assert(!rest.contains(other)) by {
            if rest.contains(other) {
                let i = choose|i: int| 0 <= i < rest.len() && rest[i] == other;
                assert(stack[i + 1] == other);
            }
        }
        law_interleaved_tasks_keep_their_spans(traces, other, span, rest);
        lemma_nearest_place(traces, stack);
        lemma_nearest_place(traces, rest);
        lemma_nearest_place(traces.insert(other, span), rest);
        lemma_nearest_place(traces.remove(other), rest);
        if !traces.contains_key(stack[0]) {
            let a = nearest_place(traces, rest);
            let b = nearest_place(traces.insert(other, span), rest);
            let c = nearest_place(traces.remove(other), rest);
            if a < rest.len() {
                assert(rest[a] == stack[a + 1]);
            }
            if b < rest.len() {
                assert(rest[b] == stack[b + 1]);
            }
            if c < rest.len() {
                assert(rest[c] == stack[c + 1]);
            }
        }
    }
}

/// The span around a call is that of the first caller on its call stack that is registered, and
/// there is none exactly where no caller is.
pub proof fn law_the_first_registered_caller_counts<K, S>(traces: Map<K, S>, stack: Seq<K>, i: int)
    requires
        0 <= i < stack.len(),
    ensures
        traces.contains_key(stack[i]) && (forall|j: int|
            0 <= j < i ==> !traces.contains_key(#[trigger] stack[j])) ==> nearest_span(
            traces,
            stack,
        ) == Some(traces[stack[i]]),
        traces.contains_key(stack[i]) ==> nearest_span(traces, stack) is Some,
        (forall|j: int| 0 <= j < stack.len() ==> !traces.contains_key(#[trigger] stack[j]))
            ==> nearest_span(traces, stack) is None,
        nearest_span(traces, Seq::<K>::empty()) is None,
{
    lemma_nearest_place(traces, stack);
    let place = nearest_place(traces, stack);
    if traces.contains_key(stack[i]) && (forall|j: int|
        0 <= j < i ==> !traces.contains_key(#[trigger] stack[j])) {
        if place < i {
            assert(!traces.contains_key(stack[place]));
        }
    }
}

/// A call that begins is registered under its span, one that ends is not registered, and no other
/// call is touched.
pub proof fn law_calls_are_registered_while_they_run<K, S>(
    traces: Map<K, S>,
    steps: Seq<CallStep<K, S>>,
    task: K,
    span: S,
    other: K,
)
    requires
        other != task,
    ensures
        ({
            let before = after_calls(traces, steps);
            let begun = after_calls(traces, steps.push(CallStep::Begin(task, span)));
            let over = after_calls(traces, steps.push(CallStep::End(task)));
            &&& begun.contains_key(task) && begun[task] == span
            &&& !over.contains_key(task)
            &&& begun.contains_key(other) == before.contains_key(other)
            &&& over.contains_key(other) == before.contains_key(other)
            &&& before.contains_key(other) ==> begun[other] == before[other] && over[other]
                == before[other]
        }),
        after_calls(traces, Seq::empty()) == traces,
{
    assert(steps.push(CallStep::Begin(task, span)).drop_last() =~= steps);
    assert(steps.push(CallStep::<K, S>::End(task)).drop_last() =~= steps);
}

} // verus!
