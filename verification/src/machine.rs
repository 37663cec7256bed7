//! The engine: a frozen table of transitions with hooks and timeouts, the
//! history of its firings and their metrics.

use crate::callbacks::FailCallback;
use crate::error::TransitionError;
use crate::callbacks::hook_of_fn;
use crate::hooks::{
    entry_hook_of, exit_hook_of, find_hooks, find_timeout, hooks_wf, install_hook, install_timeout,
    invokes, same_hooks_but, timeout_of, timeouts_wf, HookKind, StateSlot, TimeoutSpec,
};
use crate::render::{dot_text, plantuml_text, render_dot, render_plantuml, Edge};
use crate::metrics::{counted_failure, counted_success, MetricsView, StateMachineMetrics};
use crate::transition::{
    is_evaluation_order, precedes, registered, rejects_all, selects, Transition, TransitionRecord,
};
use crate::values::{by_value, copy_of, debug_label, same, Context, Event, State};
use std::time::{Duration, Instant};
use vstd::prelude::*;

verus! {

/// The main state machine struct.
#[verifier::reject_recursive_types(S)]
#[verifier::reject_recursive_types(E)]
#[verifier::reject_recursive_types(C)]
pub struct StateMachine<S, E, C> {
    id: String,
    transitions: Vec<Transition<S, E, C>>,
    fail_callback: Option<FailCallback<S, E, C>>,
    history: Vec<TransitionRecord<S, E>>,
    metrics: StateMachineMetrics,
    state_actions: Vec<StateSlot<S, E, C>>,
    state_timeouts: Vec<TimeoutSpec<S, E>>,
}

impl<S: State, E: Event, C: Context> StateMachine<S, E, C> {
    /// The registered transitions, in the order of their declaration.
    pub closed spec fn rules(&self) -> Seq<Transition<S, E, C>> {
        self.transitions@
    }

    /// The hooks, state by state.
    pub closed spec fn hooks(&self) -> Seq<StateSlot<S, E, C>> {
        self.state_actions@
    }

    /// The timeouts, state by state.
    pub closed spec fn timeouts(&self) -> Seq<TimeoutSpec<S, E>> {
        self.state_timeouts@
    }

    /// The callback for failed firings.
    pub closed spec fn on_failure(&self) -> Option<FailCallback<S, E, C>> {
        self.fail_callback
    }

    /// The records of all firings since the history was last cleared.
    pub closed spec fn past(&self) -> Seq<TransitionRecord<S, E>> {
        self.history@
    }

    /// The metrics of all firings.
    pub closed spec fn measured(&self) -> MetricsView {
        self.metrics@
    }

    /// The metrics are consistent.
    pub closed spec fn measured_wf(&self) -> bool {
        self.metrics.wf()
    }

    /// The identifier.
    pub closed spec fn name(&self) -> Seq<char> {
        self.id@
    }

    /// Every callback can be called where the engine calls it, and the
    /// bookkeeping is consistent.
    pub open spec fn wf(&self) -> bool {
        &&& forall|i: int| 0 <= i < self.rules().len() ==> (#[trigger] self.rules()[i]).wf()
        &&& self.on_failure() matches Some(callback) ==> forall|from: &S, event: &E, context: &C| #[trigger]
            callback.performable(from, event, context)
        &&& hooks_wf(self.hooks())
        &&& timeouts_wf(self.timeouts())
        &&& self.measured_wf()
    }

    /// A machine that has not fired yet, set up with the given transitions,
    /// hooks, timeouts and failure callback.
    pub(crate) fn assemble(
        id: String,
        transitions: Vec<Transition<S, E, C>>,
        fail_callback: Option<FailCallback<S, E, C>>,
        state_actions: Vec<StateSlot<S, E, C>>,
        state_timeouts: Vec<TimeoutSpec<S, E>>,
    ) -> (machine: Self)
        ensures
            machine.name() == id@,
            machine.rules() == transitions@,
            machine.on_failure() == fail_callback,
            machine.hooks() == state_actions@,
            machine.timeouts() == state_timeouts@,
            machine.past() == Seq::<TransitionRecord<S, E>>::empty(),
            machine.measured() == StateMachineMetrics::nothing(),
            machine.measured_wf(),
    {
        StateMachine {
            id,
            transitions,
            fail_callback,
            history: Vec::new(),
            metrics: StateMachineMetrics::new(),
            state_actions,
            state_timeouts,
        }
    }

    /// The transitions registered for a state and an event, in the order in
    /// which a firing tries them: by falling priority, and among equal
    /// priorities in the order of declaration. Each is given by its position
    /// in the table.
    pub fn evaluation_order(&self, from: &S, event: &E) -> (order: Vec<usize>)
        requires
            by_value::<S>(),
            by_value::<E>(),
        ensures
            is_evaluation_order(self.rules(), *from, *event, order@),
    {
        let mut order: Vec<usize> = Vec::new();
        let mut i: usize = 0;
        while i < self.transitions.len()
            invariant
                by_value::<S>(),
                by_value::<E>(),
                0 <= i <= self.transitions@.len(),
                forall|k: int|
                    0 <= k < order@.len() ==> (#[trigger] order@[k]) < i && self.transitions@[order@[k] as int].keyed(
                        *from,
                        *event,
                    ),
                forall|j: int|
                    0 <= j < i && (#[trigger] self.transitions@[j]).keyed(*from, *event)
                        ==> exists|k: int| 0 <= k < order@.len() && #[trigger] order@[k] == j,
                forall|a: int, b: int|
                    0 <= a < b < order@.len() ==> precedes(
                        self.transitions@,
                        #[trigger] order@[a] as int,
                        #[trigger] order@[b] as int,
                    ),
            decreases self.transitions@.len() - i,
        {
            let rule = &self.transitions[i];
            if same(&rule.from, from) && same(&rule.event, event) {
                let priority: u32 = rule.priority;
                let mut at: usize = 0;
                while at < order.len() && self.transitions[order[at]].priority >= priority
                    invariant
                        0 <= at <= order@.len(),
                        i < self.transitions@.len(),
                        forall|k: int|
                            0 <= k < order@.len() ==> (#[trigger] order@[k]) < i,
                        forall|k: int|
                            0 <= k < at ==> self.transitions@[order@[k] as int].priority
                                >= priority,
                    decreases order@.len() - at,
                {
                    at = at + 1;
                }
                let ghost before = order@;
                order.insert(at, i);
                proof {
                    let rules = self.transitions@;
                    assert forall|a: int, b: int| 0 <= a < b < order@.len() implies precedes(
                        rules,
                        #[trigger] order@[a] as int,
                        #[trigger] order@[b] as int,
                    ) by {
                        if b < at {
                            assert(order@[a] == before[a] && order@[b] == before[b]);
                        } else if b == at {
                            assert(order@[a] == before[a]);
                        } else if a < at {
                            assert(order@[a] == before[a] && order@[b] == before[b - 1]);
                        } else if a == at {
                            assert(order@[b] == before[b - 1]);
                            if at < b - 1 {
                                assert(precedes(rules, before[at as int] as int, before[b - 1] as int));
                            }
                        } else {
                            assert(order@[a] == before[a - 1] && order@[b] == before[b - 1]);
                        }
                    }
                    assert forall|j: int|
                        0 <= j < i + 1 && (#[trigger] rules[j]).keyed(*from, *event) implies exists|
                        k: int,
                    | 0 <= k < order@.len() && #[trigger] order@[k] == j by {
                        if j == i {
                            assert(order@[at as int] == j);
                        } else {
                            let k = choose|k: int| 0 <= k < before.len() && #[trigger] before[k] == j;
                            if k < at {
                                assert(order@[k] == j);
                            } else {
                                assert(order@[k + 1] == j);
                            }
                        }
                    }
                    assert forall|k: int| 0 <= k < order@.len() implies (#[trigger] order@[k]) < i
                        + 1 && rules[order@[k] as int].keyed(*from, *event) by {
                        if k < at {
                            assert(order@[k] == before[k]);
                        } else if k > at {
                            assert(order@[k] == before[k - 1]);
                        }
                    }
                }
            }
            i = i + 1;
        }
        order
    }

    /// Tries the transitions registered for the state and event in their
    /// order and stops at the first whose guard accepts; a transition
    /// without a guard always accepts. Gives the position of that transition
    /// in the table, or nothing where every guard has turned the firing down.
    pub fn select(&self, from: &S, event: &E, context: &C) -> (chosen: Option<usize>)
        requires
            self.wf(),
            by_value::<S>(),
            by_value::<E>(),
        ensures
            match chosen {
                Some(i) => selects(self.rules(), *from, *event, *context, i as int),
                None => rejects_all(self.rules(), *from, *event, *context),
            },
    {
        let order = self.evaluation_order(from, event);
        let mut k: usize = 0;
        while k < order.len()
            invariant
                self.wf(),
                is_evaluation_order(self.rules(), *from, *event, order@),
                0 <= k <= order@.len(),
                forall|m: int|
                    0 <= m < k ==> self.rules()[(#[trigger] order@[m]) as int].may_reject(
                        *from,
                        *event,
                        *context,
                    ),
            decreases order@.len() - k,
        {
            let i: usize = order[k];
            let rule = &self.transitions[i];
            assert(self.rules()[i as int].wf());
            let accepted = match &rule.condition {
                Some(guard) => guard.evaluate(from, event, context),
                None => true,
            };
            if accepted {
                proof {
                    let rules = self.rules();
                    assert forall|j: int|
                        0 <= j < rules.len() && (#[trigger] rules[j]).keyed(*from, *event)
                            && precedes(rules, j, i as int) implies rules[j].may_reject(
                        *from,
                        *event,
                        *context,
                    ) by {
                        let m = choose|m: int| 0 <= m < order@.len() && #[trigger] order@[m] == j;
                        if m > k {
                            assert(precedes(rules, order@[k as int] as int, order@[m] as int));
                        }
                    }
                }
                return Some(i);
            }
            k = k + 1;
        }
        proof {
            let rules = self.rules();
            assert forall|j: int|
                0 <= j < rules.len() && (#[trigger] rules[j]).keyed(
                    *from,
                    *event,
                ) implies rules[j].may_reject(*from, *event, *context) by {
                let m = choose|m: int| 0 <= m < order@.len() && #[trigger] order@[m] == j;
            }
        }
        None
    }

    /// The machine is set up as `other` is: the same transitions, hooks,
    /// timeouts, failure callback and identifier.
    pub open spec fn same_setup(self, other: Self) -> bool {
        &&& self.rules() == other.rules()
        &&& self.hooks() == other.hooks()
        &&& self.timeouts() == other.timeouts()
        &&& self.on_failure() == other.on_failure()
        &&& self.name() == other.name()
    }

    /// The state a machine is in after a firing from `from` that ended in
    /// `result`.
    pub open spec fn state_after(from: S, result: Result<S, TransitionError>) -> S {
        match result {
            Ok(to) => to,
            Err(_) => from,
        }
    }

    /// What one firing does: `pre` is the machine before it, `post` the
    /// machine after it and `result` what the caller is told.
    ///
    /// The firing succeeds with the destination of a transition that
    /// [`selects`] allows, or fails with `NoValidTransition` where
    /// [`rejects_all`] holds. Either way the set-up stays as it is, one
    /// record is appended to the history and the firing is counted once.
    pub open spec fn fired(
        pre: Self,
        from: S,
        event: E,
        context: C,
        post: Self,
        result: Result<S, TransitionError>,
    ) -> bool {
        &&& post.same_setup(pre)
        &&& match result {
            Ok(to) => exists|i: int| #[trigger]
                selects(pre.rules(), from, event, context, i) && pre.rules()[i].to == to,
            Err(error) => rejects_all(pre.rules(), from, event, context)
                && error is NoValidTransition,
        }
        &&& post.past().len() == pre.past().len() + 1
        &&& post.past().drop_last() == pre.past()
        &&& post.past().last().from == from
        &&& post.past().last().event == event
        &&& post.past().last().to == Self::state_after(from, result)
        &&& post.past().last().success == (result is Ok)
        &&& match result {
            Ok(_) => exists|label: Seq<char>, elapsed: u128|
                post.measured() == #[trigger] counted_success(pre.measured(), label, elapsed),
            Err(_) => exists|elapsed: u128|
                post.measured() == #[trigger] counted_failure(pre.measured(), elapsed),
        }
    }

    /// Fires an event in a state.
    ///
    /// The exit hook of `from` runs first, whatever follows. Then the
    /// transitions registered for `from` and `event` are tried in their
    /// order. The action of the first whose guard accepts is run, then the
    /// entry hook of its destination, and the destination is the result.
    /// Where there is none, the failure callback runs and the result is
    /// `NoValidTransition` with the labels of `from` and `event`.
    pub fn fire_event(&mut self, from: S, event: E, context: C) -> (result: Result<
        S,
        TransitionError,
    >)
        requires
            old(self).wf(),
            by_value::<S>(),
            by_value::<E>(),
        ensures
            final(self).wf(),
            Self::fired(*old(self), from, event, context, *final(self), result),
    {
        let started = Instant::now();
        match find_hooks(&self.state_actions, &from) {
            Some(slot) => {
                assert(self.hooks()[slot as int].state == from);
                match &self.state_actions[slot].actions.on_exit {
                    Some(hook) => hook.invoke(&from, &context),
                    None => {},
                }
            },
            None => {},
        }
        let chosen = self.select(&from, &event, &context);
        match chosen {
            Some(i) => {
                let rule = &self.transitions[i];
                assert(self.rules()[i as int].wf());
                match &rule.action {
                    Some(action) => action.perform(&from, &event, &context),
                    None => {},
                }
                let to = copy_of(&rule.to);
                match find_hooks(&self.state_actions, &to) {
                    Some(slot) => {
                        assert(self.hooks()[slot as int].state == to);
                        match &self.state_actions[slot].actions.on_entry {
                            Some(hook) => hook.invoke(&to, &context),
                            None => {},
                        }
                    },
                    None => {},
                }
                let label = debug_label(&to);
                let ghost shown = label@;
                let timestamp = Instant::now();
                let elapsed: u128 = started.elapsed().as_nanos();
                let result = self.record_success(from, event, to, label, timestamp, elapsed);
                assert(self.measured() == counted_success(old(self).measured(), shown, elapsed));
                assert(selects(old(self).rules(), from, event, context, i as int));
                assert(self.past().drop_last() =~= old(self).past());
                result
            },
            None => {
                match &self.fail_callback {
                    Some(callback) => callback.perform(&from, &event, &context),
                    None => {},
                }
                let from_label = debug_label(&from);
                let event_label = debug_label(&event);
                let timestamp = Instant::now();
                let elapsed: u128 = started.elapsed().as_nanos();
                let result = self.record_failure(
                    from,
                    event,
                    from_label,
                    event_label,
                    timestamp,
                    elapsed,
                );
                assert(self.measured() == counted_failure(old(self).measured(), elapsed));
                assert(self.past().drop_last() =~= old(self).past());
                result
            },
        }
    }

    /// Books a successful firing from `from` on `event` that reached `to`:
    /// appends its record, taken at `timestamp`, to the history and counts
    /// it, with its duration of `elapsed` nanoseconds and one visit of the
    /// state labelled `label`. Gives what the firing returns.
    pub fn record_success(
        &mut self,
        from: S,
        event: E,
        to: S,
        label: String,
        timestamp: Instant,
        elapsed: u128,
    ) -> (result: Result<S, TransitionError>)
        requires
            old(self).wf(),
            by_value::<S>(),
        ensures
            final(self).wf(),
            final(self).same_setup(*old(self)),
            result == Ok::<S, TransitionError>(to),
            final(self).past() == old(self).past().push(
                TransitionRecord { from, to, event, timestamp, success: true },
            ),
            final(self).measured() == counted_success(old(self).measured(), label@, elapsed),
    {
        let record = TransitionRecord { from, to: copy_of(&to), event, timestamp, success: true };
        self.history.push(record);
        self.metrics.record_success(label, elapsed);
        assert(self.rules() == old(self).rules());
        Ok(to)
    }

    /// Books a failed firing from `from` on `event`: appends its record,
    /// taken at `timestamp`, to the history, where it says that the machine
    /// stayed in `from`, and counts it with its duration of `elapsed`
    /// nanoseconds. Gives what the firing returns: `NoValidTransition` with
    /// the two labels.
    pub fn record_failure(
        &mut self,
        from: S,
        event: E,
        from_label: String,
        event_label: String,
        timestamp: Instant,
        elapsed: u128,
    ) -> (result: Result<S, TransitionError>)
        requires
            old(self).wf(),
            by_value::<S>(),
        ensures
            final(self).wf(),
            final(self).same_setup(*old(self)),
            result == Err::<S, TransitionError>(
                TransitionError::NoValidTransition { from: from_label, event: event_label },
            ),
            final(self).past() == old(self).past().push(
                TransitionRecord { from, to: from, event, timestamp, success: false },
            ),
            final(self).measured() == counted_failure(old(self).measured(), elapsed),
    {
        let record = TransitionRecord {
            from: copy_of(&from),
            to: from,
            event,
            timestamp,
            success: false,
        };
        self.history.push(record);
        self.metrics.record_failure(elapsed);
        assert(self.rules() == old(self).rules());
        Err(TransitionError::NoValidTransition { from: from_label, event: event_label })
    }

    /// Whether any transition is registered for the state and event,
    /// whatever its guard would say.
    pub fn verify(&self, from: S, event: E) -> (possible: bool)
        requires
            by_value::<S>(),
            by_value::<E>(),
        ensures
            possible == registered(self.rules(), from, event),
    {
        let mut i: usize = 0;
        while i < self.transitions.len()
            invariant
                by_value::<S>(),
                by_value::<E>(),
                0 <= i <= self.transitions@.len(),
                forall|k: int| 0 <= k < i ==> !(#[trigger] self.transitions@[k]).keyed(from, event),
            decreases self.transitions@.len() - i,
        {
            if same(&self.transitions[i].from, &from) && same(&self.transitions[i].event, &event) {
                return true;
            }
            i = i + 1;
        }
        false
    }

    /// Whether the machine has this identifier.
    pub fn has_id(&self, id: &String) -> (named: bool)
        ensures
            named == (self.name() == id@),
    {
        self.id == *id
    }

    /// The identifier of the machine.
    pub fn id(&self) -> (id: &str)
        ensures
            id@ == self.name(),
    {
        self.id.as_str()
    }

    /// The records of the firings since the history was last cleared,
    /// oldest first.
    pub fn get_history(&self) -> (records: Vec<TransitionRecord<S, E>>)
        requires
            by_value::<S>(),
            by_value::<E>(),
        ensures
            records@ == self.past(),
    {
        let mut records: Vec<TransitionRecord<S, E>> = Vec::new();
        let mut i: usize = 0;
        while i < self.history.len()
            invariant
                by_value::<S>(),
                by_value::<E>(),
                0 <= i <= self.history@.len(),
                records@ == self.history@.take(i as int),
            decreases self.history@.len() - i,
        {
            let kept = &self.history[i];
            let record = TransitionRecord {
                from: copy_of(&kept.from),
                to: copy_of(&kept.to),
                event: copy_of(&kept.event),
                timestamp: kept.timestamp.clone(),
                success: kept.success,
            };
            records.push(record);
            assert(self.history@.take(i + 1) =~= self.history@.take(i as int).push(
                self.history@[i as int],
            ));
            i = i + 1;
        }
        assert(self.history@.take(i as int) =~= self.history@);
        records
    }

    /// Forgets the records of all firings; the metrics stay.
    pub fn clear_history(&mut self)
        ensures
            final(self).past() == Seq::<TransitionRecord<S, E>>::empty(),
            final(self).same_setup(*old(self)),
            final(self).measured() == old(self).measured(),
            final(self).wf() == old(self).wf(),
    {
        self.history.clear();
    }

    /// A snapshot of the metrics.
    pub fn get_metrics(&self) -> (metrics: StateMachineMetrics)
        ensures
            metrics@ == self.measured(),
            metrics.wf() == self.measured_wf(),
    {
        self.metrics.snapshot()
    }

    /// Add entry action for a state, in place of the one it may have.
    pub fn add_entry_action<F>(&mut self, state: S, action: F) where
        F: Fn(&S, &C) + Send + Sync + 'static,

        requires
            old(self).wf(),
            by_value::<S>(),
            forall|context: &C| #[trigger] call_requires(action, (&state, context)),
        ensures
            final(self).wf(),
            invokes(entry_hook_of(final(self).hooks(), state), action),
            same_hooks_but(final(self).hooks(), old(self).hooks(), state, HookKind::Entry),
            final(self).rules() == old(self).rules(),
            final(self).timeouts() == old(self).timeouts(),
            final(self).on_failure() == old(self).on_failure(),
            final(self).name() == old(self).name(),
            final(self).past() == old(self).past(),
            final(self).measured() == old(self).measured(),
    {
        let hook = hook_of_fn(action);
        install_hook(&mut self.state_actions, state, HookKind::Entry, hook);
        assert(self.rules() == old(self).rules());
    }

    /// Add exit action for a state, in place of the one it may have.
    pub fn add_exit_action<F>(&mut self, state: S, action: F) where
        F: Fn(&S, &C) + Send + Sync + 'static,

        requires
            old(self).wf(),
            by_value::<S>(),
            forall|context: &C| #[trigger] call_requires(action, (&state, context)),
        ensures
            final(self).wf(),
            invokes(exit_hook_of(final(self).hooks(), state), action),
            same_hooks_but(final(self).hooks(), old(self).hooks(), state, HookKind::Exit),
            final(self).rules() == old(self).rules(),
            final(self).timeouts() == old(self).timeouts(),
            final(self).on_failure() == old(self).on_failure(),
            final(self).name() == old(self).name(),
            final(self).past() == old(self).past(),
            final(self).measured() == old(self).measured(),
    {
        let hook = hook_of_fn(action);
        install_hook(&mut self.state_actions, state, HookKind::Exit, hook);
        assert(self.rules() == old(self).rules());
    }

    /// Set timeout for a state, in place of the one it may have: after
    /// `duration` in `state`, `timeout_event` is due and leads to
    /// `target_state`. The machine keeps no clock; to fire the event when
    /// the time has passed is the caller's part.
    pub fn set_state_timeout(
        &mut self,
        state: S,
        duration: Duration,
        target_state: S,
        timeout_event: E,
    )
        requires
            old(self).wf(),
            by_value::<S>(),
        ensures
            final(self).wf(),
            timeout_of(final(self).timeouts(), state) == Some(
                TimeoutSpec { state, duration, target: target_state, event: timeout_event },
            ),
            forall|other: S|
                other != state ==> #[trigger] timeout_of(final(self).timeouts(), other)
                    == timeout_of(old(self).timeouts(), other),
            final(self).rules() == old(self).rules(),
            final(self).hooks() == old(self).hooks(),
            final(self).on_failure() == old(self).on_failure(),
            final(self).name() == old(self).name(),
            final(self).past() == old(self).past(),
            final(self).measured() == old(self).measured(),
    {
        install_timeout(&mut self.state_timeouts, state, duration, target_state, timeout_event);
        assert(self.rules() == old(self).rules());
    }

    /// The timeout of a state, if it has one.
    pub fn state_timeout(&self, state: &S) -> (timeout: Option<&TimeoutSpec<S, E>>)
        requires
            self.wf(),
            by_value::<S>(),
        ensures
            match timeout {
                Some(found) => timeout_of(self.timeouts(), *state) == Some(*found),
                None => timeout_of(self.timeouts(), *state) is None,
            },
    {
        match find_timeout(&self.state_timeouts, state) {
            Some(slot) => {
                proof {
                    let timeouts = self.state_timeouts@;
                    let chosen = choose|i: int|
                        0 <= i < timeouts.len() && (#[trigger] timeouts[i]).state == *state;
                    assert(timeouts[slot as int].state == *state);
                    if chosen < slot {
                        assert(timeouts[chosen].state != timeouts[slot as int].state);
                    } else if slot < chosen {
                        assert(timeouts[slot as int].state != timeouts[chosen].state);
                    }
                }
                Some(&self.state_timeouts[slot])
            },
            None => None,
        }
    }

    /// The edges of the transition graph, one for each transition in the
    /// order of declaration, by the labels of its states and of its event.
    pub fn edges(&self) -> (edges: Vec<Edge>)
        ensures
            edges@.len() == self.rules().len(),
    {
        let mut edges: Vec<Edge> = Vec::new();
        let mut i: usize = 0;
        while i < self.transitions.len()
            invariant
                0 <= i <= self.transitions@.len(),
                edges@.len() == i,
            decreases self.transitions@.len() - i,
        {
            let rule = &self.transitions[i];
            edges.push(
                Edge {
                    from: debug_label(&rule.from),
                    to: debug_label(&rule.to),
                    event: debug_label(&rule.event),
                },
            );
            i = i + 1;
        }
        edges
    }

    /// Export to DOT format: the graph of [`Self::edges`].
    pub fn to_dot(&self) -> (text: String)
        ensures
            exists|edges: Seq<Edge>|
                edges.len() == self.rules().len() && text@ == #[trigger] dot_text(edges),
    {
        let edges = self.edges();
        render_dot(&edges)
    }

    /// Export to PlantUML format: the graph of [`Self::edges`].
    pub fn to_plantuml(&self) -> (text: String)
        ensures
            exists|edges: Seq<Edge>|
                edges.len() == self.rules().len() && text@ == #[trigger] plantuml_text(edges),
    {
        let edges = self.edges();
        render_plantuml(&edges)
    }
}

} // verus!
