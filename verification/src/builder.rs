//! Fluent construction of state machines.
//!
//! A [`StateMachineBuilder`] collects transitions, hooks, timeouts and the
//! failure callback, and freezes them into a machine. Each transition is
//! declared through a small builder of its own, which hands the machine
//! builder back when the action is given.

use crate::callbacks::{
    action_of, condition_of, hook_of_fn, shared_action, shared_condition, Action, Condition,
    FailCallback,
};
use crate::hooks::{
    entry_hook_of, exit_hook_of, hooks_wf, install_hook, install_timeout, invokes, same_hooks_but,
    timeout_of, timeouts_wf, HookKind, StateSlot, TimeoutSpec,
};
use crate::machine::StateMachine;
use crate::metrics::StateMachineMetrics;
use crate::transition::{Transition, TransitionRecord, TransitionType};
use crate::values::{by_value, copy_of, Context, Event, State};
use std::sync::Arc;
use std::time::Duration;
use vstd::prelude::*;
use vstd::string::StringExecFns;

verus! {

/// Builder for creating state machines with a fluent interface.
#[verifier::reject_recursive_types(S)]
#[verifier::reject_recursive_types(E)]
#[verifier::reject_recursive_types(C)]
pub struct StateMachineBuilder<S, E, C> {
    pub id: Option<String>,
    pub transitions: Vec<Transition<S, E, C>>,
    pub fail_callback: Option<FailCallback<S, E, C>>,
    pub state_actions: Vec<StateSlot<S, E, C>>,
    pub state_timeouts: Vec<TimeoutSpec<S, E>>,
}

/// The identifier of a machine built without one.
pub open spec fn default_id() -> Seq<char> {
    "StateMachine"@
}

impl<S: State, E: Event, C: Context> StateMachineBuilder<S, E, C> {
    /// Every callback collected so far can be called where a machine built
    /// from the builder will call it, and no state has two entries among
    /// the hooks or among the timeouts.
    pub open spec fn wf(self) -> bool {
        &&& forall|i: int| 0 <= i < self.transitions@.len() ==> (#[trigger] self.transitions@[i]).wf()
        &&& self.fail_callback matches Some(callback) ==> forall|from: &S, event: &E, context: &C| #[trigger]
            callback.performable(from, event, context)
        &&& hooks_wf(self.state_actions@)
        &&& timeouts_wf(self.state_timeouts@)
    }

    /// The identifier the built machine will have.
    pub open spec fn chosen_id(self) -> Seq<char> {
        match self.id {
            Some(id) => id@,
            None => default_id(),
        }
    }

    /// Create a new state machine builder.
    pub fn new() -> (builder: Self)
        ensures
            builder.wf(),
            builder.id is None,
            builder.transitions@.len() == 0,
            builder.fail_callback is None,
            builder.state_actions@.len() == 0,
            builder.state_timeouts@.len() == 0,
    {
        StateMachineBuilder {
            id: None,
            transitions: Vec::new(),
            fail_callback: None,
            state_actions: Vec::new(),
            state_timeouts: Vec::new(),
        }
    }

    /// Set the ID of the state machine.
    pub fn id(self, id: &str) -> (builder: Self)
        ensures
            builder.chosen_id() == id@,
            builder.id is Some,
            builder.transitions == self.transitions,
            builder.fail_callback == self.fail_callback,
            builder.state_actions == self.state_actions,
            builder.state_timeouts == self.state_timeouts,
    {
        let mut builder = self;
        builder.id = Some(String::from_str(id));
        builder
    }

    /// Set fail callback.
    pub fn set_fail_callback(&mut self, callback: FailCallback<S, E, C>) -> (builder: &mut Self)
        requires
            old(self).wf(),
            forall|from: &S, event: &E, context: &C| #[trigger]
                callback.performable(from, event, context),
        ensures
            builder.wf(),
            builder.fail_callback == Some(callback),
            builder.id == old(self).id,
            builder.transitions == old(self).transitions,
            builder.state_actions == old(self).state_actions,
            builder.state_timeouts == old(self).state_timeouts,
            *final(self) == *final(builder),
    {
        let installed = Some(callback);
        self.fail_callback = installed;
        self
    }

    /// Build the state machine: the transitions in the order of their
    /// declaration, the hooks, timeouts and failure callback as collected,
    /// no firing recorded yet.
    pub fn build(self) -> (machine: StateMachine<S, E, C>)
        requires
            self.wf(),
        ensures
            machine.wf(),
            machine.name() == self.chosen_id(),
            machine.rules() == self.transitions@,
            machine.on_failure() == self.fail_callback,
            machine.hooks() == self.state_actions@,
            machine.timeouts() == self.state_timeouts@,
            machine.past() == Seq::<TransitionRecord<S, E>>::empty(),
            machine.measured() == StateMachineMetrics::nothing(),
    {
        let id = match self.id {
            Some(id) => id,
            None => String::from_str("StateMachine"),
        };
        StateMachine::assemble(
            id,
            self.transitions,
            self.fail_callback,
            self.state_actions,
            self.state_timeouts,
        )
    }

    /// Registers a transition after those registered so far.
    pub fn add_transition(&mut self, transition: Transition<S, E, C>)
        ensures
            final(self).transitions@ == old(self).transitions@.push(transition),
            final(self).id == old(self).id,
            final(self).fail_callback == old(self).fail_callback,
            final(self).state_actions == old(self).state_actions,
            final(self).state_timeouts == old(self).state_timeouts,
    {
        self.transitions.push(transition);
    }
}

impl<S: State, E: Event, C: Context> Default for StateMachineBuilder<S, E, C> {
    fn default() -> (builder: Self)
        ensures
            builder.wf(),
            builder.id is None,
            builder.transitions@.len() == 0,
            builder.fail_callback is None,
            builder.state_actions@.len() == 0,
            builder.state_timeouts@.len() == 0,
    {
        Self::new()
    }
}

/// What the declaration of a transition has collected, and what the
/// transition it registers must then look like.
pub open spec fn declared<S, E, C>(
    transition: Transition<S, E, C>,
    from: S,
    to: S,
    event: E,
    condition: Option<Condition<S, E, C>>,
    transition_type: TransitionType,
    priority: u32,
) -> bool {
    &&& transition.from == from
    &&& transition.to == to
    &&& transition.event == event
    &&& transition.condition == condition
    &&& transition.transition_type == transition_type
    &&& transition.priority == priority
}

/// The boxed action can be performed exactly where the closure can be
/// called.
pub open spec fn performs<S, E, C, F: Fn(&S, &E, &C)>(boxed: Option<Action<S, E, C>>, action: F) -> bool {
    boxed matches Some(registered) && forall|from: &S, event: &E, context: &C| #[trigger]
        registered.performable(from, event, context) == call_requires(
            action,
            (from, event, context),
        )
}

/// The boxed guard can be evaluated where the closure can be called, and
/// answers as the closure does.
pub open spec fn answers<S, E, C, F: Fn(&S, &E, &C) -> bool>(
    boxed: Option<Condition<S, E, C>>,
    guard: F,
) -> bool {
    boxed matches Some(registered) && (forall|from: &S, event: &E, context: &C| #[trigger]
        registered.defined_on(from, event, context) == call_requires(
            guard,
            (from, event, context),
        )) && (forall|from: &S, event: &E, context: &C, accepted: bool| #[trigger]
        registered.may_answer(from, event, context, accepted) == call_ensures(
            guard,
            (from, event, context),
            accepted,
        ))
}

/// The guard, where there is one, can be evaluated in the state and on the
/// event, whatever the context.
pub open spec fn guard_fits<S, E, C>(condition: Option<Condition<S, E, C>>, from: S, event: E) -> bool {
    condition matches Some(guard) ==> forall|context: &C| #[trigger]
        guard.defined_on(&from, &event, context)
}

impl<S: State, E: Event, C: Context> StateMachineBuilder<S, E, C> {
    /// Add entry action for a state, in place of the one it may have.
    pub fn with_entry_action<F>(&mut self, state: S, action: F) -> (builder: &mut Self) where
        F: Fn(&S, &C) + Send + Sync + 'static,

        requires
            old(self).wf(),
            by_value::<S>(),
            forall|context: &C| #[trigger] call_requires(action, (&state, context)),
        ensures
            builder.wf(),
            invokes(entry_hook_of(builder.state_actions@, state), action),
            same_hooks_but(
                builder.state_actions@,
                old(self).state_actions@,
                state,
                HookKind::Entry,
            ),
            builder.id == old(self).id,
            builder.transitions == old(self).transitions,
            builder.fail_callback == old(self).fail_callback,
            builder.state_timeouts == old(self).state_timeouts,
            *final(self) == *final(builder),
    {
        let hook = hook_of_fn(action);
        install_hook(&mut self.state_actions, state, HookKind::Entry, hook);
        self
    }

    /// Add exit action for a state, in place of the one it may have.
    pub fn with_exit_action<F>(&mut self, state: S, action: F) -> (builder: &mut Self) where
        F: Fn(&S, &C) + Send + Sync + 'static,

        requires
            old(self).wf(),
            by_value::<S>(),
            forall|context: &C| #[trigger] call_requires(action, (&state, context)),
        ensures
            builder.wf(),
            invokes(exit_hook_of(builder.state_actions@, state), action),
            same_hooks_but(
                builder.state_actions@,
                old(self).state_actions@,
                state,
                HookKind::Exit,
            ),
            builder.id == old(self).id,
            builder.transitions == old(self).transitions,
            builder.fail_callback == old(self).fail_callback,
            builder.state_timeouts == old(self).state_timeouts,
            *final(self) == *final(builder),
    {
        let hook = hook_of_fn(action);
        install_hook(&mut self.state_actions, state, HookKind::Exit, hook);
        self
    }

    /// Set timeout for a state, in place of the one it may have: after
    /// `duration` in `state`, `timeout_event` is due and leads to
    /// `target_state`.
    pub fn with_state_timeout(
        &mut self,
        state: S,
        duration: Duration,
        target_state: S,
        timeout_event: E,
    ) -> (builder: &mut Self)
        requires
            old(self).wf(),
            by_value::<S>(),
        ensures
            builder.wf(),
            timeout_of(builder.state_timeouts@, state) == Some(
                TimeoutSpec { state, duration, target: target_state, event: timeout_event },
            ),
            forall|other: S|
                other != state ==> #[trigger] timeout_of(builder.state_timeouts@, other)
                    == timeout_of(old(self).state_timeouts@, other),
            builder.id == old(self).id,
            builder.transitions == old(self).transitions,
            builder.fail_callback == old(self).fail_callback,
            builder.state_actions == old(self).state_actions,
            *final(self) == *final(builder),
    {
        install_timeout(&mut self.state_timeouts, state, duration, target_state, timeout_event);
        self
    }
}

/// The action, where there is one, can be performed in the state and on
/// the event, whatever the context.
pub open spec fn action_fits<S, E, C>(action: Option<Action<S, E, C>>, from: S, event: E) -> bool {
    action matches Some(effect) ==> forall|context: &C| #[trigger]
        effect.performable(&from, &event, context)
}

/// Builder for external transitions.
#[verifier::reject_recursive_types(S)]
#[verifier::reject_recursive_types(E)]
#[verifier::reject_recursive_types(C)]
pub struct ExternalTransitionBuilder<'a, S, E, C> {
    pub builder: &'a mut StateMachineBuilder<S, E, C>,
    pub from: Option<S>,
    pub to: Option<S>,
    pub event: Option<E>,
    pub condition: Option<Condition<S, E, C>>,
    pub action: Option<Action<S, E, C>>,
    pub priority: u32,
}

impl<'a, S: State, E: Event, C: Context> ExternalTransitionBuilder<'a, S, E, C> {
    /// A declaration that has collected nothing yet.
    pub fn new(builder: &'a mut StateMachineBuilder<S, E, C>) -> (step: Self)
        ensures
            *step.builder == *old(builder),
            *final(builder) == *final(step.builder),
            step.from is None,
            step.to is None,
            step.event is None,
            step.condition is None,
            step.action is None,
            step.priority == 0,
    {
        ExternalTransitionBuilder {
            builder,
            from: None,
            to: None,
            event: None,
            condition: None,
            action: None,
            priority: 0,
        }
    }

    /// The state the transition leaves.
    pub fn from(self, state: S) -> (step: Self)
        ensures
            step.from == Some(state),
            step.builder == self.builder,
            step.to == self.to,
            step.event == self.event,
            step.condition == self.condition,
            step.action == self.action,
            step.priority == self.priority,
    {
        let mut step = self;
        step.from = Some(state);
        step
    }

    /// The state the transition reaches.
    pub fn to(self, state: S) -> (step: Self)
        ensures
            step.to == Some(state),
            step.builder == self.builder,
            step.from == self.from,
            step.event == self.event,
            step.condition == self.condition,
            step.action == self.action,
            step.priority == self.priority,
    {
        let mut step = self;
        step.to = Some(state);
        step
    }

    /// The event that triggers the transition.
    pub fn on(self, event: E) -> (step: Self)
        ensures
            step.event == Some(event),
            step.builder == self.builder,
            step.from == self.from,
            step.to == self.to,
            step.condition == self.condition,
            step.action == self.action,
            step.priority == self.priority,
    {
        let mut step = self;
        step.event = Some(event);
        step
    }

    /// The guard of the transition.
    pub fn when<F>(self, condition: F) -> (step: Self) where
        F: Fn(&S, &E, &C) -> bool + Send + Sync + 'static,

        ensures
            answers(step.condition, condition),
            step.builder == self.builder,
            step.from == self.from,
            step.to == self.to,
            step.event == self.event,
            step.action == self.action,
            step.priority == self.priority,
    {
        let mut step = self;
        let boxed = condition_of(condition);
        let guard = Some(boxed);
        step.condition = guard;
        step
    }

    /// The priority of the transition; it is zero unless given.
    pub fn with_priority(self, priority: u32) -> (step: Self)
        ensures
            step.priority == priority,
            step.builder == self.builder,
            step.from == self.from,
            step.to == self.to,
            step.event == self.event,
            step.condition == self.condition,
            step.action == self.action,
    {
        let mut step = self;
        step.priority = priority;
        step
    }

    /// Gives the action and registers the transition with the machine
    /// builder, after the transitions registered before.
    pub fn perform<F>(self, action: F) -> (builder: &'a mut StateMachineBuilder<S, E, C>) where
        F: Fn(&S, &E, &C) + Send + Sync + 'static,

        requires
            old(self.builder).wf(),
            self.from is Some,
            self.to is Some,
            self.event is Some,
            guard_fits(self.condition, self.from->0, self.event->0),
            forall|context: &C| #[trigger]
                call_requires(action, (&self.from->0, &self.event->0, context)),
        ensures
            builder.wf(),
            builder.transitions@.len() == old(self.builder).transitions@.len() + 1,
            builder.transitions@.drop_last() == old(self.builder).transitions@,
            declared(
                builder.transitions@.last(),
                self.from->0,
                self.to->0,
                self.event->0,
                self.condition,
                TransitionType::External,
                self.priority,
            ),
            performs(builder.transitions@.last().action, action),
            builder.id == old(self.builder).id,
            builder.fail_callback == old(self.builder).fail_callback,
            builder.state_actions == old(self.builder).state_actions,
            builder.state_timeouts == old(self.builder).state_timeouts,
            *final(builder) == *final(self.builder),
    {
        let mut step = self;
        let boxed = action_of(action);
        let registered = Some(boxed);
        step.action = registered;
        step.build()
    }

    /// Registers the transition that was declared.
    fn build(self) -> (builder: &'a mut StateMachineBuilder<S, E, C>)
        requires
            old(self.builder).wf(),
            self.from is Some,
            self.to is Some,
            self.event is Some,
            guard_fits(self.condition, self.from->0, self.event->0),
            action_fits(self.action, self.from->0, self.event->0),
        ensures
            builder.wf(),
            builder.transitions@ == old(self.builder).transitions@.push(
                Transition {
                    from: self.from->0,
                    to: self.to->0,
                    event: self.event->0,
                    condition: self.condition,
                    action: self.action,
                    transition_type: TransitionType::External,
                    priority: self.priority,
                },
            ),
            builder.id == old(self.builder).id,
            builder.fail_callback == old(self.builder).fail_callback,
            builder.state_actions == old(self.builder).state_actions,
            builder.state_timeouts == old(self.builder).state_timeouts,
            *final(builder) == *final(self.builder),
    {
        let ExternalTransitionBuilder { builder, from, to, event, condition, action, priority } =
            self;
        let transition = Transition::new(
            from.unwrap(),
            to.unwrap(),
            event.unwrap(),
            condition,
            action,
            TransitionType::External,
            priority,
        );
        builder.add_transition(transition);
        builder
    }
}

impl<S: State, E: Event, C: Context> StateMachineBuilder<S, E, C> {
    /// Start building an external transition.
    pub fn external_transition(&mut self) -> (step: ExternalTransitionBuilder<'_, S, E, C>)
        ensures
            *step.builder == *old(self),
            *final(self) == *final(step.builder),
            step.from is None,
            step.to is None,
            step.event is None,
            step.condition is None,
            step.action is None,
            step.priority == 0,
    {
        ExternalTransitionBuilder::new(self)
    }
}

/// Builder for internal transitions.
#[verifier::reject_recursive_types(S)]
#[verifier::reject_recursive_types(E)]
#[verifier::reject_recursive_types(C)]
pub struct InternalTransitionBuilder<'a, S, E, C> {
    pub builder: &'a mut StateMachineBuilder<S, E, C>,
    pub within: Option<S>,
    pub event: Option<E>,
    pub condition: Option<Condition<S, E, C>>,
    pub action: Option<Action<S, E, C>>,
    pub priority: u32,
}

impl<'a, S: State, E: Event, C: Context> InternalTransitionBuilder<'a, S, E, C> {
    /// A declaration that has collected nothing yet.
    pub fn new(builder: &'a mut StateMachineBuilder<S, E, C>) -> (step: Self)
        ensures
            *step.builder == *old(builder),
            *final(builder) == *final(step.builder),
            step.within is None,
            step.event is None,
            step.condition is None,
            step.action is None,
            step.priority == 0,
    {
        InternalTransitionBuilder {
            builder,
            within: None,
            event: None,
            condition: None,
            action: None,
            priority: 0,
        }
    }

    /// The state the transition stays in.
    pub fn within(self, state: S) -> (step: Self)
        ensures
            step.within == Some(state),
            step.builder == self.builder,
            step.event == self.event,
            step.condition == self.condition,
            step.action == self.action,
            step.priority == self.priority,
    {
        let mut step = self;
        step.within = Some(state);
        step
    }

    /// The event that triggers the transition.
    pub fn on(self, event: E) -> (step: Self)
        ensures
            step.event == Some(event),
            step.builder == self.builder,
            step.within == self.within,
            step.condition == self.condition,
            step.action == self.action,
            step.priority == self.priority,
    {
        let mut step = self;
        step.event = Some(event);
        step
    }

    /// The guard of the transition.
    pub fn when<F>(self, condition: F) -> (step: Self) where
        F: Fn(&S, &E, &C) -> bool + Send + Sync + 'static,

        ensures
            answers(step.condition, condition),
            step.builder == self.builder,
            step.within == self.within,
            step.event == self.event,
            step.action == self.action,
            step.priority == self.priority,
    {
        let mut step = self;
        let boxed = condition_of(condition);
        let guard = Some(boxed);
        step.condition = guard;
        step
    }

    /// The priority of the transition; it is zero unless given.
    pub fn with_priority(self, priority: u32) -> (step: Self)
        ensures
            step.priority == priority,
            step.builder == self.builder,
            step.within == self.within,
            step.event == self.event,
            step.condition == self.condition,
            step.action == self.action,
    {
        let mut step = self;
        step.priority = priority;
        step
    }

    /// Gives the action and registers the transition with the machine
    /// builder, after the transitions registered before. The transition
    /// leads from the state back to it.
    pub fn perform<F>(self, action: F) -> (builder: &'a mut StateMachineBuilder<S, E, C>) where
        F: Fn(&S, &E, &C) + Send + Sync + 'static,

        requires
            old(self.builder).wf(),
            by_value::<S>(),
            self.within is Some,
            self.event is Some,
            guard_fits(self.condition, self.within->0, self.event->0),
            forall|context: &C| #[trigger]
                call_requires(action, (&self.within->0, &self.event->0, context)),
        ensures
            builder.wf(),
            builder.transitions@.len() == old(self.builder).transitions@.len() + 1,
            builder.transitions@.drop_last() == old(self.builder).transitions@,
            declared(
                builder.transitions@.last(),
                self.within->0,
                self.within->0,
                self.event->0,
                self.condition,
                TransitionType::Internal,
                self.priority,
            ),
            performs(builder.transitions@.last().action, action),
            builder.id == old(self.builder).id,
            builder.fail_callback == old(self.builder).fail_callback,
            builder.state_actions == old(self.builder).state_actions,
            builder.state_timeouts == old(self.builder).state_timeouts,
            *final(builder) == *final(self.builder),
    {
        let mut step = self;
        let boxed = action_of(action);
        let registered = Some(boxed);
        step.action = registered;
        step.build()
    }

    /// Registers the transition that was declared.
    fn build(self) -> (builder: &'a mut StateMachineBuilder<S, E, C>)
        requires
            old(self.builder).wf(),
            by_value::<S>(),
            self.within is Some,
            self.event is Some,
            guard_fits(self.condition, self.within->0, self.event->0),
            action_fits(self.action, self.within->0, self.event->0),
        ensures
            builder.wf(),
            builder.transitions@ == old(self.builder).transitions@.push(
                Transition {
                    from: self.within->0,
                    to: self.within->0,
                    event: self.event->0,
                    condition: self.condition,
                    action: self.action,
                    transition_type: TransitionType::Internal,
                    priority: self.priority,
                },
            ),
            builder.id == old(self.builder).id,
            builder.fail_callback == old(self.builder).fail_callback,
            builder.state_actions == old(self.builder).state_actions,
            builder.state_timeouts == old(self.builder).state_timeouts,
            *final(builder) == *final(self.builder),
    {
        let InternalTransitionBuilder { builder, within, event, condition, action, priority } = self;
        let state = within.unwrap();
        let transition = Transition::new(
            copy_of(&state),
            state,
            event.unwrap(),
            condition,
            action,
            TransitionType::Internal,
            priority,
        );
        builder.add_transition(transition);
        builder
    }
}

/// The guard of a transition declared for several states stands for the
/// guard that was declared: there is one exactly if one was declared, and
/// it can be evaluated where that one can, with the same answers.
pub open spec fn echoes<S, E, C>(
    copy: Option<Condition<S, E, C>>,
    declared: Option<Condition<S, E, C>>,
) -> bool {
    match declared {
        None => copy is None,
        Some(guard) => copy matches Some(held) && (forall|from: &S, event: &E, context: &C| #[trigger]
            held.defined_on(from, event, context) == guard.defined_on(from, event, context))
            && (forall|from: &S, event: &E, context: &C, accepted: bool| #[trigger]
            held.may_answer(from, event, context, accepted) == guard.may_answer(
                from,
                event,
                context,
                accepted,
            )),
    }
}

/// The action of a transition declared for several states stands for the
/// action that was declared: there is one exactly if one was declared, and
/// it can be performed where that one can.
pub open spec fn repeats<S, E, C>(
    copy: Option<Action<S, E, C>>,
    declared: Option<Action<S, E, C>>,
) -> bool {
    match declared {
        None => copy is None,
        Some(action) => copy matches Some(held) && forall|from: &S, event: &E, context: &C| #[trigger]
            held.performable(from, event, context) == action.performable(from, event, context),
    }
}

/// What one of the transitions looks like that a declaration for several
/// states registers.
pub open spec fn declared_among<S, E, C>(
    transition: Transition<S, E, C>,
    from: S,
    to: S,
    event: E,
    condition: Option<Condition<S, E, C>>,
    priority: u32,
) -> bool {
    &&& transition.from == from
    &&& transition.to == to
    &&& transition.event == event
    &&& transition.transition_type == TransitionType::External
    &&& transition.priority == priority
    &&& echoes(transition.condition, condition)
}

/// Builder for external transitions from multiple states.
#[verifier::reject_recursive_types(S)]
#[verifier::reject_recursive_types(E)]
#[verifier::reject_recursive_types(C)]
pub struct ExternalTransitionsBuilder<'a, S, E, C> {
    pub builder: &'a mut StateMachineBuilder<S, E, C>,
    pub from_states: Vec<S>,
    pub to: Option<S>,
    pub event: Option<E>,
    pub condition: Option<Condition<S, E, C>>,
    pub action: Option<Action<S, E, C>>,
    pub priority: u32,
}

impl<'a, S: State + 'static, E: Event + 'static, C: Context + 'static> ExternalTransitionsBuilder<
    'a,
    S,
    E,
    C,
> {
    /// A declaration that has collected nothing yet.
    pub fn new(builder: &'a mut StateMachineBuilder<S, E, C>) -> (step: Self)
        ensures
            *step.builder == *old(builder),
            *final(builder) == *final(step.builder),
            step.from_states@.len() == 0,
            step.to is None,
            step.event is None,
            step.condition is None,
            step.action is None,
            step.priority == 0,
    {
        ExternalTransitionsBuilder {
            builder,
            from_states: Vec::new(),
            to: None,
            event: None,
            condition: None,
            action: None,
            priority: 0,
        }
    }

    /// The states the transitions leave, one transition for each.
    pub fn from_among(self, states: Vec<S>) -> (step: Self)
        ensures
            step.from_states == states,
            step.builder == self.builder,
            step.to == self.to,
            step.event == self.event,
            step.condition == self.condition,
            step.action == self.action,
            step.priority == self.priority,
    {
        let mut step = self;
        step.from_states = states;
        step
    }

    /// The state the transitions reach.
    pub fn to(self, state: S) -> (step: Self)
        ensures
            step.to == Some(state),
            step.builder == self.builder,
            step.from_states == self.from_states,
            step.event == self.event,
            step.condition == self.condition,
            step.action == self.action,
            step.priority == self.priority,
    {
        let mut step = self;
        step.to = Some(state);
        step
    }

    /// The event that triggers the transitions.
    pub fn on(self, event: E) -> (step: Self)
        ensures
            step.event == Some(event),
            step.builder == self.builder,
            step.from_states == self.from_states,
            step.to == self.to,
            step.condition == self.condition,
            step.action == self.action,
            step.priority == self.priority,
    {
        let mut step = self;
        step.event = Some(event);
        step
    }

    /// The guard of the transitions.
    pub fn when<F>(self, condition: F) -> (step: Self) where
        F: Fn(&S, &E, &C) -> bool + Send + Sync + 'static,

        ensures
            answers(step.condition, condition),
            step.builder == self.builder,
            step.from_states == self.from_states,
            step.to == self.to,
            step.event == self.event,
            step.action == self.action,
            step.priority == self.priority,
    {
        let mut step = self;
        let boxed = condition_of(condition);
        let guard = Some(boxed);
        step.condition = guard;
        step
    }

    /// The priority of the transitions; it is zero unless given.
    pub fn with_priority(self, priority: u32) -> (step: Self)
        ensures
            step.priority == priority,
            step.builder == self.builder,
            step.from_states == self.from_states,
            step.to == self.to,
            step.event == self.event,
            step.condition == self.condition,
            step.action == self.action,
    {
        let mut step = self;
        step.priority = priority;
        step
    }

    /// Gives the action and registers one transition for each of the states
    /// to leave, in their order, after the transitions registered before.
    /// All of them share the guard and the action.
    pub fn perform<F>(self, action: F) -> (builder: &'a mut StateMachineBuilder<S, E, C>) where
        F: Fn(&S, &E, &C) + Send + Sync + 'static,

        requires
            old(self.builder).wf(),
            by_value::<S>(),
            by_value::<E>(),
            self.to is Some,
            self.event is Some,
            forall|k: int|
                0 <= k < self.from_states@.len() ==> guard_fits(
                    self.condition,
                    #[trigger] self.from_states@[k],
                    self.event->0,
                ),
            forall|k: int, context: &C|
                0 <= k < self.from_states@.len() ==> #[trigger] call_requires(
                    action,
                    (&self.from_states@[k], &self.event->0, context),
                ),
        ensures
            builder.wf(),
            builder.transitions@.len() == old(self.builder).transitions@.len()
                + self.from_states@.len(),
            builder.transitions@.take(old(self.builder).transitions@.len() as int) == old(
                self.builder,
            ).transitions@,
            forall|k: int|
                0 <= k < self.from_states@.len() ==> {
                    let transition = #[trigger] builder.transitions@[old(
                        self.builder,
                    ).transitions@.len() + k];
                    &&& declared_among(
                        transition,
                        self.from_states@[k],
                        self.to->0,
                        self.event->0,
                        self.condition,
                        self.priority,
                    )
                    &&& performs(transition.action, action)
                },
            builder.id == old(self.builder).id,
            builder.fail_callback == old(self.builder).fail_callback,
            builder.state_actions == old(self.builder).state_actions,
            builder.state_timeouts == old(self.builder).state_timeouts,
            *final(builder) == *final(self.builder),
    {
        let mut step = self;
        let boxed = action_of(action);
        let registered = Some(boxed);
        step.action = registered;
        step.build()
    }

    /// Registers the transitions that were declared, one for each of the
    /// states to leave. Each holds a guard and an action of its own, which
    /// ask and perform the ones declared.
    fn build(self) -> (builder: &'a mut StateMachineBuilder<S, E, C>)
        requires
            old(self.builder).wf(),
            by_value::<S>(),
            by_value::<E>(),
            self.to is Some,
            self.event is Some,
            forall|k: int|
                0 <= k < self.from_states@.len() ==> guard_fits(
                    self.condition,
                    #[trigger] self.from_states@[k],
                    self.event->0,
                ),
            forall|k: int|
                0 <= k < self.from_states@.len() ==> action_fits(
                    self.action,
                    #[trigger] self.from_states@[k],
                    self.event->0,
                ),
        ensures
            builder.wf(),
            builder.transitions@.len() == old(self.builder).transitions@.len()
                + self.from_states@.len(),
            builder.transitions@.take(old(self.builder).transitions@.len() as int) == old(
                self.builder,
            ).transitions@,
            forall|k: int|
                0 <= k < self.from_states@.len() ==> {
                    let transition = #[trigger] builder.transitions@[old(
                        self.builder,
                    ).transitions@.len() + k];
                    &&& declared_among(
                        transition,
                        self.from_states@[k],
                        self.to->0,
                        self.event->0,
                        self.condition,
                        self.priority,
                    )
                    &&& repeats(transition.action, self.action)
                },
            builder.id == old(self.builder).id,
            builder.fail_callback == old(self.builder).fail_callback,
            builder.state_actions == old(self.builder).state_actions,
            builder.state_timeouts == old(self.builder).state_timeouts,
            *final(builder) == *final(self.builder),
    {
        let ExternalTransitionsBuilder {
            builder,
            from_states,
            to,
            event,
            condition,
            action,
            priority,
        } = self;
        let to = to.unwrap();
        let event = event.unwrap();
        let shared_guard = match condition {
            Some(guard) => Some(Arc::new(guard)),
            None => None,
        };
        let shared_effect = match action {
            Some(effect) => Some(Arc::new(effect)),
            None => None,
        };
        let ghost before = builder.transitions@;
        let mut i: usize = 0;
        while i < from_states.len()
            invariant
                by_value::<S>(),
                by_value::<E>(),
                0 <= i <= from_states@.len(),
                from_states@ == self.from_states@,
                to == self.to->0,
                event == self.event->0,
                priority == self.priority,
                before == old(self.builder).transitions@,
                builder.wf(),
                builder.transitions@.len() == before.len() + i,
                builder.transitions@.take(before.len() as int) == before,
                match self.condition {
                    None => shared_guard is None,
                    Some(guard) => shared_guard matches Some(handle) && (forall|
                        from: &S,
                        event: &E,
                        context: &C,
                    | #[trigger]
                        handle.defined_on(from, event, context) == guard.defined_on(
                            from,
                            event,
                            context,
                        )) && (forall|from: &S, event: &E, context: &C, accepted: bool| #[trigger]
                        handle.may_answer(from, event, context, accepted) == guard.may_answer(
                            from,
                            event,
                            context,
                            accepted,
                        )),
                },
                match self.action {
                    None => shared_effect is None,
                    Some(effect) => shared_effect matches Some(handle) && (forall|
                        from: &S,
                        event: &E,
                        context: &C,
                    | #[trigger]
                        handle.performable(from, event, context) == effect.performable(
                            from,
                            event,
                            context,
                        )),
                },
                forall|k: int|
                    0 <= k < self.from_states@.len() ==> guard_fits(
                        self.condition,
                        #[trigger] self.from_states@[k],
                        self.event->0,
                    ),
                forall|k: int|
                    0 <= k < self.from_states@.len() ==> action_fits(
                        self.action,
                        #[trigger] self.from_states@[k],
                        self.event->0,
                    ),
                forall|k: int|
                    0 <= k < i ==> {
                        let transition = #[trigger] builder.transitions@[before.len() + k];
                        &&& declared_among(
                            transition,
                            self.from_states@[k],
                            self.to->0,
                            self.event->0,
                            self.condition,
                            self.priority,
                        )
                        &&& repeats(transition.action, self.action)
                    },
                builder.id == old(self.builder).id,
                builder.fail_callback == old(self.builder).fail_callback,
                builder.state_actions == old(self.builder).state_actions,
                builder.state_timeouts == old(self.builder).state_timeouts,
                *final(builder) == *final(self.builder),
            decreases from_states@.len() - i,
        {
            let guard = match &shared_guard {
                Some(handle) => Some(shared_condition(handle)),
                None => None,
            };
            let effect = match &shared_effect {
                Some(handle) => Some(shared_action(handle)),
                None => None,
            };
            let transition = Transition::new(
                copy_of(&from_states[i]),
                copy_of(&to),
                copy_of(&event),
                guard,
                effect,
                TransitionType::External,
                priority,
            );
            let ghost grown = builder.transitions@;
            builder.add_transition(transition);
            proof {
                assert(echoes(transition.condition, self.condition));
                assert(repeats(transition.action, self.action));
                assert(guard_fits(self.condition, self.from_states@[i as int], self.event->0));
                assert(action_fits(self.action, self.from_states@[i as int], self.event->0));
                assert(transition.wf());
                assert(builder.transitions@.take(before.len() as int) =~= grown.take(
                    before.len() as int,
                ));
                assert forall|k: int| 0 <= k < i + 1 implies {
                    let transition = #[trigger] builder.transitions@[before.len() + k];
                    &&& declared_among(
                        transition,
                        self.from_states@[k],
                        self.to->0,
                        self.event->0,
                        self.condition,
                        self.priority,
                    )
                    &&& repeats(transition.action, self.action)
                } by {
                    if k < i {
                        assert(builder.transitions@[before.len() + k] == grown[before.len() + k]);
                    }
                }
            }
            i = i + 1;
        }
        builder
    }
}

impl<S: State, E: Event, C: Context> StateMachineBuilder<S, E, C> {
    /// Start building an internal transition.
    pub fn internal_transition(&mut self) -> (step: InternalTransitionBuilder<'_, S, E, C>)
        ensures
            *step.builder == *old(self),
            *final(self) == *final(step.builder),
            step.within is None,
            step.event is None,
            step.condition is None,
            step.action is None,
            step.priority == 0,
    {
        InternalTransitionBuilder::new(self)
    }
}

impl<S: State + 'static, E: Event + 'static, C: Context + 'static> StateMachineBuilder<S, E, C> {
    /// Start building external transitions from multiple states.
    pub fn external_transitions(&mut self) -> (step: ExternalTransitionsBuilder<'_, S, E, C>)
        ensures
            *step.builder == *old(self),
            *final(self) == *final(step.builder),
            step.from_states@.len() == 0,
            step.to is None,
            step.event is None,
            step.condition is None,
            step.action is None,
            step.priority == 0,
    {
        ExternalTransitionsBuilder::new(self)
    }
}

/// Factory for creating state machine builders.
pub struct StateMachineBuilderFactory;

impl StateMachineBuilderFactory {
    /// A builder that has collected nothing yet.
    pub fn create<S: State, E: Event, C: Context>() -> (builder: StateMachineBuilder<S, E, C>)
        ensures
            builder.wf(),
            builder.id is None,
            builder.transitions@.len() == 0,
            builder.fail_callback is None,
            builder.state_actions@.len() == 0,
            builder.state_timeouts@.len() == 0,
    {
        StateMachineBuilder::new()
    }
}

} // verus!
