//! Caller-supplied behaviour: guards, actions and state hooks.
//!
//! Each kind of callback is a trait that every suitable closure implements,
//! so a machine can hold callbacks of different closure types side by side.
//! What a callback may be called on, and what a guard may answer, is exactly
//! what the closure's own precondition and postcondition say.

use std::sync::Arc;
use vstd::prelude::*;

verus! {

/// A predicate that decides whether a transition may be taken.
pub trait GuardFn<S, E, C>: Send + Sync {
    /// The guard may be evaluated on these arguments.
    spec fn defined_on(&self, from: &S, event: &E, context: &C) -> bool;

    /// `accepted` is an answer the guard can give on these arguments.
    spec fn may_answer(&self, from: &S, event: &E, context: &C, accepted: bool) -> bool;

    fn evaluate(&self, from: &S, event: &E, context: &C) -> (accepted: bool)
        requires
            self.defined_on(from, event, context),
        ensures
            self.may_answer(from, event, context, accepted),
    ;
}

impl<S, E, C, F> GuardFn<S, E, C> for F where F: Fn(&S, &E, &C) -> bool + Send + Sync {
    open spec fn defined_on(&self, from: &S, event: &E, context: &C) -> bool {
        call_requires(*self, (from, event, context))
    }

    open spec fn may_answer(&self, from: &S, event: &E, context: &C, accepted: bool) -> bool {
        call_ensures(*self, (from, event, context), accepted)
    }

    fn evaluate(&self, from: &S, event: &E, context: &C) -> (accepted: bool) {
        self(from, event, context)
    }
}

/// The side effect of a transition, also the shape of the failure callback.
pub trait ActionFn<S, E, C>: Send + Sync {
    /// The action may be performed on these arguments.
    spec fn performable(&self, from: &S, event: &E, context: &C) -> bool;

    fn perform(&self, from: &S, event: &E, context: &C)
        requires
            self.performable(from, event, context),
    ;
}

impl<S, E, C, F> ActionFn<S, E, C> for F where F: Fn(&S, &E, &C) + Send + Sync {
    open spec fn performable(&self, from: &S, event: &E, context: &C) -> bool {
        call_requires(*self, (from, event, context))
    }

    fn perform(&self, from: &S, event: &E, context: &C) {
        self(from, event, context)
    }
}

/// A callback run when a state is entered or left.
pub trait HookFn<S, C>: Send + Sync {
    /// The hook may be invoked on these arguments.
    spec fn invocable(&self, state: &S, context: &C) -> bool;

    fn invoke(&self, state: &S, context: &C)
        requires
            self.invocable(state, context),
    ;
}

impl<S, C, F> HookFn<S, C> for F where F: Fn(&S, &C) + Send + Sync {
    open spec fn invocable(&self, state: &S, context: &C) -> bool {
        call_requires(*self, (state, context))
    }

    fn invoke(&self, state: &S, context: &C) {
        self(state, context)
    }
}

/// A registered guard.
pub type Condition<S, E, C> = Box<dyn GuardFn<S, E, C>>;

/// A registered transition action.
pub type Action<S, E, C> = Box<dyn ActionFn<S, E, C>>;

/// The callback run when a firing finds no transition to take.
pub type FailCallback<S, E, C> = Box<dyn ActionFn<S, E, C>>;

/// A registered entry or exit hook.
pub type StateHook<S, C> = Box<dyn HookFn<S, C>>;

/// Boxes a closure as a guard that answers as the closure does.
pub fn condition_of<S, E, C, F>(guard: F) -> (condition: Condition<S, E, C>) where
    F: Fn(&S, &E, &C) -> bool + Send + Sync + 'static,

    ensures
        forall|from: &S, event: &E, context: &C| #[trigger]
            condition.defined_on(from, event, context) == call_requires(
                guard,
                (from, event, context),
            ),
        forall|from: &S, event: &E, context: &C, accepted: bool| #[trigger]
            condition.may_answer(from, event, context, accepted) == call_ensures(
                guard,
                (from, event, context),
                accepted,
            ),
{
    let condition: Condition<S, E, C> = Box::new(guard);
    return condition;
}

/// Boxes a closure as an action.
pub fn action_of<S, E, C, F>(action: F) -> (boxed: Action<S, E, C>) where
    F: Fn(&S, &E, &C) + Send + Sync + 'static,

    ensures
        forall|from: &S, event: &E, context: &C| #[trigger]
            boxed.performable(from, event, context) == call_requires(
                action,
                (from, event, context),
            ),
{
    let boxed: Action<S, E, C> = Box::new(action);
    return boxed;
}

/// Boxes a closure as a state hook.
pub fn hook_of_fn<S, C, F>(hook: F) -> (boxed: StateHook<S, C>) where
    F: Fn(&S, &C) + Send + Sync + 'static,

    ensures
        forall|state: &S, context: &C| #[trigger]
            boxed.invocable(state, context) == call_requires(hook, (state, context)),
{
    let boxed: StateHook<S, C> = Box::new(hook);
    return boxed;
}

/// `Arc::clone`: a further handle to the value that `handle` shares. The
/// value itself is not copied, so both handles give the same value.
#[verifier::external_body]
fn another<T>(handle: &Arc<T>) -> (other: Arc<T>)
    ensures
        other == *handle,
{
    Arc::clone(handle)
}

/// A guard that several transitions hold at once.
#[verifier::reject_recursive_types(S)]
#[verifier::reject_recursive_types(E)]
#[verifier::reject_recursive_types(C)]
pub struct SharedCondition<S, E, C> {
    handle: Arc<Condition<S, E, C>>,
}

impl<S, E, C> GuardFn<S, E, C> for SharedCondition<S, E, C> {
    closed spec fn defined_on(&self, from: &S, event: &E, context: &C) -> bool {
        self.handle.defined_on(from, event, context)
    }

    closed spec fn may_answer(&self, from: &S, event: &E, context: &C, accepted: bool) -> bool {
        self.handle.may_answer(from, event, context, accepted)
    }

    fn evaluate(&self, from: &S, event: &E, context: &C) -> (accepted: bool) {
        self.handle.evaluate(from, event, context)
    }
}

/// An action that several transitions hold at once.
#[verifier::reject_recursive_types(S)]
#[verifier::reject_recursive_types(E)]
#[verifier::reject_recursive_types(C)]
pub struct SharedAction<S, E, C> {
    handle: Arc<Action<S, E, C>>,
}

impl<S, E, C> ActionFn<S, E, C> for SharedAction<S, E, C> {
    closed spec fn performable(&self, from: &S, event: &E, context: &C) -> bool {
        self.handle.performable(from, event, context)
    }

    fn perform(&self, from: &S, event: &E, context: &C) {
        self.handle.perform(from, event, context)
    }
}

/// A guard of its own that asks the shared guard.
pub fn shared_condition<S: 'static, E: 'static, C: 'static>(
    handle: &Arc<Condition<S, E, C>>,
) -> (condition: Condition<S, E, C>)
    ensures
        forall|from: &S, event: &E, context: &C| #[trigger]
            condition.defined_on(from, event, context) == handle.defined_on(from, event, context),
        forall|from: &S, event: &E, context: &C, accepted: bool| #[trigger]
            condition.may_answer(from, event, context, accepted) == handle.may_answer(
                from,
                event,
                context,
                accepted,
            ),
{
    let adapter = SharedCondition { handle: another(handle) };
    let condition: Condition<S, E, C> = Box::new(adapter);
    return condition;
}

/// An action of its own that performs the shared action.
pub fn shared_action<S: 'static, E: 'static, C: 'static>(handle: &Arc<Action<S, E, C>>) -> (action:
    Action<S, E, C>)
    ensures
        forall|from: &S, event: &E, context: &C| #[trigger]
            action.performable(from, event, context) == handle.performable(from, event, context),
{
    let adapter = SharedAction { handle: another(handle) };
    let action: Action<S, E, C> = Box::new(adapter);
    return action;
}

} // verus!
