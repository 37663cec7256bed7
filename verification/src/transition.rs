//! Transitions, the records kept of firings, and the rule by which one
//! transition is selected among those registered for a state and an event.

use crate::callbacks::{Action, Condition};
use std::time::Instant;
use vstd::prelude::*;

verus! {

/// Type of transition.
#[derive(Debug, Clone, PartialEq)]
pub enum TransitionType {
    /// Leads from one state to another.
    External,
    /// Stays within its state.
    Internal,
}

/// One registered rule: in state `from`, on `event`, go to `to`, provided
/// the guard accepts; run the action on the way.
#[verifier::reject_recursive_types(S)]
#[verifier::reject_recursive_types(E)]
#[verifier::reject_recursive_types(C)]
pub struct Transition<S, E, C> {
    pub from: S,
    pub to: S,
    pub event: E,
    pub condition: Option<Condition<S, E, C>>,
    pub action: Option<Action<S, E, C>>,
    pub transition_type: TransitionType,
    pub priority: u32,
}

/// What is remembered of one firing.
#[derive(Debug, Clone)]
pub struct TransitionRecord<S, E> {
    pub from: S,
    pub to: S,
    pub event: E,
    pub timestamp: Instant,
    pub success: bool,
}

impl<S, E, C> Transition<S, E, C> {
    /// A transition made of its parts.
    pub fn new(
        from: S,
        to: S,
        event: E,
        condition: Option<Condition<S, E, C>>,
        action: Option<Action<S, E, C>>,
        transition_type: TransitionType,
        priority: u32,
    ) -> (transition: Self)
        ensures
            transition == (Transition {
                from,
                to,
                event,
                condition,
                action,
                transition_type,
                priority,
            }),
    {
        Transition { from, to, event, condition, action, transition_type, priority }
    }

    /// The guard and the action can be called whenever the transition is a
    /// candidate, and an internal transition stays in its state.
    pub open spec fn wf(self) -> bool {
        &&& self.condition matches Some(guard) ==> forall|context: &C| #[trigger]
            guard.defined_on(&self.from, &self.event, context)
        &&& self.action matches Some(action) ==> forall|context: &C| #[trigger]
            action.performable(&self.from, &self.event, context)
        &&& self.transition_type == TransitionType::Internal ==> self.to == self.from
    }

    /// The transition is registered for this state and event.
    pub open spec fn keyed(self, from: S, event: E) -> bool {
        self.from == from && self.event == event
    }

    /// The guard, if there is one, can accept.
    pub open spec fn may_accept(self, from: S, event: E, context: C) -> bool {
        match self.condition {
            None => true,
            Some(guard) => guard.may_answer(&from, &event, &context, true),
        }
    }

    /// There is a guard and it can turn the firing down.
    pub open spec fn may_reject(self, from: S, event: E, context: C) -> bool {
        match self.condition {
            None => false,
            Some(guard) => guard.may_answer(&from, &event, &context, false),
        }
    }

    /// The guard, if there is one, accepts whenever it is asked.
    pub open spec fn accepts(self, from: S, event: E, context: C) -> bool {
        !self.may_reject(from, event, context)
    }

    /// There is a guard and it rejects whenever it is asked.
    pub open spec fn rejects(self, from: S, event: E, context: C) -> bool {
        !self.may_accept(from, event, context)
    }
}

/// Some transition is registered for the state and event.
pub open spec fn registered<S, E, C>(rules: Seq<Transition<S, E, C>>, from: S, event: E) -> bool {
    exists|i: int| 0 <= i < rules.len() && (#[trigger] rules[i]).keyed(from, event)
}

/// Transition `i` is tried before transition `j`: it has the higher
/// priority, or the same and was declared earlier.
pub open spec fn precedes<S, E, C>(rules: Seq<Transition<S, E, C>>, i: int, j: int) -> bool {
    rules[i].priority > rules[j].priority || (rules[i].priority == rules[j].priority && i < j)
}

/// `order` lists the transitions registered for the state and event, each
/// once, in the order in which they are tried.
pub open spec fn is_evaluation_order<S, E, C>(
    rules: Seq<Transition<S, E, C>>,
    from: S,
    event: E,
    order: Seq<usize>,
) -> bool {
    &&& forall|k: int|
        0 <= k < order.len() ==> (#[trigger] order[k]) < rules.len() && rules[order[k] as int].keyed(
            from,
            event,
        )
    &&& forall|i: int|
        0 <= i < rules.len() && (#[trigger] rules[i]).keyed(from, event) ==> exists|k: int|
            0 <= k < order.len() && #[trigger] order[k] == i
    &&& forall|a: int, b: int|
        0 <= a < b < order.len() ==> precedes(rules, #[trigger] order[a] as int, #[trigger] order[b] as int)
}

/// Transition `i` can be the one a firing takes: it is registered for the
/// state and event, its guard can accept, and every transition tried before
/// it can have been turned down by its guard.
pub open spec fn selects<S, E, C>(
    rules: Seq<Transition<S, E, C>>,
    from: S,
    event: E,
    context: C,
    i: int,
) -> bool {
    &&& 0 <= i < rules.len()
    &&& rules[i].keyed(from, event)
    &&& rules[i].may_accept(from, event, context)
    &&& forall|j: int|
        0 <= j < rules.len() && (#[trigger] rules[j]).keyed(from, event) && precedes(rules, j, i)
            ==> rules[j].may_reject(from, event, context)
}

/// A firing can find no transition to take: every transition registered for
/// the state and event can be turned down by its guard.
pub open spec fn rejects_all<S, E, C>(
    rules: Seq<Transition<S, E, C>>,
    from: S,
    event: E,
    context: C,
) -> bool {
    forall|j: int|
        0 <= j < rules.len() && (#[trigger] rules[j]).keyed(from, event) ==> rules[j].may_reject(
            from,
            event,
            context,
        )
}

} // verus!
