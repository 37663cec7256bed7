//! A generic finite-state-machine engine.
//!
//! Transitions are registered declaratively through a builder. Firing an
//! event in a state selects at most one of them, by guard and priority, runs
//! its action and yields the next state or a typed failure.

pub mod builder;
pub mod callbacks;
pub mod clock;
pub mod error;
pub mod factory;
pub mod hooks;
pub mod laws;
pub mod machine;
pub mod metrics;
pub mod parallel;
pub mod render;
pub mod transition;
pub mod values;

pub use builder::{
    action_fits, answers, declared, declared_among, default_id, echoes, guard_fits, performs,
    repeats, ExternalTransitionBuilder, ExternalTransitionsBuilder, InternalTransitionBuilder,
    StateMachineBuilder, StateMachineBuilderFactory,
};
pub use callbacks::{
    action_of, condition_of, hook_of_fn, Action, ActionFn, Condition, FailCallback, GuardFn, HookFn,
    StateHook,
};
pub use error::TransitionError;
pub use factory::{holds, ids_distinct, named, place_of, StateMachineFactory};
pub use hooks::{
    entry_hook_of, exit_hook_of, hooks_wf, invokes, same_hooks_but, timeout_of, timeouts_wf,
    HookKind, StateActions, StateSlot, TimeoutSpec,
};
pub use laws::{
    law_accepting_transition_is_taken, law_each_firing_is_counted_once,
    law_earlier_acceptance_wins, law_evaluation_order_is_unique, law_one_record_per_firing,
    law_selection_follows_the_order, law_selection_is_deterministic,
    law_success_needs_registration, law_unguarded_transition_succeeds,
    law_unregistered_firing_fails,
};
pub use machine::StateMachine;
pub use metrics::{
    counted_failure, counted_success, tally, total_nanos, visits_of, MetricsView,
    StateMachineMetrics, VisitCount,
};
pub use parallel::{shorter, ParallelStateMachine};
pub use render::{dot_text, plantuml_text, render_dot, render_plantuml, Edge};
pub use transition::{
    is_evaluation_order, precedes, registered, rejects_all, selects, Transition, TransitionRecord,
    TransitionType,
};
pub use values::{
    by_value, clones_by_value, copy_of, same, Context, Event, HierarchicalState, State,
};
