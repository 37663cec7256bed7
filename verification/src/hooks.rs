//! What is attached to single states: entry and exit hooks, and timeouts.
//!
//! Both are kept as lists with one entry per state, in the order in which
//! the states were first mentioned.

use crate::callbacks::StateHook;
use crate::values::{by_value, same};
use std::marker::PhantomData;
use std::time::Duration;
use vstd::prelude::*;

verus! {

/// The hooks of one state.
#[verifier::reject_recursive_types(S)]
#[verifier::reject_recursive_types(C)]
pub struct StateActions<S, E, C> {
    pub on_entry: Option<StateHook<S, C>>,
    pub on_exit: Option<StateHook<S, C>>,
    pub _phantom: PhantomData<E>,
}

/// The hooks of a state together with the state they belong to.
#[verifier::reject_recursive_types(S)]
#[verifier::reject_recursive_types(C)]
pub struct StateSlot<S, E, C> {
    pub state: S,
    pub actions: StateActions<S, E, C>,
}

impl<S, E, C> StateSlot<S, E, C> {
    /// The hooks `actions` for the state `state`.
    pub fn new(state: S, actions: StateActions<S, E, C>) -> (slot: Self)
        ensures
            slot.state == state,
            slot.actions == actions,
    {
        StateSlot { state, actions }
    }
}

/// What is to happen when a machine has dwelt in `state` for `duration`:
/// the caller is to fire `event`, which is meant to lead to `target`.
pub struct TimeoutSpec<S, E> {
    pub state: S,
    pub duration: Duration,
    pub target: S,
    pub event: E,
}

/// No state has two entries, and each hook can be invoked on its state.
pub open spec fn hooks_wf<S, E, C>(hooks: Seq<StateSlot<S, E, C>>) -> bool {
    &&& forall|i: int, j: int| 0 <= i < j < hooks.len() ==> hooks[i].state != hooks[j].state
    &&& forall|i: int|
        0 <= i < hooks.len() ==> ((#[trigger] hooks[i]).actions.on_entry matches Some(hook)
            ==> forall|context: &C| #[trigger] hook.invocable(&hooks[i].state, context))
    &&& forall|i: int|
        0 <= i < hooks.len() ==> ((#[trigger] hooks[i]).actions.on_exit matches Some(hook)
            ==> forall|context: &C| #[trigger] hook.invocable(&hooks[i].state, context))
}

/// No state has two timeouts.
pub open spec fn timeouts_wf<S, E>(timeouts: Seq<TimeoutSpec<S, E>>) -> bool {
    forall|i: int, j: int| 0 <= i < j < timeouts.len() ==> timeouts[i].state != timeouts[j].state
}

/// The state has an entry in the list of hooks.
pub open spec fn has_hooks<S, E, C>(hooks: Seq<StateSlot<S, E, C>>, state: S) -> bool {
    exists|i: int| 0 <= i < hooks.len() && (#[trigger] hooks[i]).state == state
}

/// Where the entry of a state stands, if it has one.
pub open spec fn hooks_at<S, E, C>(hooks: Seq<StateSlot<S, E, C>>, state: S) -> int {
    choose|i: int| 0 <= i < hooks.len() && (#[trigger] hooks[i]).state == state
}

/// The hook run when the state is entered.
pub open spec fn entry_hook_of<S, E, C>(
    hooks: Seq<StateSlot<S, E, C>>,
    state: S,
) -> Option<StateHook<S, C>> {
    if has_hooks(hooks, state) {
        hooks[hooks_at(hooks, state)].actions.on_entry
    } else {
        None
    }
}

/// The hook run when the state is left.
pub open spec fn exit_hook_of<S, E, C>(
    hooks: Seq<StateSlot<S, E, C>>,
    state: S,
) -> Option<StateHook<S, C>> {
    if has_hooks(hooks, state) {
        hooks[hooks_at(hooks, state)].actions.on_exit
    } else {
        None
    }
}

/// The timeout of a state.
pub open spec fn timeout_of<S, E>(timeouts: Seq<TimeoutSpec<S, E>>, state: S) -> Option<
    TimeoutSpec<S, E>,
> {
    if exists|i: int| 0 <= i < timeouts.len() && (#[trigger] timeouts[i]).state == state {
        Some(
            timeouts[choose|i: int| 0 <= i < timeouts.len() && (#[trigger] timeouts[i]).state == state],
        )
    } else {
        None
    }
}

/// Where the timeout of a state stands in a list of timeouts.
pub fn find_timeout<S: PartialEq + Clone, E>(timeouts: &Vec<TimeoutSpec<S, E>>, state: &S) -> (slot:
    Option<usize>)
    requires
        by_value::<S>(),
    ensures
        match slot {
            Some(i) => i < timeouts@.len() && timeouts@[i as int].state == *state,
            None => forall|i: int| 0 <= i < timeouts@.len() ==> timeouts@[i].state != *state,
        },
{
    let mut i: usize = 0;
    while i < timeouts.len()
        invariant
            by_value::<S>(),
            0 <= i <= timeouts@.len(),
            forall|k: int| 0 <= k < i ==> (#[trigger] timeouts@[k]).state != *state,
        decreases timeouts@.len() - i,
    {
        if same(&timeouts[i].state, state) {
            return Some(i);
        }
        i = i + 1;
    }
    None
}

/// Gives `state` the timeout `duration`, after which `event` is due and
/// leads to `target`, in place of the timeout it may have had. The timeouts
/// of all other states stay as they are.
pub fn install_timeout<S: PartialEq + Clone, E>(
    timeouts: &mut Vec<TimeoutSpec<S, E>>,
    state: S,
    duration: Duration,
    target: S,
    event: E,
)
    requires
        by_value::<S>(),
        timeouts_wf(old(timeouts)@),
    ensures
        timeouts_wf(final(timeouts)@),
        timeout_of(final(timeouts)@, state) == Some(TimeoutSpec { state, duration, target, event }),
        forall|other: S|
            other != state ==> #[trigger] timeout_of(final(timeouts)@, other) == timeout_of(
                old(timeouts)@,
                other,
            ),
{
    let ghost before = (*timeouts)@;
    let entry = TimeoutSpec { state, duration, target, event };
    match find_timeout(timeouts, &entry.state) {
        Some(slot) => {
            timeouts.set(slot, entry);
            proof {
                let after = (*timeouts)@;
                assert(after[slot as int].state == state);
                assert forall|other: S| other != state implies #[trigger] timeout_of(after, other)
                    == timeout_of(before, other) by {
                    lemma_same_timeouts(before, after, other, slot as int);
                }
            }
        },
        None => {
            timeouts.push(entry);
            proof {
                let after = (*timeouts)@;
                let last = after.len() - 1;
                assert(after[last].state == state);
                assert forall|other: S| other != state implies #[trigger] timeout_of(after, other)
                    == timeout_of(before, other) by {
                    lemma_same_timeouts(before, after, other, last);
                }
            }
        },
    }
}

/// Two lists of timeouts that agree on the states listed, and on every
/// entry but the one at `except`, give a state that is not listed there the
/// same timeout.
proof fn lemma_same_timeouts<S, E>(
    before: Seq<TimeoutSpec<S, E>>,
    after: Seq<TimeoutSpec<S, E>>,
    other: S,
    except: int,
)
    requires
        timeouts_wf(after),
        0 <= except < after.len(),
        after[except].state != other,
        before.len() == after.len() || before.len() == after.len() - 1 == except,
        forall|i: int| 0 <= i < before.len() && i != except ==> #[trigger] after[i] == before[i],
        forall|i: int| 0 <= i < before.len() ==> (#[trigger] after[i]).state == before[i].state,
    ensures
        timeout_of(after, other) == timeout_of(before, other),
{
    if exists|i: int| 0 <= i < before.len() && (#[trigger] before[i]).state == other {
        let i = choose|i: int| 0 <= i < before.len() && (#[trigger] before[i]).state == other;
        assert(after[i].state == other);
        let j = choose|j: int| 0 <= j < after.len() && (#[trigger] after[j]).state == other;
        assert(j == i) by {
            if j != i {
                if j < i {
                    assert(after[j].state != after[i].state);
                } else {
                    assert(after[i].state != after[j].state);
                }
            }
        }
    } else {
        if exists|j: int| 0 <= j < after.len() && (#[trigger] after[j]).state == other {
            let j = choose|j: int| 0 <= j < after.len() && (#[trigger] after[j]).state == other;
            assert(j < before.len());
            assert(before[j].state == other);
        }
    }
}

/// Where the entry of a state stands in a list of hooks.
pub fn find_hooks<S: PartialEq + Clone, E, C>(
    hooks: &Vec<StateSlot<S, E, C>>,
    state: &S,
) -> (slot: Option<usize>)
    requires
        by_value::<S>(),
    ensures
        match slot {
            Some(i) => i < hooks@.len() && hooks@[i as int].state == *state,
            None => !has_hooks(hooks@, *state),
        },
{
    let mut i: usize = 0;
    while i < hooks.len()
        invariant
            by_value::<S>(),
            0 <= i <= hooks@.len(),
            forall|k: int| 0 <= k < i ==> (#[trigger] hooks@[k]).state != *state,
        decreases hooks@.len() - i,
    {
        if same(&hooks[i].state, state) {
            return Some(i);
        }
        i = i + 1;
    }
    None
}

/// Which of the two hooks of a state is meant.
#[derive(Debug, Clone, Copy, PartialEq, Eq)]
pub enum HookKind {
    Entry,
    Exit,
}

/// The hook of the given kind of a state.
pub open spec fn hook_of<S, E, C>(
    hooks: Seq<StateSlot<S, E, C>>,
    state: S,
    kind: HookKind,
) -> Option<StateHook<S, C>> {
    match kind {
        HookKind::Entry => entry_hook_of(hooks, state),
        HookKind::Exit => exit_hook_of(hooks, state),
    }
}

/// The other kind of hook.
pub open spec fn other_kind(kind: HookKind) -> HookKind {
    match kind {
        HookKind::Entry => HookKind::Exit,
        HookKind::Exit => HookKind::Entry,
    }
}

/// The registered hook can be invoked exactly where the closure can be
/// called.
pub open spec fn invokes<S, C, F: Fn(&S, &C)>(
    registered: Option<StateHook<S, C>>,
    hook: F,
) -> bool {
    registered matches Some(boxed) && forall|state: &S, context: &C| #[trigger]
        boxed.invocable(state, context) == call_requires(hook, (state, context))
}

/// But for the hook of the given kind of `state`, the hooks are the same
/// in both lists.
pub open spec fn same_hooks_but<S, E, C>(
    after: Seq<StateSlot<S, E, C>>,
    before: Seq<StateSlot<S, E, C>>,
    state: S,
    kind: HookKind,
) -> bool {
    &&& hook_of(after, state, other_kind(kind)) == hook_of(before, state, other_kind(kind))
    &&& forall|other: S|
        other != state ==> #[trigger] entry_hook_of(after, other) == entry_hook_of(before, other)
            && #[trigger] exit_hook_of(after, other) == exit_hook_of(before, other)
}

/// Makes `hook` the hook of the given kind of `state`, in place of the one
/// it may have had. The other hook of the state, and the hooks of all other
/// states, stay as they are.
pub fn install_hook<S: PartialEq + Clone, E, C>(
    hooks: &mut Vec<StateSlot<S, E, C>>,
    state: S,
    kind: HookKind,
    hook: StateHook<S, C>,
)
    requires
        by_value::<S>(),
        hooks_wf(old(hooks)@),
        forall|context: &C| #[trigger] hook.invocable(&state, context),
    ensures
        hooks_wf(final(hooks)@),
        hook_of(final(hooks)@, state, kind) == Some(hook),
        same_hooks_but(final(hooks)@, old(hooks)@, state, kind),
{
    let ghost before = (*hooks)@;
    let installed = Some(hook);
    match find_hooks(hooks, &state) {
        Some(slot) => {
            let removed = hooks.remove(slot);
            let kept = removed.state;
            let actions = removed.actions;
            let replaced = match kind {
                HookKind::Entry => StateActions {
                    on_entry: installed,
                    on_exit: actions.on_exit,
                    _phantom: PhantomData,
                },
                HookKind::Exit => StateActions {
                    on_entry: actions.on_entry,
                    on_exit: installed,
                    _phantom: PhantomData,
                },
            };
            let entry = StateSlot::new(kept, replaced);
            hooks.insert(slot, entry);
            proof {
                let after = (*hooks)@;
                assert(after =~= before.update(slot as int, entry));
                lemma_hooks_at(after, slot as int);
                lemma_hooks_at(before, slot as int);
                assert forall|other: S| other != state implies #[trigger] entry_hook_of(
                    after,
                    other,
                ) == entry_hook_of(before, other) && #[trigger] exit_hook_of(after, other)
                    == exit_hook_of(before, other) by {
                    lemma_same_states(before, after, other, slot as int);
                }
            }
        },
        None => {
            let fresh = match kind {
                HookKind::Entry => StateActions {
                    on_entry: installed,
                    on_exit: None,
                    _phantom: PhantomData,
                },
                HookKind::Exit => StateActions {
                    on_entry: None,
                    on_exit: installed,
                    _phantom: PhantomData,
                },
            };
            let entry = StateSlot::new(state, fresh);
            hooks.push(entry);
            proof {
                let after = (*hooks)@;
                let last = after.len() - 1;
                lemma_hooks_at(after, last);
                assert forall|other: S| other != state implies #[trigger] entry_hook_of(
                    after,
                    other,
                ) == entry_hook_of(before, other) && #[trigger] exit_hook_of(after, other)
                    == exit_hook_of(before, other) by {
                    lemma_same_states(before, after, other, last);
                }
            }
        },
    }
}

/// In a list without double states the entry of a state is the one found
/// at any place that has the state.
proof fn lemma_hooks_at<S, E, C>(hooks: Seq<StateSlot<S, E, C>>, at: int)
    requires
        hooks_wf(hooks),
        0 <= at < hooks.len(),
    ensures
        has_hooks(hooks, hooks[at].state),
        hooks_at(hooks, hooks[at].state) == at,
{
    let state = hooks[at].state;
    assert(has_hooks(hooks, state));
    let chosen = hooks_at(hooks, state);
    if chosen < at {
        assert(hooks[chosen].state != hooks[at].state);
    } else if at < chosen {
        assert(hooks[at].state != hooks[chosen].state);
    }
}

/// Two lists of hooks that agree on the states listed, and on every entry
/// but the one at `except`, give a state that is not listed there the same
/// hooks.
proof fn lemma_same_states<S, E, C>(
    before: Seq<StateSlot<S, E, C>>,
    after: Seq<StateSlot<S, E, C>>,
    other: S,
    except: int,
)
    requires
        hooks_wf(after),
        0 <= except < after.len(),
        after[except].state != other,
        before.len() == after.len() || before.len() == after.len() - 1 == except,
        forall|i: int| 0 <= i < before.len() && i != except ==> #[trigger] after[i] == before[i],
        forall|i: int| 0 <= i < before.len() ==> (#[trigger] after[i]).state == before[i].state,
    ensures
        entry_hook_of(after, other) == entry_hook_of(before, other),
        exit_hook_of(after, other) == exit_hook_of(before, other),
{
    if has_hooks(before, other) {
        let i = hooks_at(before, other);
        assert(after[i].state == other);
        lemma_hooks_at(after, i);
    } else if has_hooks(after, other) {
        let j = hooks_at(after, other);
        assert(before[j].state == other);
    }
}

} // verus!
