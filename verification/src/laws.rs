//! What holds of every firing, stated over the relation
//! [`StateMachine::fired`] that `fire_event` establishes.

use crate::error::TransitionError;
use crate::machine::StateMachine;
use crate::transition::{is_evaluation_order, precedes, registered, selects, Transition};
use crate::values::{Context, Event, State};
use vstd::prelude::*;

verus! {

/// A transition whose guard accepts is the one taken, provided that every
/// transition that is tried before it (one registered for the same state
/// and event with a higher priority, or with the same priority and declared
/// earlier) has a guard that rejects: the firing then succeeds with the
/// destination of that transition.
pub proof fn law_accepting_transition_is_taken<S: State, E: Event, C: Context>(
    pre: StateMachine<S, E, C>,
    from: S,
    event: E,
    context: C,
    post: StateMachine<S, E, C>,
    result: Result<S, TransitionError>,
    taken: int,
)
    requires
        0 <= taken < pre.rules().len(),
        pre.rules()[taken].keyed(from, event),
        pre.rules()[taken].accepts(from, event, context),
        forall|j: int|
            0 <= j < pre.rules().len() && (#[trigger] pre.rules()[j]).keyed(from, event)
                && precedes(pre.rules(), j, taken) ==> pre.rules()[j].rejects(from, event, context),
        StateMachine::fired(pre, from, event, context, post, result),
    ensures
        result == Ok::<S, TransitionError>(pre.rules()[taken].to),
{
    let rules = pre.rules();
    match result {
        Ok(to) => {
            let i = choose|i: int| #[trigger]
                selects(rules, from, event, context, i) && rules[i].to == to;
            if i != taken {
                if precedes(rules, i, taken) {
                    assert(rules[i].rejects(from, event, context));
                } else {
                    assert(precedes(rules, taken, i));
                    assert(rules[taken].may_reject(from, event, context));
                }
            }
        },
        Err(_) => {
            assert(rules[taken].may_reject(from, event, context));
        },
    }
}

/// A transition is not the one taken while another that is tried before it
/// has a guard that accepts: of two accepting transitions for one state and
/// event, the one with the higher priority wins, and among equal priorities
/// the one declared first.
pub proof fn law_earlier_acceptance_wins<S, E, C>(
    rules: Seq<Transition<S, E, C>>,
    from: S,
    event: E,
    context: C,
    winner: int,
    loser: int,
)
    requires
        0 <= winner < rules.len(),
        0 <= loser < rules.len(),
        rules[winner].keyed(from, event),
        rules[winner].accepts(from, event, context),
        precedes(rules, winner, loser),
    ensures
        !selects(rules, from, event, context, loser),
{
    if selects(rules, from, event, context, loser) {
        assert(rules[winner].may_reject(from, event, context));
    }
}

/// Where each guard asked has one answer only, the selection is
/// deterministic: no two transitions can be the one taken.
pub proof fn law_selection_is_deterministic<S, E, C>(
    rules: Seq<Transition<S, E, C>>,
    from: S,
    event: E,
    context: C,
    first: int,
    second: int,
)
    requires
        forall|j: int|
            0 <= j < rules.len() && (#[trigger] rules[j]).keyed(from, event) ==> rules[j].accepts(
                from,
                event,
                context,
            ) || rules[j].rejects(from, event, context),
        selects(rules, from, event, context, first),
        selects(rules, from, event, context, second),
    ensures
        first == second,
{
    if first != second {
        if precedes(rules, first, second) {
            assert(rules[first].may_reject(from, event, context));
        } else {
            assert(precedes(rules, second, first));
            assert(rules[second].may_reject(from, event, context));
        }
    }
}

/// A firing for which no transition is registered fails with
/// `NoValidTransition`, whatever the context, and leaves the visit counts
/// and the count of successes as they were.
pub proof fn law_unregistered_firing_fails<S: State, E: Event, C: Context>(
    pre: StateMachine<S, E, C>,
    from: S,
    event: E,
    context: C,
    post: StateMachine<S, E, C>,
    result: Result<S, TransitionError>,
)
    requires
        !registered(pre.rules(), from, event),
        StateMachine::fired(pre, from, event, context, post, result),
    ensures
        result is Err,
        result->Err_0 is NoValidTransition,
        post.measured().visits == pre.measured().visits,
        post.measured().succeeded == pre.measured().succeeded,
{
    match result {
        Ok(to) => {
            let i = choose|i: int| #[trigger]
                selects(pre.rules(), from, event, context, i) && pre.rules()[i].to == to;
            assert(pre.rules()[i].keyed(from, event));
        },
        Err(_) => {},
    }
}

/// A firing succeeds whenever a transition without a guard is registered
/// for the state and event.
pub proof fn law_unguarded_transition_succeeds<S: State, E: Event, C: Context>(
    pre: StateMachine<S, E, C>,
    from: S,
    event: E,
    context: C,
    post: StateMachine<S, E, C>,
    result: Result<S, TransitionError>,
    unguarded: int,
)
    requires
        0 <= unguarded < pre.rules().len(),
        pre.rules()[unguarded].keyed(from, event),
        pre.rules()[unguarded].condition is None,
        StateMachine::fired(pre, from, event, context, post, result),
    ensures
        result is Ok,
{
    if result is Err {
        assert(pre.rules()[unguarded].may_reject(from, event, context));
    }
}

/// Every firing appends exactly one record to the history. The record
/// tells the outcome: on success the state reached, on failure the state
/// the machine was in, which it keeps.
pub proof fn law_one_record_per_firing<S: State, E: Event, C: Context>(
    pre: StateMachine<S, E, C>,
    from: S,
    event: E,
    context: C,
    post: StateMachine<S, E, C>,
    result: Result<S, TransitionError>,
)
    requires
        StateMachine::fired(pre, from, event, context, post, result),
    ensures
        post.past() == pre.past().push(post.past().last()),
        post.past().last().success == (result is Ok),
        post.past().last().from == from,
        post.past().last().event == event,
        result matches Ok(to) ==> post.past().last().to == to,
        result is Err ==> post.past().last().to == from,
{
    assert(post.past() =~= post.past().drop_last().push(post.past().last()));
}

/// Every firing is counted once: the total grows by one, and so does
/// either the count of successes or the count of failures. A failed firing
/// counts no visit.
pub proof fn law_each_firing_is_counted_once<S: State, E: Event, C: Context>(
    pre: StateMachine<S, E, C>,
    from: S,
    event: E,
    context: C,
    post: StateMachine<S, E, C>,
    result: Result<S, TransitionError>,
)
    requires
        StateMachine::fired(pre, from, event, context, post, result),
    ensures
        post.measured().total == pre.measured().total + 1,
        post.measured().durations.len() == pre.measured().durations.len() + 1,
        result is Ok ==> post.measured().succeeded == pre.measured().succeeded + 1
            && post.measured().failed == pre.measured().failed,
        result is Err ==> post.measured().failed == pre.measured().failed + 1
            && post.measured().succeeded == pre.measured().succeeded
            && post.measured().visits == pre.measured().visits,
{
}

/// A firing succeeds only where `verify` says that it is possible: some
/// transition is registered for the state and event.
pub proof fn law_success_needs_registration<S: State, E: Event, C: Context>(
    pre: StateMachine<S, E, C>,
    from: S,
    event: E,
    context: C,
    post: StateMachine<S, E, C>,
    result: Result<S, TransitionError>,
)
    requires
        StateMachine::fired(pre, from, event, context, post, result),
        result is Ok,
    ensures
        registered(pre.rules(), from, event),
{
    let to = result->Ok_0;
    let i = choose|i: int| #[trigger]
        selects(pre.rules(), from, event, context, i) && pre.rules()[i].to == to;
    assert(pre.rules()[i].keyed(from, event));
}

/// Two evaluation orders for one state and event agree on their first
/// `upto` places.
proof fn lemma_orders_agree_upto<S, E, C>(
    rules: Seq<Transition<S, E, C>>,
    from: S,
    event: E,
    first: Seq<usize>,
    second: Seq<usize>,
    upto: nat,
)
    requires
        is_evaluation_order(rules, from, event, first),
        is_evaluation_order(rules, from, event, second),
        upto <= first.len(),
        upto <= second.len(),
    ensures
        forall|k: int| 0 <= k < upto ==> first[k] == second[k],
    decreases upto,
{
    if upto > 0 {
        let last = upto - 1;
        lemma_orders_agree_upto(rules, from, event, first, second, last as nat);
        let a = first[last];
        let b = second[last];
        if a != b {
            assert(rules[a as int].keyed(from, event));
            let m = choose|m: int| 0 <= m < second.len() && #[trigger] second[m] == a;
            if m < last {
                assert(precedes(rules, first[m] as int, first[last] as int));
            }
            assert(precedes(rules, second[last] as int, second[m] as int));
            assert(rules[b as int].keyed(from, event));
            let n = choose|n: int| 0 <= n < first.len() && #[trigger] first[n] == b;
            if n < last {
                assert(precedes(rules, second[n] as int, second[last] as int));
            }
            assert(precedes(rules, first[last] as int, first[n] as int));
        }
    }
}

/// An evaluation order is no longer than any other for the same state and
/// event.
proof fn lemma_order_is_no_longer<S, E, C>(
    rules: Seq<Transition<S, E, C>>,
    from: S,
    event: E,
    first: Seq<usize>,
    second: Seq<usize>,
)
    requires
        is_evaluation_order(rules, from, event, first),
        is_evaluation_order(rules, from, event, second),
    ensures
        first.len() <= second.len(),
{
    if first.len() > second.len() {
        let length = second.len();
        lemma_orders_agree_upto(rules, from, event, first, second, length);
        let a = first[length as int];
        assert(rules[a as int].keyed(from, event));
        let m = choose|m: int| 0 <= m < second.len() && #[trigger] second[m] == a;
        assert(precedes(rules, first[m] as int, first[length as int] as int));
    }
}

/// The order in which the transitions for a state and an event are tried
/// is determined by the table: there is one evaluation order only.
pub proof fn law_evaluation_order_is_unique<S, E, C>(
    rules: Seq<Transition<S, E, C>>,
    from: S,
    event: E,
    first: Seq<usize>,
    second: Seq<usize>,
)
    requires
        is_evaluation_order(rules, from, event, first),
        is_evaluation_order(rules, from, event, second),
    ensures
        first == second,
{
    lemma_order_is_no_longer(rules, from, event, first, second);
    lemma_order_is_no_longer(rules, from, event, second, first);
    lemma_orders_agree_upto(rules, from, event, first, second, first.len());
    assert(first =~= second);
}

/// A transition can only be the one taken if it stands in the evaluation
/// order, and then every transition that stands before it there can have
/// been turned down.
pub proof fn law_selection_follows_the_order<S, E, C>(
    rules: Seq<Transition<S, E, C>>,
    from: S,
    event: E,
    context: C,
    order: Seq<usize>,
    at: int,
)
    requires
        is_evaluation_order(rules, from, event, order),
        0 <= at < order.len(),
    ensures
        selects(rules, from, event, context, order[at] as int) <==> rules[order[at] as int].may_accept(
            from,
            event,
            context,
        ) && forall|k: int|
            0 <= k < at ==> rules[(#[trigger] order[k]) as int].may_reject(from, event, context),
{
    let taken = order[at] as int;
    if selects(rules, from, event, context, taken) {
        assert forall|k: int| 0 <= k < at implies rules[(#[trigger] order[k]) as int].may_reject(
            from,
            event,
            context,
        ) by {
            assert(precedes(rules, order[k] as int, order[at] as int));
        }
    }
    if rules[taken].may_accept(from, event, context) && forall|k: int|
        0 <= k < at ==> rules[(#[trigger] order[k]) as int].may_reject(from, event, context) {
        assert forall|j: int|
            0 <= j < rules.len() && (#[trigger] rules[j]).keyed(from, event) && precedes(
                rules,
                j,
                taken,
            ) implies rules[j].may_reject(from, event, context) by {
            let m = choose|m: int| 0 <= m < order.len() && #[trigger] order[m] == j;
            if m > at {
                assert(precedes(rules, order[at] as int, order[m] as int));
            }
        }
    }
}

} // verus!
