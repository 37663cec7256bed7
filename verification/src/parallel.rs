//! Several machines side by side, fired with one event.

use crate::error::TransitionError;
use crate::machine::StateMachine;
use crate::values::{by_value, clones_by_value, copy_of, Context, Event, State};
use vstd::prelude::*;

verus! {

/// An ordered list of machines, the regions, that share nothing: each has
/// its own transitions, history and metrics.
#[verifier::reject_recursive_types(S)]
#[verifier::reject_recursive_types(E)]
#[verifier::reject_recursive_types(C)]
pub struct ParallelStateMachine<S, E, C> {
    regions: Vec<StateMachine<S, E, C>>,
}

/// The smaller of two lengths.
pub open spec fn shorter(a: nat, b: nat) -> nat {
    if a <= b {
        a
    } else {
        b
    }
}

impl<S: State, E: Event, C: Context> ParallelStateMachine<S, E, C> {
    /// The regions, in the order in which they were added.
    pub closed spec fn regions(&self) -> Seq<StateMachine<S, E, C>> {
        self.regions@
    }

    /// Every region is a well-formed machine.
    pub open spec fn wf(&self) -> bool {
        forall|i: int| 0 <= i < self.regions().len() ==> (#[trigger] self.regions()[i]).wf()
    }

    /// A coordinator without regions.
    pub fn new() -> (parallel: Self)
        ensures
            parallel.wf(),
            parallel.regions().len() == 0,
    {
        ParallelStateMachine { regions: Vec::new() }
    }

    /// Adds a region after those added before.
    pub fn add_region(&mut self, machine: StateMachine<S, E, C>)
        ensures
            final(self).regions() == old(self).regions().push(machine),
    {
        self.regions.push(machine);
    }

    /// Fires the event in every region: region `i` is fired in the state
    /// `states[i]`, with a copy of the event and of the context, and its
    /// result stands at place `i`. Where there are more states than
    /// regions, or more regions than states, those beyond the shorter list
    /// are left out.
    pub fn fire_event(&mut self, states: Vec<S>, event: E, context: C) -> (results: Vec<
        Result<S, TransitionError>,
    >)
        requires
            old(self).wf(),
            by_value::<S>(),
            by_value::<E>(),
            clones_by_value::<C>(),
        ensures
            final(self).wf(),
            final(self).regions().len() == old(self).regions().len(),
            results@.len() == shorter(old(self).regions().len(), states@.len()),
            forall|i: int|
                0 <= i < results@.len() ==> StateMachine::fired(
                    old(self).regions()[i],
                    states@[i],
                    event,
                    context,
                    #[trigger] final(self).regions()[i],
                    results@[i],
                ),
            forall|i: int|
                results@.len() <= i < final(self).regions().len() ==> (#[trigger] final(self).regions()[i])
                    == old(self).regions()[i],
    {
        let mut results: Vec<Result<S, TransitionError>> = Vec::new();
        let count: usize = if self.regions.len() <= states.len() {
            self.regions.len()
        } else {
            states.len()
        };
        let mut i: usize = 0;
        while i < count
            invariant
                by_value::<S>(),
                by_value::<E>(),
                clones_by_value::<C>(),
                count == shorter(old(self).regions().len(), states@.len()),
                0 <= i <= count,
                self.regions@.len() == old(self).regions().len(),
                self.wf(),
                results@.len() == i,
                forall|k: int|
                    0 <= k < i ==> StateMachine::fired(
                        old(self).regions()[k],
                        states@[k],
                        event,
                        context,
                        #[trigger] self.regions@[k],
                        results@[k],
                    ),
                forall|k: int|
                    i <= k < self.regions@.len() ==> (#[trigger] self.regions@[k]) == old(self).regions()[k],
            decreases count - i,
        {
            let ghost before = self.regions@;
            assert(self.regions()[i as int].wf());
            let result = self.regions[i].fire_event(
                copy_of(&states[i]),
                copy_of(&event),
                copy_of(&context),
            );
            proof {
                let after = self.regions@;
                assert forall|k: int| 0 <= k < after.len() implies (#[trigger] self.regions()[k]).wf() by {
                    if k != i {
                        assert(after[k] == before[k]);
                        assert(before[k] == old(self).regions()[k] || k < i);
                        assert(self.regions()[k] == before[k]);
                    }
                }
            }
            results.push(result);
            i = i + 1;
        }
        results
    }

    /// The region at a place.
    pub fn get_region(&self, index: usize) -> (region: Option<&StateMachine<S, E, C>>)
        ensures
            match region {
                Some(found) => index < self.regions().len() && *found == self.regions()[index as int],
                None => index >= self.regions().len(),
            },
    {
        if index < self.regions.len() {
            Some(&self.regions[index])
        } else {
            None
        }
    }

    /// The number of regions.
    pub fn region_count(&self) -> (count: usize)
        ensures
            count == self.regions().len(),
    {
        self.regions.len()
    }
}

} // verus!
