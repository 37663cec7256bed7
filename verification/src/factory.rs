//! A registry of state machines by their identifiers.

use crate::machine::StateMachine;
use crate::values::{Context, Event, State};
use vstd::prelude::*;
use vstd::string::StringExecFns;

verus! {

/// Factory for managing multiple state machines. The machines are kept in
/// the order in which their identifiers were first registered.
#[verifier::reject_recursive_types(S)]
#[verifier::reject_recursive_types(E)]
#[verifier::reject_recursive_types(C)]
pub struct StateMachineFactory<S, E, C> {
    machines: Vec<StateMachine<S, E, C>>,
}

/// No identifier is held by two machines.
pub open spec fn ids_distinct<S: State, E: Event, C: Context>(
    machines: Seq<StateMachine<S, E, C>>,
) -> bool {
    forall|i: int, j: int| 0 <= i < j < machines.len() ==> machines[i].name() != machines[j].name()
}

/// Some machine has the identifier.
pub open spec fn holds<S: State, E: Event, C: Context>(
    machines: Seq<StateMachine<S, E, C>>,
    id: Seq<char>,
) -> bool {
    exists|i: int| 0 <= i < machines.len() && (#[trigger] machines[i]).name() == id
}

/// Where the machine with the identifier stands, if there is one.
pub open spec fn place_of<S: State, E: Event, C: Context>(
    machines: Seq<StateMachine<S, E, C>>,
    id: Seq<char>,
) -> int {
    choose|i: int| 0 <= i < machines.len() && (#[trigger] machines[i]).name() == id
}

/// The machine with the identifier.
pub open spec fn named<S: State, E: Event, C: Context>(
    machines: Seq<StateMachine<S, E, C>>,
    id: Seq<char>,
) -> Option<StateMachine<S, E, C>> {
    if holds(machines, id) {
        Some(machines[place_of(machines, id)])
    } else {
        None
    }
}

/// In a list without double identifiers the machine with an identifier is
/// the one found at any place that has it.
proof fn lemma_named_at<S: State, E: Event, C: Context>(
    machines: Seq<StateMachine<S, E, C>>,
    at: int,
)
    requires
        ids_distinct(machines),
        0 <= at < machines.len(),
    ensures
        holds(machines, machines[at].name()),
        place_of(machines, machines[at].name()) == at,
        named(machines, machines[at].name()) == Some(machines[at]),
{
    let id = machines[at].name();
    assert(holds(machines, id));
    let chosen = place_of(machines, id);
    if chosen < at {
        assert(machines[chosen].name() != machines[at].name());
    } else if at < chosen {
        assert(machines[at].name() != machines[chosen].name());
    }
}

impl<S: State, E: Event, C: Context> StateMachineFactory<S, E, C> {
    /// The registered machines.
    pub closed spec fn machines(&self) -> Seq<StateMachine<S, E, C>> {
        self.machines@
    }

    /// No identifier is registered twice.
    pub open spec fn wf(&self) -> bool {
        ids_distinct(self.machines())
    }

    /// A registry without machines.
    pub fn new() -> (factory: Self)
        ensures
            factory.wf(),
            factory.machines().len() == 0,
    {
        StateMachineFactory { machines: Vec::new() }
    }

    /// Where the machine with an identifier stands.
    fn position(&self, id: &String) -> (at: Option<usize>)
        ensures
            match at {
                Some(i) => i < self.machines().len() && self.machines()[i as int].name() == id@,
                None => !holds(self.machines(), id@),
            },
    {
        let mut i: usize = 0;
        while i < self.machines.len()
            invariant
                0 <= i <= self.machines@.len(),
                forall|k: int| 0 <= k < i ==> (#[trigger] self.machines@[k]).name() != id@,
            decreases self.machines@.len() - i,
        {
            if self.machines[i].has_id(id) {
                return Some(i);
            }
            i = i + 1;
        }
        None
    }

    /// Registers a machine under its identifier, in place of the machine
    /// that may have had it.
    pub fn register(&mut self, machine: StateMachine<S, E, C>)
        requires
            old(self).wf(),
        ensures
            final(self).wf(),
            named(final(self).machines(), machine.name()) == Some(machine),
            forall|other: Seq<char>|
                other != machine.name() ==> #[trigger] named(final(self).machines(), other)
                    == named(old(self).machines(), other),
    {
        let id = String::from_str(machine.id());
        let ghost before = self.machines@;
        match self.position(&id) {
            Some(at) => {
                self.machines.set(at, machine);
                proof {
                    let after = self.machines@;
                    lemma_named_at(after, at as int);
                    assert forall|other: Seq<char>| other != machine.name() implies #[trigger] named(
                        after,
                        other,
                    ) == named(before, other) by {
                        lemma_named_elsewhere(before, after, other, at as int);
                    }
                }
            },
            None => {
                self.machines.push(machine);
                proof {
                    let after = self.machines@;
                    let last = after.len() - 1;
                    assert forall|i: int, j: int| 0 <= i < j < after.len() implies after[i].name()
                        != after[j].name() by {
                        if j == last {
                            assert(before[i].name() != id@);
                        } else {
                            assert(before[i].name() != before[j].name());
                        }
                    }
                    lemma_named_at(after, last);
                    assert forall|other: Seq<char>| other != machine.name() implies #[trigger] named(
                        after,
                        other,
                    ) == named(before, other) by {
                        lemma_named_elsewhere(before, after, other, last);
                    }
                }
            },
        }
    }

    /// The machine with the identifier.
    pub fn get(&self, id: &str) -> (machine: Option<&StateMachine<S, E, C>>)
        requires
            self.wf(),
        ensures
            match machine {
                Some(found) => named(self.machines(), id@) == Some(*found),
                None => named(self.machines(), id@) is None,
            },
    {
        let wanted = String::from_str(id);
        match self.position(&wanted) {
            Some(at) => {
                proof {
                    lemma_named_at(self.machines@, at as int);
                }
                Some(&self.machines[at])
            },
            None => None,
        }
    }

    /// The machine with the identifier, to work on in place. What the caller
    /// leaves there takes the machine's place in the registry.
    pub fn get_mut(&mut self, id: &str) -> (machine: Option<&mut StateMachine<S, E, C>>)
        requires
            old(self).wf(),
        ensures
            match machine {
                Some(found) => {
                    &&& named(old(self).machines(), id@) == Some(*found)
                    &&& final(self).machines() == old(self).machines().update(
                        place_of(old(self).machines(), id@),
                        *final(found),
                    )
                },
                None => {
                    &&& named(old(self).machines(), id@) is None
                    &&& final(self).machines() == old(self).machines()
                },
            },
    {
        let wanted = String::from_str(id);
        match self.position(&wanted) {
            Some(at) => {
                proof {
                    lemma_named_at(self.machines@, at as int);
                }
                Some(&mut self.machines[at])
            },
            None => None,
        }
    }

    /// Takes the machine with the identifier out of the registry.
    pub fn remove(&mut self, id: &str) -> (machine: Option<StateMachine<S, E, C>>)
        requires
            old(self).wf(),
        ensures
            final(self).wf(),
            machine == named(old(self).machines(), id@),
            named(final(self).machines(), id@) is None,
            forall|other: Seq<char>|
                other != id@ ==> #[trigger] named(final(self).machines(), other) == named(
                    old(self).machines(),
                    other,
                ),
    {
        let wanted = String::from_str(id);
        let ghost before = self.machines@;
        match self.position(&wanted) {
            Some(at) => {
                proof {
                    lemma_named_at(before, at as int);
                }
                let machine = self.machines.remove(at);
                proof {
                    let after = self.machines@;
                    assert forall|k: int| 0 <= k < after.len() implies #[trigger] after[k] == before[if k
                        < at {
                        k
                    } else {
                        k + 1
                    }] by {}
                    assert forall|i: int, j: int| 0 <= i < j < after.len() implies after[i].name()
                        != after[j].name() by {
                        let a = if i < at {
                            i
                        } else {
                            i + 1
                        };
                        let b = if j < at {
                            j
                        } else {
                            j + 1
                        };
                        assert(before[a].name() != before[b].name());
                    }
                    assert(!holds(after, id@)) by {
                        if holds(after, id@) {
                            let k = choose|k: int|
                                0 <= k < after.len() && (#[trigger] after[k]).name() == id@;
                            let a = if k < at {
                                k
                            } else {
                                k + 1
                            };
                            if a < at {
                                assert(before[a].name() != before[at as int].name());
                            } else {
                                assert(before[at as int].name() != before[a].name());
                            }
                        }
                    }
                    assert forall|other: Seq<char>| other != id@ implies #[trigger] named(
                        after,
                        other,
                    ) == named(before, other) by {
                        if holds(before, other) {
                            let a = choose|a: int|
                                0 <= a < before.len() && (#[trigger] before[a]).name() == other;
                            let k = if a < at {
                                a
                            } else {
                                a - 1
                            };
                            assert(after[k] == before[a]);
                            lemma_named_at(after, k);
                            lemma_named_at(before, a);
                        } else if holds(after, other) {
                            let k = choose|k: int|
                                0 <= k < after.len() && (#[trigger] after[k]).name() == other;
                            let a = if k < at {
                                k
                            } else {
                                k + 1
                            };
                            assert(before[a].name() == other);
                        }
                    }
                }
                Some(machine)
            },
            None => None,
        }
    }

    /// The identifiers of the registered machines, in the order in which
    /// they were first registered.
    pub fn list_ids(&self) -> (ids: Vec<&str>)
        ensures
            ids@.len() == self.machines().len(),
            forall|i: int| 0 <= i < ids@.len() ==> (#[trigger] ids@[i])@ == self.machines()[i].name(),
    {
        let mut ids: Vec<&str> = Vec::new();
        let mut i: usize = 0;
        while i < self.machines.len()
            invariant
                0 <= i <= self.machines@.len(),
                ids@.len() == i,
                forall|k: int| 0 <= k < i ==> (#[trigger] ids@[k])@ == self.machines@[k].name(),
            decreases self.machines@.len() - i,
        {
            ids.push(self.machines[i].id());
            i = i + 1;
        }
        ids
    }
}

impl<S: State, E: Event, C: Context> Default for StateMachineFactory<S, E, C> {
    fn default() -> (factory: Self)
        ensures
            factory.wf(),
            factory.machines().len() == 0,
    {
        Self::new()
    }
}

/// Two lists of machines that agree on the identifiers listed, and on every
/// machine but the one at `except`, hold the same machine under an
/// identifier that is not the one at `except`.
proof fn lemma_named_elsewhere<S: State, E: Event, C: Context>(
    before: Seq<StateMachine<S, E, C>>,
    after: Seq<StateMachine<S, E, C>>,
    other: Seq<char>,
    except: int,
)
    requires
        ids_distinct(after),
        0 <= except < after.len(),
        after[except].name() != other,
        before.len() == after.len() || before.len() == after.len() - 1 == except,
        forall|i: int| 0 <= i < before.len() && i != except ==> #[trigger] after[i] == before[i],
        forall|i: int| 0 <= i < before.len() ==> (#[trigger] after[i]).name() == before[i].name(),
    ensures
        named(after, other) == named(before, other),
{
    if holds(before, other) {
        let i = choose|i: int| 0 <= i < before.len() && (#[trigger] before[i]).name() == other;
        assert(after[i].name() == other);
        lemma_named_at(after, i);
    } else if holds(after, other) {
        let j = choose|j: int| 0 <= j < after.len() && (#[trigger] after[j]).name() == other;
        assert(j < before.len());
        assert(before[j].name() == other);
    }
}

} // verus!
