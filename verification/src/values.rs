//! The value types a machine is parameterised over: states, events and the
//! context payload, together with the assumption the engine makes about them.

use std::fmt::Debug;
use std::hash::Hash;
use vstd::prelude::*;
use vstd::std_specs::cmp::PartialEqSpec;

verus! {

/// A position of a state machine.
pub trait State: Debug + Clone + Hash + Eq + PartialEq {

}

/// A trigger offered to a state machine.
pub trait Event: Debug + Clone + Hash + Eq + PartialEq {

}

/// The payload handed unchanged to every guard, action and hook.
pub trait Context: Debug + Clone {

}

/// A state that is placed in a hierarchy of states.
pub trait HierarchicalState: State {
    fn parent(&self) -> Option<Self>;

    fn children(&self) -> Vec<Self>;

    fn is_substate_of(&self, other: &Self) -> bool;
}

/// A clone of a value of `T` equals the value it was made from.
pub open spec fn clones_by_value<T: Clone>() -> bool {
    forall|a: T, b: T| #[trigger] cloned(a, b) ==> a == b
}

/// Values of `T` are identified by their contents: `==` in executable code
/// decides mathematical equality, and a clone equals the value it was made
/// from.
pub open spec fn by_value<T: PartialEq + Clone>() -> bool {
    &&& T::obeys_eq_spec()
    &&& forall|a: T, b: T| #[trigger] a.eq_spec(&b) <==> a == b
    &&& clones_by_value::<T>()
}

/// Compares two values of a type that is identified by its contents.
pub fn same<T: PartialEq + Clone>(a: &T, b: &T) -> (equal: bool)
    requires
        by_value::<T>(),
    ensures
        equal == (*a == *b),
{
    a == b
}

/// Copies a value of a type whose clones equal the values they were made
/// from.
pub fn copy_of<T: Clone>(a: &T) -> (copy: T)
    requires
        clones_by_value::<T>(),
    ensures
        copy == *a,
{
    let copy = a.clone();
    assert(cloned(*a, copy));
    copy
}

/// The label under which a value is shown in error messages, metrics and
/// exported graphs: its `Debug` rendering, produced by `format!("{:?}", ..)`.
/// Nothing is claimed of the text, which is whatever the type's `Debug`
/// implementation writes; that implementation is taken not to fail.
#[verifier::external_body]
pub(crate) fn debug_label<T: Debug>(value: &T) -> (label: String) {
    format!("{:?}", value)
}

} // verus!
