//! The value that a unit is run for, wrapped so that the host can hold it
//! as a resource while the unit runs, and the trait of the types that can
//! be run on the world of the host.

use vstd::prelude::*;

verus! {

/// Wraps the value that a unit is currently run for.
#[derive(Clone, Debug)]
pub struct Current<T: Clone + core::fmt::Debug>(T);

impl<T: Clone + core::fmt::Debug> Current<T> {
    /// The wrapped value.
    pub closed spec fn value(&self) -> T {
        self.0
    }

    /// Wraps `input`.
    pub fn new(input: T) -> (current: Self)
        ensures
            current.value() == input,
    {
        Self(input)
    }

    /// A reference to the wrapped value.
    pub fn get(&self) -> (inner: &T)
        ensures
            *inner == self.value(),
    {
        &self.0
    }

    /// A mutable reference to the wrapped value: what is written through
    /// it is what the wrapper holds afterwards.
    pub fn get_mut(&mut self) -> (inner: &mut T)
        ensures
            *inner == old(self).value(),
            final(self).value() == *final(inner),
    {
        &mut self.0
    }

    /// Unwraps the value.
    pub fn into_inner(self) -> (inner: T)
        ensures
            inner == self.value(),
    {
        self.0
    }
}

impl<T: Clone + core::fmt::Debug> core::ops::Deref for Current<T> {
    type Target = T;

    fn deref(&self) -> (inner: &T)
        ensures
            *inner == self.value(),
    {
        &self.0
    }
}

/// The world of the host runtime. Nothing of it is known here: it is only
/// handed through.
#[verifier::external_type_specification]
#[verifier::external_body]
pub struct ExWorld(bevy::prelude::World);

/// Implemented by the types that can run something on the world: running
/// consumes the boxed value and gives the result of the run.
pub trait Executable<O> {
    fn execute(self: Box<Self>, world: &mut bevy::prelude::World) -> O;
}

} // verus!
