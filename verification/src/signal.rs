//! The driver-owned termination signal.

use vstd::prelude::*;

verus! {

/// A single-slot completion cell. A designated terminal capability
/// writes it at most once; the driver observes it after each step and
/// stops calling the stepper once it is populated.
pub struct TerminationSignal<T> {
    slot: Option<T>,
}

impl<T> View for TerminationSignal<T> {
    type V = Option<T>;

    closed spec fn view(&self) -> Option<T> {
        self.slot
    }
}

impl<T> TerminationSignal<T> {
    pub fn new() -> (r: Self)
        ensures
            r@ is None,
    {
        TerminationSignal { slot: None }
    }

    /// Writes the slot. The first write fills it and reports true; any
    /// later write is refused and leaves the first value in place.
    pub fn set(&mut self, v: T) -> (r: bool)
        ensures
            old(self)@ is None ==> r && final(self)@ == Some(v),
            old(self)@ is Some ==> !r && final(self)@ == old(self)@,
    {
        match &self.slot {
            None => {
                self.slot = Some(v);
                true
            },
            Some(_) => false,
        }
    }

    pub fn is_set(&self) -> (r: bool)
        ensures
            r == (self@ is Some),
    {
        match &self.slot {
            Some(_) => true,
            None => false,
        }
    }

    /// A borrow of the written value, if any.
    pub fn get<'a>(&'a self) -> (r: Option<&'a T>)
        ensures
            match self@ {
                Some(v) => r is Some && *r->0 == v,
                None => r is None,
            },
    {
        match &self.slot {
            Some(v) => Some(v),
            None => None,
        }
    }

    /// Hands the written value to the driver.
    pub fn take(self) -> (r: Option<T>)
        ensures
            r == self@,
    {
        self.slot
    }
}

} // verus!
