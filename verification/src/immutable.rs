use vstd::prelude::*;

verus! {

/// A container for values that are only handed out read-only.
#[derive(Debug, Clone)]
pub struct Immutable<T> {
    value: T,
}

impl<T> Immutable<T> {
    pub closed spec fn spec_value(&self) -> T {
        self.value
    }

    pub fn new(value: T) -> (r: Immutable<T>)
        ensures
            r.spec_value() == value,
    {
        Immutable { value }
    }

    /// Read-only access to the held value.
    pub fn get(&self) -> (r: &T)
        ensures
            r == self.spec_value(),
    {
        &self.value
    }
}

} // verus!
