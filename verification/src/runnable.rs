use vstd::prelude::*;

use crate::interpreter::VmError;

verus! {

/// Number of cells a fresh tape holds.
pub const BF_MEMORY_SIZE: usize = 30000;

/// Simple interface for a type that can be invoked without any arguments.
pub trait Runnable {
    /// Run this machine to completion.
    fn run(&mut self) -> Result<(), VmError>;
}

} // verus!
