//! I/O port numbers. Reading and writing the ports is the job of the code
//! that runs on the machine; the library only decides which port to use.
use vstd::prelude::*;

verus! {

/// An x86 I/O port, given by its number.
#[derive(Clone, Copy, Debug, PartialEq, Eq)]
pub struct IoPort {
    pub number: u16,
}

impl IoPort {
    /// Create a handle for the I/O port with the given number.
    pub fn new(number: u16) -> (p: IoPort)
        ensures
            p.number == number,
    {
        IoPort { number }
    }
}

} // verus!
