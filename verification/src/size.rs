//! Byte counts.

use vstd::prelude::*;

verus! {

/// A number of bytes.
#[derive(Clone, Copy, Debug, PartialEq, Eq, Structural)]
pub struct Size(pub usize);

impl Size {
    /// Creates a size of `n` bytes.
    pub fn new(n: usize) -> (s: Size)
        ensures
            s.0 == n,
    {
        Size(n)
    }

    /// Creates a size of `n` KiB, that is `n` times 1024 bytes.
    pub fn kibi(n: usize) -> (s: Size)
        requires
            n * 1024 <= usize::MAX,
        ensures
            s.0 == n * 1024,
    {
        Size(n * 1024)
    }

    /// Creates a size of `n` MiB, that is `n` times 1024 times 1024 bytes.
    pub fn mebi(n: usize) -> (s: Size)
        requires
            n * 1048576 <= usize::MAX,
        ensures
            s.0 == n * 1048576,
    {
        Size(n * 1048576)
    }
}

} // verus!
