//! Content hashes that identify modules.

use vstd::prelude::*;

verus! {

/// The 32-byte content hash of a module's bytecode. The cache uses it as a key
/// and never looks inside it.
#[derive(Clone, Copy, Debug, PartialEq, Eq, Hash)]
pub struct Checksum(pub [u8; 32]);

impl Checksum {
    /// Wraps the 32 bytes of a hash.
    pub fn new(bytes: [u8; 32]) -> (c: Checksum)
        ensures
            c.0 == bytes,
    {
        Checksum(bytes)
    }
}

} // verus!
