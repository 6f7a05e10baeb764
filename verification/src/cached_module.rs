//! What the cache stores for each key.

use vstd::prelude::*;
use wasmer::Module;

verus! {

/// A compiled module of `wasmer`. Nothing is known of what it holds.
#[verifier::external_type_specification]
#[verifier::external_body]
pub struct ExModule(Module);

/// `Clone::clone` of `wasmer::Module`: the clone is a second handle on the same
/// compiled artifact, so it is the same value as the module it was made from.
pub assume_specification[ <Module as Clone>::clone ](module: &Module) -> (copy: Module)
    ensures
        copy == *module,
;

/// A compiled module together with the size that its owner declared for it.
#[derive(Debug)]
pub struct CachedModule {
    pub module: Module,
    /// The declared size in bytes. Nothing measures it.
    pub size: usize,
}

impl Clone for CachedModule {
    fn clone(&self) -> (copy: Self)
        ensures
            copy == *self,
    {
        CachedModule { module: self.module.clone(), size: self.size }
    }
}

} // verus!
