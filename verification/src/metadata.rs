//! Module metadata as a module's metadata file states it.

use vstd::prelude::*;

verus! {

/// Where a dependency goes in the load order relative to the module that
/// names it.
#[derive(Debug, Clone, Copy, PartialEq, Eq, Structural)]
pub enum DependencyOrderSpec {
    /// The dependency loads before the module.
    Before,
    /// The dependency loads after the module.
    After,
}

impl Default for DependencyOrderSpec {
    fn default() -> (order: Self)
        ensures
            order == DependencyOrderSpec::Before,
    {
        DependencyOrderSpec::Before
    }
}

} // verus!
