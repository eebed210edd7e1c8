//! Packages and the actions that they ask for.

use vstd::prelude::*;
use crate::package::Spec;
use crate::path::Path;

pub mod action;

pub use action::ActionIter;

verus! {

/// A package that has been loaded: where it lies, and its description.
#[derive(Debug, PartialEq)]
pub struct PackageData {
    /// The root directory of the package.
    pub path: Path,
    pub spec: Spec,
}

} // verus!
