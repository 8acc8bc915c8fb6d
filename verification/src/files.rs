//! File references, as the standard library holds them.

use vstd::prelude::*;

verus! {

/// `std::path::PathBuf`, the reference to one frame's image file. Nothing in
/// this crate looks inside a path: paths are stored, compared in contracts
/// and handed on.
#[verifier::external_type_specification]
#[verifier::external_body]
pub struct ExPathBuf(std::path::PathBuf);

} // verus!
