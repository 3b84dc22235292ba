//! Source-language notions shared across the semantic analysis.

use vstd::prelude::*;

verus! {

/// Whether a declaration or module is visible outside the item that owns it.
#[derive(Clone, Copy, Debug, PartialEq, Eq, Structural)]
pub enum Visibility {
    Private,
    Public,
}

} // verus!
