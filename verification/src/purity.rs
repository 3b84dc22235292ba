//! The storage-purity effect lattice.
//!
//! The purity of a function describes its access to contract storage:
//! `Pure` functions touch no storage, `Reads` and `Writes` perform only the
//! named kind of access, and `ReadsWrites` may do both. `Pure` is the bottom
//! of the lattice, `ReadsWrites` the top; `Reads` and `Writes` are
//! incomparable siblings.

use vstd::prelude::*;

verus! {

#[derive(Clone, Copy, Debug, PartialEq, Eq, Structural)]
pub enum Purity {
    Pure,
    Reads,
    Writes,
    ReadsWrites,
}

/// What `can_call` must return: a caller may only invoke callees whose
/// storage effects its own declared purity already covers. `Reads` and
/// `Writes` are incomparable, so neither may call the other.
pub open spec fn spec_can_call(caller: Purity, callee: Purity) -> bool {
    match caller {
        Purity::Pure => callee == Purity::Pure,
        Purity::Reads => callee == Purity::Pure || callee == Purity::Reads,
        Purity::Writes => callee == Purity::Pure || callee == Purity::Writes,
        Purity::ReadsWrites => true,
    }
}

/// What `promote_purity` must return: the union of two effects accumulated
/// left-to-right. A `Reads`/`Writes` collision (in either order) yields
/// `ReadsWrites`, `ReadsWrites` absorbs everything, and otherwise the
/// second operand wins.
pub open spec fn spec_promote_purity(from: Purity, to: Purity) -> Purity {
    match (from, to) {
        (Purity::Reads, Purity::Writes) => Purity::ReadsWrites,
        (Purity::Writes, Purity::Reads) => Purity::ReadsWrites,
        (Purity::ReadsWrites, _) => Purity::ReadsWrites,
        _ => to,
    }
}

impl Purity {
    /// Whether a function of purity `self` may call a function of purity
    /// `other`.
    pub fn can_call(&self, other: Purity) -> (r: bool)
        ensures
            r == spec_can_call(*self, other),
    {
        match self {
            Purity::Pure => other == Purity::Pure,
            Purity::Reads => other == Purity::Pure || other == Purity::Reads,
            Purity::Writes => other == Purity::Pure || other == Purity::Writes,
            Purity::ReadsWrites => true,
        }
    }
}

impl Default for Purity {
    /// A function with no storage annotation is `Pure`.
    fn default() -> (r: Self)
        ensures
            r == Purity::Pure,
    {
        Purity::Pure
    }
}

/// Utility to find the union of purities. To promote `Reads` to `Writes` we
/// want `ReadsWrites`, and the same for `Writes` to `Reads`.
pub fn promote_purity(from: Purity, to: Purity) -> (r: Purity)
    ensures
        r == spec_promote_purity(from, to),
{
    match (from, to) {
        (Purity::Reads, Purity::Writes)
        | (Purity::Writes, Purity::Reads)
        | (Purity::ReadsWrites, _) => Purity::ReadsWrites,
        _ => to,
    }
}

/// Law: a promotion always covers its second operand — the accumulated
/// purity may call anything of the purity just folded in. The first operand
/// is deliberately *not* covered in general: the second operand wins except
/// for the `Reads`/`Writes` collision, so e.g. promoting `Reads` with `Pure`
/// yields `Pure`.
pub proof fn lemma_promote_covers_to(from: Purity, to: Purity)
    ensures
        spec_can_call(spec_promote_purity(from, to), to),
        from == Purity::ReadsWrites ==> spec_promote_purity(from, to) == Purity::ReadsWrites,
{
}

} // verus!
