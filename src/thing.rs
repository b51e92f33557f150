//! How solid a simulated thing is, and which pairs of things collide.
use vstd::prelude::*;

verus! {

#[derive(Clone, Copy, Debug, PartialEq, Eq, Structural)]
pub enum Solid {
    /// Not solid: affects neither its own movement nor that of others.
    NonSolid,
    /// Solid for its own movement only; others ignore it.
    Partial,
    /// Solid: all movement is affected by it.
    Solid,
}

impl Default for Solid {
    fn default() -> (r: Solid)
        ensures
            r == Solid::Solid,
    {
        Solid::Solid
    }
}

impl Solid {
    /// Whether a moving thing of this kind is stopped by a thing of kind
    /// `other`: only where the mover is not `NonSolid` and the other is fully
    /// `Solid`.
    pub fn is_blocked_by(&self, other: Solid) -> (r: bool)
        ensures
            r == (*self != Solid::NonSolid && other == Solid::Solid),
    {
        match (*self, other) {
            (Solid::NonSolid, _) => false,
            (_, Solid::Solid) => true,
            _ => false,
        }
    }
}

} // verus!
