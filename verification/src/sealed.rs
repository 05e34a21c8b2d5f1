//! The seal on the symbol contract: only the terminal marker and the link can
//! implement it, so no structurally invalid third variant can exist.

use vstd::prelude::*;

verus! {

/// Implemented exactly for the two chain variants; unnameable outside the
/// crate, so downstream code cannot add another.
pub trait Sealed {

}

impl Sealed for crate::chain::Nil {

}

impl<const C: u32, Tail: Sealed> Sealed for crate::chain::Cons<C, Tail> {

}

} // verus!
