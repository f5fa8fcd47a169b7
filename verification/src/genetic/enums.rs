use vstd::prelude::*;

verus! {

/// How two parents are recombined into two children.
#[derive(Clone, Copy, Debug, PartialEq, Eq, Structural)]
pub enum CrossoverType {
    /// One cut; the tails behind it are exchanged.
    OnePoint,
    /// A window of genes is kept from each parent; everything outside it is zero.
    TwoPoint,
    /// Every position is inherited straight or crosswise on the flip of a coin.
    Uniform,
}

} // verus!
