//! What is known of a molecule before its shapes are built.
use crate::scalar::Scalar;
use vstd::prelude::*;

verus! {

/// A structure read from a protein data bank file.
#[derive(Debug, Clone, Copy, PartialEq, Eq, Structural)]
pub struct PDBStructure {
    /// How many chains the structure has.
    pub chains: u16,
}

/// The radius of the ball that stands for a carbon atom: 3.
pub fn carbon_radius() -> (radius: Scalar)
    ensures
        radius.bits == 0x4040_0000,
{
    Scalar::from_bits(0x4040_0000)
}

} // verus!
