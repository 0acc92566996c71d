//! What can go wrong when two blocks are held against each other.
use vstd::prelude::*;

verus! {

/// Why the likeness of two sequences could not be measured.
#[derive(Debug, Clone, Copy, PartialEq, Eq, Structural)]
pub enum SsimError {
    /// The sequences do not hold equally many values.
    UnequalLengths,
}

impl SsimError {
    /// The error in words.
    pub fn message(&self) -> (text: String)
        ensures
            text@ == "Input slices must have the same length."@,
    {
        match self {
            SsimError::UnequalLengths => "Input slices must have the same length.".to_owned(),
        }
    }

    /// Whether two sequences of the given lengths can be held against each
    /// other.
    pub fn check_lengths(test: usize, reference: usize) -> (res: Result<(), SsimError>)
        ensures
            res is Ok <==> test == reference,
            res is Err ==> res->Err_0 == SsimError::UnequalLengths,
    {
        if test != reference {
            Err(SsimError::UnequalLengths)
        } else {
            Ok(())
        }
    }
}

} // verus!
