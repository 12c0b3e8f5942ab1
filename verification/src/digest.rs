//! The hash algorithms that a signature can name. Nothing is hashed here.

use vstd::prelude::*;

verus! {

/// A hash algorithm.
#[derive(Clone, Copy, Debug, PartialEq, Eq)]
pub enum Algorithm {
    SHA1,
    SHA256,
    SHA384,
    SHA512,
}

impl Algorithm {
    /// The length in bytes of a digest of the algorithm.
    pub open spec fn spec_output_len(self) -> usize {
        match self {
            Algorithm::SHA1 => 20,
            Algorithm::SHA256 => 32,
            Algorithm::SHA384 => 48,
            Algorithm::SHA512 => 64,
        }
    }

    /// The length in bytes of a digest of the algorithm.
    #[verifier::when_used_as_spec(spec_output_len)]
    pub fn output_len(self) -> (len: usize)
        ensures
            len == self.spec_output_len(),
    {
        match self {
            Algorithm::SHA1 => 20,
            Algorithm::SHA256 => 32,
            Algorithm::SHA384 => 48,
            Algorithm::SHA512 => 64,
        }
    }
}

} // verus!
