//! The one error of this library.

use vstd::prelude::*;

verus! {

/// Why an operation failed is deliberately not told: an encoding was
/// malformed, a tag did not match, bytes were missing or left over, or the
/// arithmetic engine could not allocate. Telling these apart has helped
/// attacks on RSA padding in the past.
#[derive(Clone, Copy, Debug, PartialEq, Eq)]
pub struct Unspecified;

} // verus!
