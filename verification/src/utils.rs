//! The shared numeric-tolerance utility.
//!
//! Every domain comparison of two quantities — scalars, tuples, colors,
//! matrix entries — goes through the one fixed absolute tolerance.

use vstd::prelude::*;
use crate::scalar::{Scalar, s_approx};

verus! {

/// True when the two scalars differ by at most the fixed tolerance.
pub fn is_equal(v1: Scalar, v2: Scalar) -> (r: bool)
    ensures
        r == s_approx(v1@, v2@),
{
    v1.approx_eq(v2)
}

} // verus!
