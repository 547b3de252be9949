//! Alignment arithmetic for the container layout.
//!
//! Two spots in the byte format need padding: the level index must start on a
//! 4-byte boundary after the data format descriptor, and pixel data must start
//! on an 8-byte boundary after the level index.

use vstd::arithmetic::div_mod::{
    lemma_fundamental_div_mod, lemma_mod_bound, lemma_mod_multiples_basic,
};
use vstd::prelude::*;

verus! {

/// The smallest multiple of `boundary` that is at least `offset`.
pub open spec fn spec_align_up(offset: int, boundary: int) -> int
    recommends
        boundary > 0,
{
    ((offset + boundary - 1) / boundary) * boundary
}

/// `spec_align_up` rounds up to a multiple of the boundary and moves the
/// offset forward by less than one boundary.
pub proof fn lemma_align_up(offset: int, boundary: int)
    requires
        offset >= 0,
        boundary > 0,
    ensures
        spec_align_up(offset, boundary) % boundary == 0,
        offset <= spec_align_up(offset, boundary) < offset + boundary,
{
    let x = offset + boundary - 1;
    lemma_fundamental_div_mod(x, boundary);
    lemma_mod_bound(x, boundary);
    lemma_mod_multiples_basic(x / boundary, boundary);
    assert(x == boundary * (x / boundary) + x % boundary);
    assert(boundary * (x / boundary) == (x / boundary) * boundary) by (nonlinear_arith);
    assert(spec_align_up(offset, boundary) == x - x % boundary);
}

/// Rounds `offset` up to the next multiple of `boundary`.
///
/// The container format only ever aligns to 4 or 8, both powers of two, but
/// the arithmetic is correct for any positive boundary.
pub fn align_up(offset: u64, boundary: u64) -> (r: u64)
    requires
        boundary > 0,
        offset + boundary - 1 <= u64::MAX,
    ensures
        r == spec_align_up(offset as int, boundary as int),
        r % boundary == 0,
        offset <= r < offset + boundary,
{
    proof {
        lemma_align_up(offset as int, boundary as int);
    }
    let x: u64 = offset + (boundary - 1);
    (x / boundary) * boundary
}

} // verus!
