use vstd::prelude::*;
use vstd::arithmetic::power2::{
    pow2, lemma2_to64, lemma2_to64_rest, lemma_pow2_strictly_increases, lemma_pow2_unfold,
};

verus! {

/// Identifies one tile of the quad-subdivided map pyramid.
#[derive(Clone, Copy, PartialEq, Eq, Structural, Debug)]
pub struct TileAddress {
    pub x: i64,
    pub y: i64,
    pub zoom: i64,
}

impl TileAddress {
    /// An address is valid exactly when the zoom is nonnegative and both
    /// axes fall inside the `2^zoom` by `2^zoom` grid of that level.
    pub open spec fn wf(self) -> bool {
        &&& 0 <= self.zoom
        &&& 0 <= self.x && (self.x as nat) < pow2(self.zoom as nat)
        &&& 0 <= self.y && (self.y as nat) < pow2(self.zoom as nat)
    }

    pub fn new(x: i64, y: i64, zoom: i64) -> (a: TileAddress)
        ensures
            a == (TileAddress { x, y, zoom }),
    {
        TileAddress { x, y, zoom }
    }

    /// Range check behind the address invariant: decides `wf` for every
    /// representable input.
    pub fn is_valid(&self) -> (r: bool)
        ensures
            r == self.wf(),
    {
        if self.zoom < 0 || self.x < 0 || self.y < 0 {
            return false;
        }
        if self.zoom >= 63 {
            // Every nonnegative machine coordinate is below 2^63 <= 2^zoom.
            proof {
                lemma2_to64_rest();
                if self.zoom > 63 {
                    lemma_pow2_strictly_increases(63, self.zoom as nat);
                }
                assert((self.x as nat) < pow2(63));
                assert((self.y as nat) < pow2(63));
            }
            return true;
        }
        let bound = pow2_u64(self.zoom as u64);
        (self.x as u64) < bound && (self.y as u64) < bound
    }
}

/// Computes `2^e` for exponents small enough to fit the result in a `u64`.
pub fn pow2_u64(e: u64) -> (p: u64)
    requires
        e < 64,
    ensures
        p == pow2(e as nat),
{
    let mut p: u64 = 1;
    let mut k: u64 = 0;
    proof {
        lemma2_to64();
    }
    while k < e
        invariant
            k <= e < 64,
            p == pow2(k as nat),
        decreases e - k,
    {
        proof {
            lemma_pow2_unfold((k + 1) as nat);
            lemma2_to64_rest();
            if ((k + 1) as nat) < 63 {
                lemma_pow2_strictly_increases((k + 1) as nat, 63);
            }
        }
        p = p * 2;
        k = k + 1;
    }
    p
}

} // verus!
