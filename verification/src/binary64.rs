//! Order and finiteness of doubles, read off their IEEE-754 bit patterns.
//!
//! A double is sign, exponent and fraction; with the sign bit taken off, the
//! remaining 63 bits grow with the absolute value. So a finite double stands
//! on the number line at `rank`: its magnitude bits, negated under the sign
//! bit. Both zeros stand at 0.

use vstd::prelude::*;

verus! {

/// The bit that holds the sign.
pub const SIGN_BIT: u64 = 0x8000_0000_0000_0000;

/// The magnitude bits of infinity: every exponent bit set, no fraction bit.
/// What lies above it is not a number.
pub const INFINITY: u64 = 0x7FF0_0000_0000_0000;

/// The pattern without its sign bit.
pub open spec fn magnitude(bits: u64) -> int {
    if bits >= SIGN_BIT {
        bits - SIGN_BIT
    } else {
        bits as int
    }
}

/// Whether the pattern is a number other than an infinity.
pub open spec fn is_finite(bits: u64) -> bool {
    magnitude(bits) < INFINITY
}

/// Where a finite double stands among the others.
pub open spec fn rank(bits: u64) -> int {
    if bits >= SIGN_BIT {
        -magnitude(bits)
    } else {
        magnitude(bits)
    }
}

/// `a < b` for two finite doubles. False when either is infinite or not a
/// number.
pub open spec fn below(a: u64, b: u64) -> bool {
    is_finite(a) && is_finite(b) && rank(a) < rank(b)
}

/// Decides `below`.
pub fn is_below(a: u64, b: u64) -> (r: bool)
    ensures
        r == below(a, b),
{
    let a_negative = a >= SIGN_BIT;
    let b_negative = b >= SIGN_BIT;
    let a_magnitude: u64 = if a_negative { a - SIGN_BIT } else { a };
    let b_magnitude: u64 = if b_negative { b - SIGN_BIT } else { b };
    if a_magnitude >= INFINITY || b_magnitude >= INFINITY {
        false
    } else if a_negative {
        if b_negative {
            a_magnitude > b_magnitude
        } else {
            a_magnitude > 0 || b_magnitude > 0
        }
    } else {
        !b_negative && a_magnitude < b_magnitude
    }
}

/// A complex number: real and imaginary part, each a double given by its bit
/// pattern.
#[derive(Clone, Copy, Debug, PartialEq, Eq, Structural)]
pub struct Complex {
    pub re: u64,
    pub im: u64,
}

impl Complex {
    /// The origin of the plane, `0 + 0i`. The bit pattern of the double 0 is 0.
    pub open spec fn zero() -> Complex {
        Complex { re: 0, im: 0 }
    }

    /// The origin of the plane.
    pub fn origin() -> (z: Complex)
        ensures
            z == Complex::zero(),
    {
        Complex { re: 0, im: 0 }
    }
}

/// No double is below itself, and of two doubles at most one is below the
/// other.
pub proof fn lemma_below_is_strict(a: u64, b: u64)
    ensures
        !below(a, a),
        below(a, b) ==> !below(b, a),
{
}

/// What is below something that is below a third is below the third.
pub proof fn lemma_below_is_transitive(a: u64, b: u64, c: u64)
    requires
        below(a, b),
        below(b, c),
    ensures
        below(a, c),
{
}

} // verus!
