//! Arithmetic in GF(2^8) with reduction polynomial x^8 + x^4 + x^3 + x + 1
//! (0x11b), as used by the MixColumns transformation.

use vstd::prelude::*;

verus! {

/// Multiplication by x (that is, by 2) in GF(2^8): shift left one bit and
/// reduce by 0x1b when the shifted-out bit was set.
pub open spec fn gf_xtime(x: u8) -> u8 {
    (x << 1) ^ ((((x >> 7) & 1) * 0x1b) as u8)
}

/// Multiplication of `x` by a constant `y` below 32 in GF(2^8):
/// the XOR of the doublings of `x` selected by the bits of `y`.
pub open spec fn gf_mul(x: u8, y: u8) -> u8 {
    (((y & 1) * x) as u8) ^ ((((y >> 1) & 1) * gf_xtime(x)) as u8) ^ ((((y >> 2) & 1) * gf_xtime(
        gf_xtime(x),
    )) as u8) ^ ((((y >> 3) & 1) * gf_xtime(gf_xtime(gf_xtime(x)))) as u8) ^ ((((y >> 4) & 1)
        * gf_xtime(gf_xtime(gf_xtime(gf_xtime(x))))) as u8)
}

/// Doubling in GF(2^8).
pub fn xtime(x: u8) -> (r: u8)
    ensures
        r == gf_xtime(x),
{
    proof {
        assert(((x >> 7) & 1) * 0x1b < 256) by (bit_vector);
    }
    (x << 1) ^ (((x >> 7) & 1) * 0x1b)
}

/// Multiplication in GF(2^8) by double-and-add over the bits of `y`.
pub fn multiply(x: u8, y: u8) -> (r: u8)
    ensures
        r == gf_mul(x, y),
{
    let x1 = xtime(x);
    let x2 = xtime(x1);
    let x3 = xtime(x2);
    let x4 = xtime(x3);
    proof {
        assert((y & 1) * x < 256 && ((y >> 1) & 1) * x1 < 256 && ((y >> 2) & 1) * x2 < 256 && ((y
            >> 3) & 1) * x3 < 256 && ((y >> 4) & 1) * x4 < 256) by (bit_vector);
    }
    ((y & 1) * x) ^ (((y >> 1) & 1) * x1) ^ (((y >> 2) & 1) * x2) ^ (((y >> 3) & 1) * x3) ^ (((y
        >> 4) & 1) * x4)
}

/// One column of the forward MixColumns matrix [[2,3,1,1],[1,2,3,1],[1,1,2,3],[3,1,1,2]]:
/// the row-`r` entry of the product of the matrix with the column (a,b,c,d).
#[verifier::opaque]
pub open spec fn mix_col(r: int, a: u8, b: u8, c: u8, d: u8) -> u8 {
    if r == 0 {
        gf_mul(a, 2) ^ gf_mul(b, 3) ^ c ^ d
    } else if r == 1 {
        a ^ gf_mul(b, 2) ^ gf_mul(c, 3) ^ d
    } else if r == 2 {
        a ^ b ^ gf_mul(c, 2) ^ gf_mul(d, 3)
    } else {
        gf_mul(a, 3) ^ b ^ c ^ gf_mul(d, 2)
    }
}

/// One column of the inverse MixColumns matrix [[14,11,13,9],[9,14,11,13],[13,9,14,11],[11,13,9,14]].
#[verifier::opaque]
pub open spec fn inv_mix_col(r: int, a: u8, b: u8, c: u8, d: u8) -> u8 {
    if r == 0 {
        gf_mul(a, 0x0e) ^ gf_mul(b, 0x0b) ^ gf_mul(c, 0x0d) ^ gf_mul(d, 0x09)
    } else if r == 1 {
        gf_mul(a, 0x09) ^ gf_mul(b, 0x0e) ^ gf_mul(c, 0x0b) ^ gf_mul(d, 0x0d)
    } else if r == 2 {
        gf_mul(a, 0x0d) ^ gf_mul(b, 0x09) ^ gf_mul(c, 0x0e) ^ gf_mul(d, 0x0b)
    } else {
        gf_mul(a, 0x0b) ^ gf_mul(b, 0x0d) ^ gf_mul(c, 0x09) ^ gf_mul(d, 0x0e)
    }
}

/// The inverse MixColumns matrix really is the inverse of the forward one:
/// applying both to any column of four bytes gives the column back.
#[verifier::rlimit(100)]
pub proof fn lemma_mix_col_inverse(a: u8, b: u8, c: u8, d: u8)
    ensures
        inv_mix_col(0, mix_col(0, a, b, c, d), mix_col(1, a, b, c, d), mix_col(2, a, b, c, d),
            mix_col(3, a, b, c, d)) == a,
        inv_mix_col(1, mix_col(0, a, b, c, d), mix_col(1, a, b, c, d), mix_col(2, a, b, c, d),
            mix_col(3, a, b, c, d)) == b,
        inv_mix_col(2, mix_col(0, a, b, c, d), mix_col(1, a, b, c, d), mix_col(2, a, b, c, d),
            mix_col(3, a, b, c, d)) == c,
        inv_mix_col(3, mix_col(0, a, b, c, d), mix_col(1, a, b, c, d), mix_col(2, a, b, c, d),
            mix_col(3, a, b, c, d)) == d,
{
    reveal(mix_col);
    reveal(inv_mix_col);
    assert(gf_mul(gf_mul(a, 2) ^ gf_mul(b, 3) ^ c ^ d, 0x0e) ^ gf_mul(
        a ^ gf_mul(b, 2) ^ gf_mul(c, 3) ^ d,
        0x0b,
    ) ^ gf_mul(a ^ b ^ gf_mul(c, 2) ^ gf_mul(d, 3), 0x0d) ^ gf_mul(
        gf_mul(a, 3) ^ b ^ c ^ gf_mul(d, 2),
        0x09,
    ) == a) by (bit_vector);
    assert(gf_mul(gf_mul(a, 2) ^ gf_mul(b, 3) ^ c ^ d, 0x09) ^ gf_mul(
        a ^ gf_mul(b, 2) ^ gf_mul(c, 3) ^ d,
        0x0e,
    ) ^ gf_mul(a ^ b ^ gf_mul(c, 2) ^ gf_mul(d, 3), 0x0b) ^ gf_mul(
        gf_mul(a, 3) ^ b ^ c ^ gf_mul(d, 2),
        0x0d,
    ) == b) by (bit_vector);
    assert(gf_mul(gf_mul(a, 2) ^ gf_mul(b, 3) ^ c ^ d, 0x0d) ^ gf_mul(
        a ^ gf_mul(b, 2) ^ gf_mul(c, 3) ^ d,
        0x09,
    ) ^ gf_mul(a ^ b ^ gf_mul(c, 2) ^ gf_mul(d, 3), 0x0e) ^ gf_mul(
        gf_mul(a, 3) ^ b ^ c ^ gf_mul(d, 2),
        0x0b,
    ) == c) by (bit_vector);
    assert(gf_mul(gf_mul(a, 2) ^ gf_mul(b, 3) ^ c ^ d, 0x0b) ^ gf_mul(
        a ^ gf_mul(b, 2) ^ gf_mul(c, 3) ^ d,
        0x0d,
    ) ^ gf_mul(a ^ b ^ gf_mul(c, 2) ^ gf_mul(d, 3), 0x09) ^ gf_mul(
        gf_mul(a, 3) ^ b ^ c ^ gf_mul(d, 2),
        0x0e,
    ) == d) by (bit_vector);
}

} // verus!
