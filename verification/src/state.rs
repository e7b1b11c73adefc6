//! The four elementary transformations of the 16-byte cipher state —
//! byte substitution, row rotation, column mixing and round-key XOR —
//! with their inverses. The state is a 4x4 byte matrix in column-major
//! order: the byte at row r, column c lives at offset 4*c + r.

use vstd::prelude::*;
use crate::gf::{gf_xtime, gf_mul, mix_col, inv_mix_col, lemma_mix_col_inverse, xtime, multiply};
use crate::tables::{sbox, inv_sbox, get_sbox_value, get_sbox_invert, lemma_sbox_inverse};

verus! {

/// XOR of the state with the 16-byte round key at byte offset `16*round`
/// of the schedule.
pub open spec fn add_round_key_s(s: Seq<u8>, keys: Seq<u8>, round: int) -> Seq<u8> {
    Seq::new(16, |i: int| s[i] ^ keys[16 * round + i])
}

/// Every byte of the state replaced by its S-box image.
pub open spec fn sub_bytes_s(s: Seq<u8>) -> Seq<u8> {
    Seq::new(16, |i: int| sbox(s[i]))
}

/// Every byte of the state replaced by its inverse-S-box image.
pub open spec fn inv_sub_bytes_s(s: Seq<u8>) -> Seq<u8> {
    Seq::new(16, |i: int| inv_sbox(s[i]))
}

/// Row r of the state matrix rotated left by r positions: the byte at
/// row r, column c (offset 4*c + r) is replaced by the byte at row r,
/// column (c + r) mod 4. Row 0 is unmoved.
pub open spec fn shift_rows_s(s: Seq<u8>) -> Seq<u8> {
    seq![
        s[0], s[5], s[10], s[15],
        s[4], s[9], s[14], s[3],
        s[8], s[13], s[2], s[7],
        s[12], s[1], s[6], s[11],
    ]
}

/// Row r of the state matrix rotated right by r positions: the inverse
/// of `shift_rows_s`.
pub open spec fn inv_shift_rows_s(s: Seq<u8>) -> Seq<u8> {
    seq![
        s[0], s[13], s[10], s[7],
        s[4], s[1], s[14], s[11],
        s[8], s[5], s[2], s[15],
        s[12], s[9], s[6], s[3],
    ]
}

/// Every column of the state multiplied by the MixColumns matrix.
pub open spec fn mix_columns_s(s: Seq<u8>) -> Seq<u8> {
    seq![
        mix_col(0, s[0], s[1], s[2], s[3]),
        mix_col(1, s[0], s[1], s[2], s[3]),
        mix_col(2, s[0], s[1], s[2], s[3]),
        mix_col(3, s[0], s[1], s[2], s[3]),
        mix_col(0, s[4], s[5], s[6], s[7]),
        mix_col(1, s[4], s[5], s[6], s[7]),
        mix_col(2, s[4], s[5], s[6], s[7]),
        mix_col(3, s[4], s[5], s[6], s[7]),
        mix_col(0, s[8], s[9], s[10], s[11]),
        mix_col(1, s[8], s[9], s[10], s[11]),
        mix_col(2, s[8], s[9], s[10], s[11]),
        mix_col(3, s[8], s[9], s[10], s[11]),
        mix_col(0, s[12], s[13], s[14], s[15]),
        mix_col(1, s[12], s[13], s[14], s[15]),
        mix_col(2, s[12], s[13], s[14], s[15]),
        mix_col(3, s[12], s[13], s[14], s[15]),
    ]
}

/// Every column of the state multiplied by the inverse MixColumns matrix.
pub open spec fn inv_mix_columns_s(s: Seq<u8>) -> Seq<u8> {
    seq![
        inv_mix_col(0, s[0], s[1], s[2], s[3]),
        inv_mix_col(1, s[0], s[1], s[2], s[3]),
        inv_mix_col(2, s[0], s[1], s[2], s[3]),
        inv_mix_col(3, s[0], s[1], s[2], s[3]),
        inv_mix_col(0, s[4], s[5], s[6], s[7]),
        inv_mix_col(1, s[4], s[5], s[6], s[7]),
        inv_mix_col(2, s[4], s[5], s[6], s[7]),
        inv_mix_col(3, s[4], s[5], s[6], s[7]),
        inv_mix_col(0, s[8], s[9], s[10], s[11]),
        inv_mix_col(1, s[8], s[9], s[10], s[11]),
        inv_mix_col(2, s[8], s[9], s[10], s[11]),
        inv_mix_col(3, s[8], s[9], s[10], s[11]),
        inv_mix_col(0, s[12], s[13], s[14], s[15]),
        inv_mix_col(1, s[12], s[13], s[14], s[15]),
        inv_mix_col(2, s[12], s[13], s[14], s[15]),
        inv_mix_col(3, s[12], s[13], s[14], s[15]),
    ]
}

/// XOR with the same byte twice gives the byte back.
pub proof fn lemma_xor_cancel(x: u8, y: u8)
    by (bit_vector)
    ensures
        (x ^ y) ^ y == x,
{
}

/// Adding the same round key twice is the identity.
pub proof fn lemma_add_round_key_inverse(s: Seq<u8>, keys: Seq<u8>, round: int)
    requires
        s.len() == 16,
    ensures
        add_round_key_s(add_round_key_s(s, keys, round), keys, round) == s,
{
    assert forall|i: int| 0 <= i < 16 implies add_round_key_s(
        add_round_key_s(s, keys, round),
        keys,
        round,
    )[i] == s[i] by {
        lemma_xor_cancel(s[i], keys[16 * round + i]);
    }
    assert(add_round_key_s(add_round_key_s(s, keys, round), keys, round) =~= s);
}

/// InvSubBytes undoes SubBytes.
pub proof fn lemma_sub_bytes_inverse(s: Seq<u8>)
    requires
        s.len() == 16,
    ensures
        inv_sub_bytes_s(sub_bytes_s(s)) == s,
{
    assert forall|i: int| 0 <= i < 16 implies inv_sub_bytes_s(sub_bytes_s(s))[i] == s[i] by {
        lemma_sbox_inverse(s[i]);
    }
    assert(inv_sub_bytes_s(sub_bytes_s(s)) =~= s);
}

/// InvShiftRows undoes ShiftRows.
pub proof fn lemma_shift_rows_inverse(s: Seq<u8>)
    requires
        s.len() == 16,
    ensures
        inv_shift_rows_s(shift_rows_s(s)) == s,
{
    assert(inv_shift_rows_s(shift_rows_s(s)) =~= s);
}

/// InvMixColumns undoes MixColumns.
pub proof fn lemma_mix_columns_inverse(s: Seq<u8>)
    requires
        s.len() == 16,
    ensures
        inv_mix_columns_s(mix_columns_s(s)) == s,
{
    lemma_mix_col_inverse(s[0], s[1], s[2], s[3]);
    lemma_mix_col_inverse(s[4], s[5], s[6], s[7]);
    lemma_mix_col_inverse(s[8], s[9], s[10], s[11]);
    lemma_mix_col_inverse(s[12], s[13], s[14], s[15]);
    assert(inv_mix_columns_s(mix_columns_s(s)) =~= s);
}

/// XOR the 16-byte state with the round key at byte offset `16*round` of
/// the schedule.
pub fn add_round_key(round: u8, state: &mut [u8; 16], round_key: &[u8; 240])
    requires
        round <= 14,
    ensures
        final(state)@ == add_round_key_s(old(state)@, round_key@, round as int),
{
    let ghost s0 = state@;
    let mut i: usize = 0;
    while i < 16
        invariant
            round <= 14,
            i <= 16,
            state@.len() == 16,
            s0.len() == 16,
            forall|j: int| 0 <= j < i ==> state@[j] == add_round_key_s(
                s0,
                round_key@,
                round as int,
            )[j],
            forall|j: int| i <= j < 16 ==> state@[j] == s0[j],
        decreases 16 - i,
    {
        let v = state[i] ^ round_key[(round as usize) * 16 + i];
        state[i] = v;
        i += 1;
    }
    assert(state@ =~= add_round_key_s(s0, round_key@, round as int));
}

/// Substitute every byte of the state through the S-box.
pub fn sub_bytes(state: &mut [u8; 16])
    ensures
        final(state)@ == sub_bytes_s(old(state)@),
{
    let ghost s0 = state@;
    let mut i: usize = 0;
    while i < 16
        invariant
            i <= 16,
            state@.len() == 16,
            s0.len() == 16,
            forall|j: int| 0 <= j < i ==> state@[j] == sub_bytes_s(s0)[j],
            forall|j: int| i <= j < 16 ==> state@[j] == s0[j],
        decreases 16 - i,
    {
        let v = get_sbox_value(state[i]);
        state[i] = v;
        i += 1;
    }
    assert(state@ =~= sub_bytes_s(s0));
}

/// Substitute every byte of the state through the inverse S-box.
pub fn inv_sub_bytes(state: &mut [u8; 16])
    ensures
        final(state)@ == inv_sub_bytes_s(old(state)@),
{
    let ghost s0 = state@;
    let mut i: usize = 0;
    while i < 16
        invariant
            i <= 16,
            state@.len() == 16,
            s0.len() == 16,
            forall|j: int| 0 <= j < i ==> state@[j] == inv_sub_bytes_s(s0)[j],
            forall|j: int| i <= j < 16 ==> state@[j] == s0[j],
        decreases 16 - i,
    {
        let v = get_sbox_invert(state[i]);
        state[i] = v;
        i += 1;
    }
    assert(state@ =~= inv_sub_bytes_s(s0));
}

/// Rotate row r of the state left by r positions.
pub fn shift_rows(state: &mut [u8; 16])
    ensures
        final(state)@ == shift_rows_s(old(state)@),
{
    let ghost s0 = state@;
    // Row 1: rotate left by one.
    let mut temp = state[1];
    state[1] = state[5];
    state[5] = state[9];
    state[9] = state[13];
    state[13] = temp;

    // Row 2: rotate left by two (two swaps).
    temp = state[2];
    state[2] = state[10];
    state[10] = temp;
    temp = state[6];
    state[6] = state[14];
    state[14] = temp;

    // Row 3: rotate left by three (right by one).
    temp = state[3];
    state[3] = state[15];
    state[15] = state[11];
    state[11] = state[7];
    state[7] = temp;

    assert(state@ =~= shift_rows_s(s0));
}

/// Rotate row r of the state right by r positions.
pub fn inv_shift_rows(state: &mut [u8; 16])
    ensures
        final(state)@ == inv_shift_rows_s(old(state)@),
{
    let ghost s0 = state@;
    // Row 1: rotate right by one.
    let mut temp = state[13];
    state[13] = state[9];
    state[9] = state[5];
    state[5] = state[1];
    state[1] = temp;

    // Row 2: rotate right by two (two swaps).
    temp = state[2];
    state[2] = state[10];
    state[10] = temp;
    temp = state[6];
    state[6] = state[14];
    state[14] = temp;

    // Row 3: rotate right by three (left by one).
    temp = state[3];
    state[3] = state[7];
    state[7] = state[11];
    state[11] = state[15];
    state[15] = temp;

    assert(state@ =~= inv_shift_rows_s(s0));
}

/// One column through the MixColumns matrix, computed as in FIPS-197:
/// t XOR xtime(pairwise sums) XOR the sum of the column.
fn mix_one_column(a: u8, b: u8, c: u8, d: u8) -> (r: (u8, u8, u8, u8))
    ensures
        r.0 == mix_col(0, a, b, c, d),
        r.1 == mix_col(1, a, b, c, d),
        r.2 == mix_col(2, a, b, c, d),
        r.3 == mix_col(3, a, b, c, d),
{
    let tmp = a ^ b ^ c ^ d;
    let r0 = a ^ xtime(a ^ b) ^ tmp;
    let r1 = b ^ xtime(b ^ c) ^ tmp;
    let r2 = c ^ xtime(c ^ d) ^ tmp;
    let r3 = d ^ xtime(d ^ a) ^ tmp;
    proof {
        reveal(mix_col);
        assert(a ^ gf_xtime(a ^ b) ^ (a ^ b ^ c ^ d) == gf_mul(a, 2) ^ gf_mul(b, 3) ^ c ^ d)
            by (bit_vector);
        assert(b ^ gf_xtime(b ^ c) ^ (a ^ b ^ c ^ d) == a ^ gf_mul(b, 2) ^ gf_mul(c, 3) ^ d)
            by (bit_vector);
        assert(c ^ gf_xtime(c ^ d) ^ (a ^ b ^ c ^ d) == a ^ b ^ gf_mul(c, 2) ^ gf_mul(d, 3))
            by (bit_vector);
        assert(d ^ gf_xtime(d ^ a) ^ (a ^ b ^ c ^ d) == gf_mul(a, 3) ^ b ^ c ^ gf_mul(d, 2))
            by (bit_vector);
    }
    (r0, r1, r2, r3)
}

/// One column through the inverse MixColumns matrix, by GF(2^8)
/// multiplication with the inverse matrix constants.
fn inv_mix_one_column(a: u8, b: u8, c: u8, d: u8) -> (r: (u8, u8, u8, u8))
    ensures
        r.0 == inv_mix_col(0, a, b, c, d),
        r.1 == inv_mix_col(1, a, b, c, d),
        r.2 == inv_mix_col(2, a, b, c, d),
        r.3 == inv_mix_col(3, a, b, c, d),
{
    proof {
        reveal(inv_mix_col);
    }
    let r0 = multiply(a, 0x0e) ^ multiply(b, 0x0b) ^ multiply(c, 0x0d) ^ multiply(d, 0x09);
    let r1 = multiply(a, 0x09) ^ multiply(b, 0x0e) ^ multiply(c, 0x0b) ^ multiply(d, 0x0d);
    let r2 = multiply(a, 0x0d) ^ multiply(b, 0x09) ^ multiply(c, 0x0e) ^ multiply(d, 0x0b);
    let r3 = multiply(a, 0x0b) ^ multiply(b, 0x0d) ^ multiply(c, 0x09) ^ multiply(d, 0x0e);
    (r0, r1, r2, r3)
}

/// Multiply every column of the state by the MixColumns matrix.
pub fn mix_columns(state: &mut [u8; 16])
    ensures
        final(state)@ == mix_columns_s(old(state)@),
{
    let ghost s0 = state@;
    let mut c: usize = 0;
    while c < 4
        invariant
            c <= 4,
            state@.len() == 16,
            s0.len() == 16,
            forall|j: int| 0 <= j < 4 * c ==> state@[j] == mix_columns_s(s0)[j],
            forall|j: int| 4 * c <= j < 16 ==> state@[j] == s0[j],
        decreases 4 - c,
    {
        let (r0, r1, r2, r3) = mix_one_column(
            state[4 * c],
            state[4 * c + 1],
            state[4 * c + 2],
            state[4 * c + 3],
        );
        state[4 * c] = r0;
        state[4 * c + 1] = r1;
        state[4 * c + 2] = r2;
        state[4 * c + 3] = r3;
        c += 1;
    }
    assert(state@ =~= mix_columns_s(s0));
}

/// Multiply every column of the state by the inverse MixColumns matrix.
pub fn inv_mix_columns(state: &mut [u8; 16])
    ensures
        final(state)@ == inv_mix_columns_s(old(state)@),
{
    let ghost s0 = state@;
    let mut c: usize = 0;
    while c < 4
        invariant
            c <= 4,
            state@.len() == 16,
            s0.len() == 16,
            forall|j: int| 0 <= j < 4 * c ==> state@[j] == inv_mix_columns_s(s0)[j],
            forall|j: int| 4 * c <= j < 16 ==> state@[j] == s0[j],
        decreases 4 - c,
    {
        let (r0, r1, r2, r3) = inv_mix_one_column(
            state[4 * c],
            state[4 * c + 1],
            state[4 * c + 2],
            state[4 * c + 3],
        );
        state[4 * c] = r0;
        state[4 * c + 1] = r1;
        state[4 * c + 2] = r2;
        state[4 * c + 3] = r3;
        c += 1;
    }
    assert(state@ =~= inv_mix_columns_s(s0));
}

} // verus!
