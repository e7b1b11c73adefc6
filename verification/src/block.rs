//! The block cipher: the forward and inverse round sequences of FIPS-197
//! over exactly one 16-byte block, and the proof that deciphering a block
//! undoes enciphering it under the same schedule.

use vstd::prelude::*;
use crate::state::{
    add_round_key_s, sub_bytes_s, inv_sub_bytes_s, shift_rows_s, inv_shift_rows_s, mix_columns_s,
    inv_mix_columns_s, lemma_add_round_key_inverse, lemma_sub_bytes_inverse,
    lemma_shift_rows_inverse, lemma_mix_columns_inverse, add_round_key, sub_bytes, inv_sub_bytes,
    shift_rows, inv_shift_rows, mix_columns, inv_mix_columns,
};

verus! {

/// One middle round of the cipher: SubBytes, ShiftRows, MixColumns,
/// AddRoundKey(r).
pub open spec fn enc_round_s(s: Seq<u8>, keys: Seq<u8>, r: int) -> Seq<u8> {
    add_round_key_s(mix_columns_s(shift_rows_s(sub_bytes_s(s))), keys, r)
}

/// The state after the middle rounds 1 through `k` of the cipher.
pub open spec fn enc_rounds_s(s: Seq<u8>, keys: Seq<u8>, k: int) -> Seq<u8>
    decreases k,
{
    if k < 1 {
        s
    } else {
        enc_round_s(enc_rounds_s(s, keys, k - 1), keys, k)
    }
}

/// The whole forward cipher of one block: AddRoundKey(0), the middle
/// rounds 1 through nr-1, and the final round (SubBytes, ShiftRows,
/// AddRoundKey(nr)) without MixColumns.
pub open spec fn cipher_s(s: Seq<u8>, keys: Seq<u8>, nr: int) -> Seq<u8> {
    add_round_key_s(
        shift_rows_s(sub_bytes_s(enc_rounds_s(add_round_key_s(s, keys, 0), keys, nr - 1))),
        keys,
        nr,
    )
}

/// One middle round of the inverse cipher: InvShiftRows, InvSubBytes,
/// AddRoundKey(r), InvMixColumns.
pub open spec fn dec_round_s(s: Seq<u8>, keys: Seq<u8>, r: int) -> Seq<u8> {
    inv_mix_columns_s(add_round_key_s(inv_sub_bytes_s(inv_shift_rows_s(s)), keys, r))
}

/// The state after the middle rounds `r` down through 1 of the inverse
/// cipher.
pub open spec fn dec_rounds_s(s: Seq<u8>, keys: Seq<u8>, r: int) -> Seq<u8>
    decreases r,
{
    if r < 1 {
        s
    } else {
        dec_rounds_s(dec_round_s(s, keys, r), keys, r - 1)
    }
}

/// The whole inverse cipher of one block: AddRoundKey(nr), the middle
/// rounds nr-1 down through 1, and the final steps InvShiftRows,
/// InvSubBytes, AddRoundKey(0).
pub open spec fn inv_cipher_s(s: Seq<u8>, keys: Seq<u8>, nr: int) -> Seq<u8> {
    add_round_key_s(
        inv_sub_bytes_s(inv_shift_rows_s(dec_rounds_s(add_round_key_s(s, keys, nr), keys, nr - 1))),
        keys,
        0,
    )
}

/// The middle rounds preserve the block length.
pub proof fn lemma_enc_rounds_len(s: Seq<u8>, keys: Seq<u8>, k: int)
    requires
        s.len() == 16,
    ensures
        enc_rounds_s(s, keys, k).len() == 16,
    decreases k,
{
    if k >= 1 {
        lemma_enc_rounds_len(s, keys, k - 1);
    }
}

/// The inverse middle rounds unwind the forward middle rounds: from the
/// substituted-and-shifted image of the state after k forward rounds they
/// recover the substituted-and-shifted image of the state before them.
proof fn lemma_rounds_roundtrip(m: Seq<u8>, keys: Seq<u8>, k: int)
    requires
        m.len() == 16,
        k >= 0,
    ensures
        dec_rounds_s(shift_rows_s(sub_bytes_s(enc_rounds_s(m, keys, k))), keys, k)
            == shift_rows_s(sub_bytes_s(m)),
    decreases k,
{
    if k >= 1 {
        let e = enc_rounds_s(m, keys, k - 1);
        lemma_enc_rounds_len(m, keys, k - 1);
        let x = add_round_key_s(mix_columns_s(shift_rows_s(sub_bytes_s(e))), keys, k);
        lemma_shift_rows_inverse(sub_bytes_s(x));
        lemma_sub_bytes_inverse(x);
        lemma_add_round_key_inverse(mix_columns_s(shift_rows_s(sub_bytes_s(e))), keys, k);
        lemma_mix_columns_inverse(shift_rows_s(sub_bytes_s(e)));
        assert(dec_round_s(shift_rows_s(sub_bytes_s(x)), keys, k) == shift_rows_s(sub_bytes_s(e)));
        lemma_rounds_roundtrip(m, keys, k - 1);
    }
}

/// Deciphering a block under a schedule undoes enciphering it under the
/// same schedule, for every block, every schedule and every round count.
pub proof fn lemma_block_roundtrip(s: Seq<u8>, keys: Seq<u8>, nr: int)
    requires
        s.len() == 16,
        nr >= 1,
    ensures
        inv_cipher_s(cipher_s(s, keys, nr), keys, nr) == s,
{
    let m0 = add_round_key_s(s, keys, 0);
    let e = enc_rounds_s(m0, keys, nr - 1);
    lemma_enc_rounds_len(m0, keys, nr - 1);
    lemma_add_round_key_inverse(shift_rows_s(sub_bytes_s(e)), keys, nr);
    lemma_rounds_roundtrip(m0, keys, nr - 1);
    lemma_shift_rows_inverse(sub_bytes_s(m0));
    lemma_sub_bytes_inverse(m0);
    lemma_add_round_key_inverse(s, keys, 0);
}

/// Encipher one 16-byte block in place.
pub fn cipher(nr: u8, state: &mut [u8; 16], round_key: &[u8; 240])
    requires
        1 <= nr <= 14,
    ensures
        final(state)@ == cipher_s(old(state)@, round_key@, nr as int),
{
    let ghost s0 = state@;
    add_round_key(0, state, round_key);
    let mut round: u8 = 1;
    while round < nr
        invariant
            1 <= round <= nr,
            nr <= 14,
            state@.len() == 16,
            s0.len() == 16,
            state@ == enc_rounds_s(add_round_key_s(s0, round_key@, 0), round_key@, round as int - 1),
        decreases nr - round,
    {
        sub_bytes(state);
        shift_rows(state);
        mix_columns(state);
        add_round_key(round, state, round_key);
        round += 1;
    }
    sub_bytes(state);
    shift_rows(state);
    add_round_key(nr, state, round_key);
}

/// Decipher one 16-byte block in place.
pub fn inv_cipher(nr: u8, state: &mut [u8; 16], round_key: &[u8; 240])
    requires
        1 <= nr <= 14,
    ensures
        final(state)@ == inv_cipher_s(old(state)@, round_key@, nr as int),
{
    let ghost s0 = state@;
    add_round_key(nr, state, round_key);
    let ghost d0 = state@;
    let mut round: u8 = nr - 1;
    while round >= 1
        invariant
            round <= nr - 1,
            1 <= nr <= 14,
            state@.len() == 16,
            d0 == add_round_key_s(s0, round_key@, nr as int),
            dec_rounds_s(d0, round_key@, nr as int - 1) == dec_rounds_s(
                state@,
                round_key@,
                round as int,
            ),
        decreases round,
    {
        inv_shift_rows(state);
        inv_sub_bytes(state);
        add_round_key(round, state, round_key);
        inv_mix_columns(state);
        round -= 1;
    }
    inv_shift_rows(state);
    inv_sub_bytes(state);
    add_round_key(0, state, round_key);
}

} // verus!
