//! The mode drivers: ECB, CBC and CTR, extending the one-block cipher to
//! whole buffers, transformed in place. ECB and CBC demand block-aligned
//! buffers and reject others untouched; CTR takes any length. CBC and CTR
//! carry their chaining state (IV or big-endian counter) in the context
//! across calls.

use vstd::prelude::*;
use crate::block::{cipher_s, inv_cipher_s, lemma_block_roundtrip, cipher, inv_cipher};
use crate::ctx::{AES, AesError, AesView, nr_of, lemma_aes_view};
use crate::state::lemma_xor_cancel;

verus! {

/// The first 16 bytes of `s` XORed pointwise with `k`.
pub open spec fn xor16_s(s: Seq<u8>, k: Seq<u8>) -> Seq<u8> {
    Seq::new(16, |i: int| s[i] ^ k[i])
}

/// XOR with the same 16-byte block twice gives the block back.
pub proof fn lemma_xor16_inverse(s: Seq<u8>, k: Seq<u8>)
    requires
        s.len() == 16,
    ensures
        xor16_s(xor16_s(s, k), k) == s,
{
    assert forall|i: int| 0 <= i < 16 implies xor16_s(xor16_s(s, k), k)[i] == s[i] by {
        lemma_xor_cancel(s[i], k[i]);
    }
    assert(xor16_s(xor16_s(s, k), k) =~= s);
}

/// ECB encryption: every whole 16-byte block enciphered independently.
pub open spec fn ecb_encrypt_s(buf: Seq<u8>, keys: Seq<u8>, nr: int) -> Seq<u8>
    decreases buf.len(),
{
    if buf.len() < 16 {
        buf
    } else {
        cipher_s(buf.take(16), keys, nr) + ecb_encrypt_s(buf.skip(16), keys, nr)
    }
}

/// ECB decryption: every whole 16-byte block deciphered independently.
pub open spec fn ecb_decrypt_s(buf: Seq<u8>, keys: Seq<u8>, nr: int) -> Seq<u8>
    decreases buf.len(),
{
    if buf.len() < 16 {
        buf
    } else {
        inv_cipher_s(buf.take(16), keys, nr) + ecb_decrypt_s(buf.skip(16), keys, nr)
    }
}

/// CBC encryption: each block is XORed with the running chain block and
/// enciphered; the ciphertext becomes the chain for the next block.
pub open spec fn cbc_encrypt_s(buf: Seq<u8>, keys: Seq<u8>, nr: int, iv: Seq<u8>) -> Seq<u8>
    decreases buf.len(),
{
    if buf.len() < 16 {
        buf
    } else {
        let c = cipher_s(xor16_s(buf.take(16), iv), keys, nr);
        c + cbc_encrypt_s(buf.skip(16), keys, nr, c)
    }
}

/// The chain block left in the context after CBC encryption: the last
/// ciphertext block, or the IV itself for an empty buffer.
pub open spec fn cbc_encrypt_chain_s(buf: Seq<u8>, keys: Seq<u8>, nr: int, iv: Seq<u8>) -> Seq<u8>
    decreases buf.len(),
{
    if buf.len() < 16 {
        iv
    } else {
        cbc_encrypt_chain_s(buf.skip(16), keys, nr, cipher_s(xor16_s(buf.take(16), iv), keys, nr))
    }
}

/// CBC decryption: each ciphertext block is deciphered and XORed with the
/// previous ciphertext block (the IV for the first); the undeciphered
/// ciphertext block becomes the chain for the next one.
pub open spec fn cbc_decrypt_s(buf: Seq<u8>, keys: Seq<u8>, nr: int, iv: Seq<u8>) -> Seq<u8>
    decreases buf.len(),
{
    if buf.len() < 16 {
        buf
    } else {
        xor16_s(inv_cipher_s(buf.take(16), keys, nr), iv) + cbc_decrypt_s(
            buf.skip(16),
            keys,
            nr,
            buf.take(16),
        )
    }
}

/// The chain block left in the context after CBC decryption: the last
/// ciphertext block of the input, or the IV itself for an empty buffer.
pub open spec fn cbc_decrypt_chain_s(buf: Seq<u8>, iv: Seq<u8>) -> Seq<u8>
    decreases buf.len(),
{
    if buf.len() < 16 {
        iv
    } else {
        cbc_decrypt_chain_s(buf.skip(16), buf.take(16))
    }
}

/// The counter incremented by one as a big-endian unsigned integer, with
/// carry rippling from the last byte and wrap to all-zero on overflow.
pub open spec fn inc_counter_s(c: Seq<u8>) -> Seq<u8>
    decreases c.len(),
{
    if c.len() == 0 {
        c
    } else if c.last() == 0xff {
        inc_counter_s(c.drop_last()).push(0)
    } else {
        c.drop_last().push((c.last() + 1) as u8)
    }
}

/// CTR transformation: each 16-byte chunk (the last one possibly shorter)
/// is XORed with the enciphered counter, and the counter is incremented
/// per chunk. Encryption and decryption are the same operation.
pub open spec fn ctr_xcrypt_s(buf: Seq<u8>, keys: Seq<u8>, nr: int, ctr: Seq<u8>) -> Seq<u8>
    decreases buf.len(),
{
    if buf.len() == 0 {
        buf
    } else if buf.len() < 16 {
        let ks = cipher_s(ctr, keys, nr);
        Seq::new(buf.len(), |i: int| buf[i] ^ ks[i])
    } else {
        let ks = cipher_s(ctr, keys, nr);
        Seq::new(16, |i: int| buf[i] ^ ks[i]) + ctr_xcrypt_s(
            buf.skip(16),
            keys,
            nr,
            inc_counter_s(ctr),
        )
    }
}

/// The counter left in the context after a CTR call over `len` bytes: one
/// increment for every started chunk.
pub open spec fn ctr_counter_s(len: int, ctr: Seq<u8>) -> Seq<u8>
    decreases len,
{
    if len <= 0 {
        ctr
    } else if len <= 16 {
        inc_counter_s(ctr)
    } else {
        ctr_counter_s(len - 16, inc_counter_s(ctr))
    }
}

/// CBC encryption preserves the buffer length.
proof fn lemma_cbc_encrypt_len(buf: Seq<u8>, keys: Seq<u8>, nr: int, iv: Seq<u8>)
    ensures
        cbc_encrypt_s(buf, keys, nr, iv).len() == buf.len(),
    decreases buf.len(),
{
    if buf.len() >= 16 {
        lemma_cbc_encrypt_len(
            buf.skip(16),
            keys,
            nr,
            cipher_s(xor16_s(buf.take(16), iv), keys, nr),
        );
    }
}

/// The CTR transformation preserves the buffer length.
proof fn lemma_ctr_len(buf: Seq<u8>, keys: Seq<u8>, nr: int, ctr: Seq<u8>)
    ensures
        ctr_xcrypt_s(buf, keys, nr, ctr).len() == buf.len(),
    decreases buf.len(),
{
    if buf.len() >= 16 {
        lemma_ctr_len(buf.skip(16), keys, nr, inc_counter_s(ctr));
    }
}

/// Copy the 16-byte block of `buf` that starts at `off` into an array.
fn load_block(buf: &Vec<u8>, off: usize) -> (b: [u8; 16])
    requires
        off + 16 <= buf@.len(),
    ensures
        b@ == buf@.subrange(off as int, off as int + 16),
{
    let len = buf.len();
    let mut b = [0u8; 16];
    let mut i: usize = 0;
    while i < 16
        invariant
            i <= 16,
            off + 16 <= len == buf@.len(),
            b@.len() == 16,
            forall|j: int| 0 <= j < i ==> b@[j] == buf@[off + j],
        decreases 16 - i,
    {
        b[i] = buf[off + i];
        i += 1;
    }
    assert(b@ =~= buf@.subrange(off as int, off as int + 16));
    b
}

/// Write a 16-byte block back into `buf` at `off`, leaving the rest alone.
fn store_block(buf: &mut Vec<u8>, off: usize, b: &[u8; 16])
    requires
        off + 16 <= old(buf)@.len(),
    ensures
        final(buf)@.len() == old(buf)@.len(),
        forall|j: int|
            0 <= j < final(buf)@.len() ==> final(buf)@[j] == if off <= j < off + 16 {
                b@[j - off]
            } else {
                old(buf)@[j]
            },
{
    let len = buf.len();
    let mut i: usize = 0;
    while i < 16
        invariant
            i <= 16,
            off + 16 <= len == buf@.len(),
            buf@.len() == old(buf)@.len(),
            forall|j: int| 0 <= j < i ==> buf@[off + j] == b@[j],
            forall|j: int|
                0 <= j < buf@.len() && !(off <= j < off + i) ==> buf@[j] == old(buf)@[j],
        decreases 16 - i,
    {
        buf.set(off + i, b[i]);
        i += 1;
    }
}

/// XOR a 16-byte block with another in place.
pub fn xor_with_iv(buf: &mut [u8; 16], iv: &[u8; 16])
    ensures
        final(buf)@ == xor16_s(old(buf)@, iv@),
{
    let ghost b0 = buf@;
    let mut i: usize = 0;
    while i < 16
        invariant
            i <= 16,
            buf@.len() == 16,
            b0.len() == 16,
            forall|j: int| 0 <= j < i ==> buf@[j] == (b0[j] ^ iv@[j]),
            forall|j: int| i <= j < 16 ==> buf@[j] == b0[j],
        decreases 16 - i,
    {
        buf[i] = buf[i] ^ iv[i];
        i += 1;
    }
    assert(buf@ =~= xor16_s(b0, iv@));
}

/// Encipher every block of a block-aligned buffer in place, each block
/// independently; a buffer that is not a whole number of blocks is
/// rejected untouched.
pub fn aes_ecb_encrypt(ctx: &AES, buf: &mut Vec<u8>) -> (result: Result<(), AesError>)
    ensures
        result is Ok <==> old(buf)@.len() % 16 == 0,
        final(buf)@.len() == old(buf)@.len(),
        result is Ok ==> final(buf)@ == ecb_encrypt_s(
            old(buf)@,
            ctx@.schedule,
            nr_of(ctx@.size) as int,
        ),
        result is Err ==> final(buf)@ == old(buf)@ && (result matches Err(e) && e
            == AesError::BufferLength),
{
    if buf.len() % 16 != 0 {
        return Err(AesError::BufferLength);
    }
    let ghost b0 = buf@;
    let ghost keys = ctx@.schedule;
    let ghost nrg = nr_of(ctx@.size) as int;
    let nr = ctx.nr();
    let mut off: usize = 0;
    proof {
        lemma_aes_view(ctx);
        assert(buf@.skip(0) =~= b0.skip(0));
        assert(b0.skip(0) =~= b0);
        assert(buf@.take(0) + ecb_encrypt_s(b0, keys, nrg) =~= ecb_encrypt_s(b0, keys, nrg));
    }
    while off < buf.len()
        invariant
            off <= buf@.len(),
            off % 16 == 0,
            buf@.len() % 16 == 0,
            buf@.len() == b0.len(),
            1 <= nr <= 14,
            nrg == nr as int,
            keys == ctx.round_key@,
            buf@.skip(off as int) == b0.skip(off as int),
            ecb_encrypt_s(b0, keys, nrg) == buf@.take(off as int) + ecb_encrypt_s(
                b0.skip(off as int),
                keys,
                nrg,
            ),
        decreases buf@.len() - off,
    {
        let ghost pre = buf@;
        proof {
            assert forall|j: int| off <= j < b0.len() implies pre[j] == b0[j] by {
                assert(pre.skip(off as int)[j - off as int] == b0.skip(off as int)[j - off
                    as int]);
            }
        }
        let mut block = load_block(buf, off);
        assert(block@ =~= b0.skip(off as int).take(16));
        cipher(nr, &mut block, &ctx.round_key);
        store_block(buf, off, &block);
        proof {
            assert(buf@.take(off as int + 16) =~= pre.take(off as int) + cipher_s(
                b0.skip(off as int).take(16),
                keys,
                nrg,
            ));
            assert(buf@.skip(off as int + 16) =~= b0.skip(off as int + 16));
            assert(b0.skip(off as int).skip(16) =~= b0.skip(off as int + 16));
            assert(ecb_encrypt_s(b0, keys, nrg) =~= buf@.take(off as int + 16) + ecb_encrypt_s(
                b0.skip(off as int + 16),
                keys,
                nrg,
            ));
        }
        off += 16;
    }
    proof {
        assert(b0.skip(buf@.len() as int).len() == 0);
        assert(ecb_encrypt_s(b0, keys, nrg) =~= buf@.take(buf@.len() as int));
        assert(buf@.take(buf@.len() as int) =~= buf@);
    }
    Ok(())
}

/// Decipher every block of a block-aligned buffer in place, each block
/// independently; a buffer that is not a whole number of blocks is
/// rejected untouched.
pub fn aes_ecb_decrypt(ctx: &AES, buf: &mut Vec<u8>) -> (result: Result<(), AesError>)
    ensures
        result is Ok <==> old(buf)@.len() % 16 == 0,
        final(buf)@.len() == old(buf)@.len(),
        result is Ok ==> final(buf)@ == ecb_decrypt_s(
            old(buf)@,
            ctx@.schedule,
            nr_of(ctx@.size) as int,
        ),
        result is Err ==> final(buf)@ == old(buf)@ && (result matches Err(e) && e
            == AesError::BufferLength),
{
    if buf.len() % 16 != 0 {
        return Err(AesError::BufferLength);
    }
    let ghost b0 = buf@;
    let ghost keys = ctx@.schedule;
    let ghost nrg = nr_of(ctx@.size) as int;
    let nr = ctx.nr();
    let mut off: usize = 0;
    proof {
        lemma_aes_view(ctx);
        assert(buf@.skip(0) =~= b0.skip(0));
        assert(b0.skip(0) =~= b0);
        assert(buf@.take(0) + ecb_decrypt_s(b0, keys, nrg) =~= ecb_decrypt_s(b0, keys, nrg));
    }
    while off < buf.len()
        invariant
            off <= buf@.len(),
            off % 16 == 0,
            buf@.len() % 16 == 0,
            buf@.len() == b0.len(),
            1 <= nr <= 14,
            nrg == nr as int,
            keys == ctx.round_key@,
            buf@.skip(off as int) == b0.skip(off as int),
            ecb_decrypt_s(b0, keys, nrg) == buf@.take(off as int) + ecb_decrypt_s(
                b0.skip(off as int),
                keys,
                nrg,
            ),
        decreases buf@.len() - off,
    {
        let ghost pre = buf@;
        proof {
            assert forall|j: int| off <= j < b0.len() implies pre[j] == b0[j] by {
                assert(pre.skip(off as int)[j - off as int] == b0.skip(off as int)[j - off
                    as int]);
            }
        }
        let mut block = load_block(buf, off);
        assert(block@ =~= b0.skip(off as int).take(16));
        inv_cipher(nr, &mut block, &ctx.round_key);
        store_block(buf, off, &block);
        proof {
            assert(buf@.take(off as int + 16) =~= pre.take(off as int) + inv_cipher_s(
                b0.skip(off as int).take(16),
                keys,
                nrg,
            ));
            assert(buf@.skip(off as int + 16) =~= b0.skip(off as int + 16));
            assert(b0.skip(off as int).skip(16) =~= b0.skip(off as int + 16));
            assert(ecb_decrypt_s(b0, keys, nrg) =~= buf@.take(off as int + 16) + ecb_decrypt_s(
                b0.skip(off as int + 16),
                keys,
                nrg,
            ));
        }
        off += 16;
    }
    proof {
        assert(b0.skip(buf@.len() as int).len() == 0);
        assert(ecb_decrypt_s(b0, keys, nrg) =~= buf@.take(buf@.len() as int));
        assert(buf@.take(buf@.len() as int) =~= buf@);
    }
    Ok(())
}


/// Incrementing a counter whose trailing bytes past position `p` are all
/// 0xff and whose byte at `p` is not: the tail wraps to zero, byte `p`
/// steps up, and the head is untouched.
proof fn lemma_inc_structure(c: Seq<u8>, p: int)
    requires
        0 <= p < c.len(),
        c[p] != 0xff,
        forall|j: int| p < j < c.len() ==> c[j] == 0xff,
    ensures
        inc_counter_s(c).len() == c.len(),
        forall|j: int| 0 <= j < p ==> inc_counter_s(c)[j] == c[j],
        inc_counter_s(c)[p] == (c[p] + 1) as u8,
        forall|j: int| p < j < c.len() ==> inc_counter_s(c)[j] == 0,
    decreases c.len(),
{
    if p < c.len() - 1 {
        lemma_inc_structure(c.drop_last(), p);
    }
}

/// Incrementing an all-0xff counter wraps it to all-zero: the carry
/// ripples through every byte.
pub proof fn lemma_counter_wraparound(c: Seq<u8>)
    requires
        forall|j: int| 0 <= j < c.len() ==> c[j] == 0xff,
    ensures
        inc_counter_s(c).len() == c.len(),
        forall|j: int| 0 <= j < c.len() ==> inc_counter_s(c)[j] == 0,
    decreases c.len(),
{
    if c.len() > 0 {
        lemma_counter_wraparound(c.drop_last());
    }
}

/// Step the 16-byte big-endian counter by one in place, with byte-wise
/// carry from the last byte and wrap to all-zero on full overflow.
fn increment_counter(ctr: &mut [u8; 16])
    ensures
        final(ctr)@ == inc_counter_s(old(ctr)@),
{
    let ghost c0 = ctr@;
    let mut i: usize = 16;
    let mut done = false;
    while i > 0 && !done
        invariant
            i <= 16,
            c0.len() == 16,
            ctr@.len() == 16,
            !done ==> forall|j: int| 0 <= j < i ==> #[trigger] ctr@[j] == c0[j],
            !done ==> forall|j: int| i <= j < 16 ==> #[trigger] c0[j] == 0xff,
            !done ==> forall|j: int| i <= j < 16 ==> #[trigger] ctr@[j] == 0,
            done ==> ctr@ == inc_counter_s(c0),
        decreases i,
    {
        i -= 1;
        if ctr[i] == 255 {
            ctr[i] = 0;
        } else {
            ctr[i] = ctr[i] + 1;
            done = true;
            proof {
                lemma_inc_structure(c0, i as int);
                assert(inc_counter_s(c0).len() == 16);
                assert forall|j: int| 0 <= j < 16 implies ctr@[j] == inc_counter_s(c0)[j] by {
                    if j < i {
                        assert(inc_counter_s(c0)[j] == c0[j]);
                    } else if j == i {
                        assert(inc_counter_s(c0)[j] == (c0[j] + 1) as u8);
                    } else {
                        assert(inc_counter_s(c0)[j] == 0);
                    }
                }
                assert(ctr@ =~= inc_counter_s(c0));
            }
        }
    }
    if !done {
        proof {
            lemma_counter_wraparound(c0);
            assert(inc_counter_s(c0).len() == 16);
            assert forall|j: int| 0 <= j < 16 implies ctr@[j] == inc_counter_s(c0)[j] by {
                assert(inc_counter_s(c0)[j] == 0);
            }
            assert(ctr@ =~= inc_counter_s(c0));
        }
    }
}

/// CBC-encrypt a block-aligned buffer in place: each block XORed with the
/// running chain (the IV at first) and enciphered, the ciphertext
/// becoming the next chain block, which is stored back into the context
/// so a later call continues the stream. A buffer that is not a whole
/// number of blocks is rejected with buffer and context untouched.
pub fn aes_cbc_encrypt_buffer(ctx: &mut AES, buf: &mut Vec<u8>) -> (result: Result<(), AesError>)
    ensures
        result is Ok <==> old(buf)@.len() % 16 == 0,
        final(buf)@.len() == old(buf)@.len(),
        result is Ok ==> final(buf)@ == cbc_encrypt_s(
            old(buf)@,
            old(ctx)@.schedule,
            nr_of(old(ctx)@.size) as int,
            old(ctx)@.iv,
        ),
        result is Ok ==> final(ctx)@ == (AesView {
            iv: cbc_encrypt_chain_s(
                old(buf)@,
                old(ctx)@.schedule,
                nr_of(old(ctx)@.size) as int,
                old(ctx)@.iv,
            ),
            ..old(ctx)@
        }),
        result is Err ==> final(buf)@ == old(buf)@ && final(ctx)@ == old(ctx)@ && (
        result matches Err(e) && e == AesError::BufferLength),
{
    if buf.len() % 16 != 0 {
        return Err(AesError::BufferLength);
    }
    let ghost b0 = buf@;
    let ghost keys = ctx@.schedule;
    let ghost nrg = nr_of(ctx@.size) as int;
    let ghost iv0 = ctx@.iv;
    let nr = ctx.nr();
    let mut chain: [u8; 16] = ctx.iv;
    let mut off: usize = 0;
    proof {
        lemma_aes_view(ctx);
        assert(buf@.skip(0) =~= b0);
        assert(buf@.take(0) + cbc_encrypt_s(b0, keys, nrg, iv0) =~= cbc_encrypt_s(
            b0,
            keys,
            nrg,
            iv0,
        ));
    }
    while off < buf.len()
        invariant
            off <= buf@.len(),
            off % 16 == 0,
            buf@.len() % 16 == 0,
            buf@.len() == b0.len(),
            1 <= nr <= 14,
            nrg == nr as int,
            keys == ctx.round_key@,
            *ctx == *old(ctx),
            chain@.len() == 16,
            buf@.skip(off as int) == b0.skip(off as int),
            cbc_encrypt_s(b0, keys, nrg, iv0) == buf@.take(off as int) + cbc_encrypt_s(
                b0.skip(off as int),
                keys,
                nrg,
                chain@,
            ),
            cbc_encrypt_chain_s(b0, keys, nrg, iv0) == cbc_encrypt_chain_s(
                b0.skip(off as int),
                keys,
                nrg,
                chain@,
            ),
        decreases buf@.len() - off,
    {
        let ghost pre = buf@;
        let ghost chain_pre = chain@;
        proof {
            assert forall|j: int| off <= j < b0.len() implies pre[j] == b0[j] by {
                assert(pre.skip(off as int)[j - off as int] == b0.skip(off as int)[j - off
                    as int]);
            }
        }
        let mut block = load_block(buf, off);
        assert(block@ =~= b0.skip(off as int).take(16));
        xor_with_iv(&mut block, &chain);
        cipher(nr, &mut block, &ctx.round_key);
        store_block(buf, off, &block);
        chain = block;
        proof {
            assert(block@ == cipher_s(
                xor16_s(b0.skip(off as int).take(16), chain_pre),
                keys,
                nrg,
            ));
            assert(buf@.take(off as int + 16) =~= pre.take(off as int) + block@);
            assert(buf@.skip(off as int + 16) =~= b0.skip(off as int + 16));
            assert(b0.skip(off as int).skip(16) =~= b0.skip(off as int + 16));
            assert(cbc_encrypt_s(b0, keys, nrg, iv0) =~= buf@.take(off as int + 16)
                + cbc_encrypt_s(b0.skip(off as int + 16), keys, nrg, chain@));
        }
        off += 16;
    }
    proof {
        assert(b0.skip(buf@.len() as int).len() == 0);
        assert(cbc_encrypt_s(b0, keys, nrg, iv0) =~= buf@.take(buf@.len() as int));
        assert(buf@.take(buf@.len() as int) =~= buf@);
    }
    ctx.iv = chain;
    proof {
        lemma_aes_view(ctx);
        assert(ctx@ == (AesView { iv: cbc_encrypt_chain_s(b0, keys, nrg, iv0), ..old(ctx)@ }));
    }
    Ok(())
}

/// CBC-decrypt a block-aligned buffer in place: each ciphertext block is
/// deciphered and XORed with the previous ciphertext block (the IV at
/// first), and the last ciphertext block is stored back into the context
/// as the chain for a later call. A buffer that is not a whole number of
/// blocks is rejected with buffer and context untouched.
pub fn aes_cbc_decrypt_buffer(ctx: &mut AES, buf: &mut Vec<u8>) -> (result: Result<(), AesError>)
    ensures
        result is Ok <==> old(buf)@.len() % 16 == 0,
        final(buf)@.len() == old(buf)@.len(),
        result is Ok ==> final(buf)@ == cbc_decrypt_s(
            old(buf)@,
            old(ctx)@.schedule,
            nr_of(old(ctx)@.size) as int,
            old(ctx)@.iv,
        ),
        result is Ok ==> final(ctx)@ == (AesView {
            iv: cbc_decrypt_chain_s(old(buf)@, old(ctx)@.iv),
            ..old(ctx)@
        }),
        result is Err ==> final(buf)@ == old(buf)@ && final(ctx)@ == old(ctx)@ && (
        result matches Err(e) && e == AesError::BufferLength),
{
    if buf.len() % 16 != 0 {
        return Err(AesError::BufferLength);
    }
    let ghost b0 = buf@;
    let ghost keys = ctx@.schedule;
    let ghost nrg = nr_of(ctx@.size) as int;
    let ghost iv0 = ctx@.iv;
    let nr = ctx.nr();
    let mut chain: [u8; 16] = ctx.iv;
    let mut off: usize = 0;
    proof {
        lemma_aes_view(ctx);
        assert(buf@.skip(0) =~= b0);
        assert(buf@.take(0) + cbc_decrypt_s(b0, keys, nrg, iv0) =~= cbc_decrypt_s(
            b0,
            keys,
            nrg,
            iv0,
        ));
    }
    while off < buf.len()
        invariant
            off <= buf@.len(),
            off % 16 == 0,
            buf@.len() % 16 == 0,
            buf@.len() == b0.len(),
            1 <= nr <= 14,
            nrg == nr as int,
            keys == ctx.round_key@,
            *ctx == *old(ctx),
            chain@.len() == 16,
            buf@.skip(off as int) == b0.skip(off as int),
            cbc_decrypt_s(b0, keys, nrg, iv0) == buf@.take(off as int) + cbc_decrypt_s(
                b0.skip(off as int),
                keys,
                nrg,
                chain@,
            ),
            cbc_decrypt_chain_s(b0, iv0) == cbc_decrypt_chain_s(b0.skip(off as int), chain@),
        decreases buf@.len() - off,
    {
        let ghost pre = buf@;
        let ghost chain_pre = chain@;
        proof {
            assert forall|j: int| off <= j < b0.len() implies pre[j] == b0[j] by {
                assert(pre.skip(off as int)[j - off as int] == b0.skip(off as int)[j - off
                    as int]);
            }
        }
        let next_iv = load_block(buf, off);
        assert(next_iv@ =~= b0.skip(off as int).take(16));
        let mut block = next_iv;
        inv_cipher(nr, &mut block, &ctx.round_key);
        xor_with_iv(&mut block, &chain);
        store_block(buf, off, &block);
        chain = next_iv;
        proof {
            assert(block@ == xor16_s(
                inv_cipher_s(b0.skip(off as int).take(16), keys, nrg),
                chain_pre,
            ));
            assert(buf@.take(off as int + 16) =~= pre.take(off as int) + block@);
            assert(buf@.skip(off as int + 16) =~= b0.skip(off as int + 16));
            assert(b0.skip(off as int).skip(16) =~= b0.skip(off as int + 16));
            assert(cbc_decrypt_s(b0, keys, nrg, iv0) =~= buf@.take(off as int + 16)
                + cbc_decrypt_s(b0.skip(off as int + 16), keys, nrg, chain@));
        }
        off += 16;
    }
    proof {
        assert(b0.skip(buf@.len() as int).len() == 0);
        assert(cbc_decrypt_s(b0, keys, nrg, iv0) =~= buf@.take(buf@.len() as int));
        assert(buf@.take(buf@.len() as int) =~= buf@);
    }
    ctx.iv = chain;
    proof {
        lemma_aes_view(ctx);
        assert(ctx@ == (AesView { iv: cbc_decrypt_chain_s(b0, iv0), ..old(ctx)@ }));
    }
    Ok(())
}

/// CTR-transform a buffer of any length in place: each 16-byte chunk
/// (the last possibly shorter) is XORed with the enciphered counter, and
/// the counter — the context's IV field read as a 128-bit big-endian
/// integer — is incremented per chunk, wrapping on overflow. The same
/// call serves encryption and decryption.
pub fn aes_ctr_xcrypt_buffer(ctx: &mut AES, buf: &mut Vec<u8>)
    ensures
        final(buf)@.len() == old(buf)@.len(),
        final(buf)@ == ctr_xcrypt_s(
            old(buf)@,
            old(ctx)@.schedule,
            nr_of(old(ctx)@.size) as int,
            old(ctx)@.iv,
        ),
        final(ctx)@ == (AesView {
            iv: ctr_counter_s(old(buf)@.len() as int, old(ctx)@.iv),
            ..old(ctx)@
        }),
{
    let ghost b0 = buf@;
    let ghost keys = ctx@.schedule;
    let ghost nrg = nr_of(ctx@.size) as int;
    let ghost iv0 = ctx@.iv;
    let nr = ctx.nr();
    let mut off: usize = 0;
    proof {
        lemma_aes_view(ctx);
        assert(buf@.skip(0) =~= b0);
        assert(buf@.take(0) + ctr_xcrypt_s(b0, keys, nrg, iv0) =~= ctr_xcrypt_s(
            b0,
            keys,
            nrg,
            iv0,
        ));
    }
    while off < buf.len()
        invariant
            off <= buf@.len(),
            off % 16 == 0 || off == buf@.len(),
            buf@.len() == b0.len(),
            1 <= nr <= 14,
            nrg == nr as int,
            keys == ctx.round_key@,
            ctx.size == old(ctx).size,
            ctx.mode == old(ctx).mode,
            ctx.round_key == old(ctx).round_key,
            buf@.skip(off as int) == b0.skip(off as int),
            ctr_xcrypt_s(b0, keys, nrg, iv0) == buf@.take(off as int) + ctr_xcrypt_s(
                b0.skip(off as int),
                keys,
                nrg,
                ctx.iv@,
            ),
            ctr_counter_s(b0.len() as int, iv0) == ctr_counter_s(
                b0.len() - off as int,
                ctx.iv@,
            ),
        decreases buf@.len() - off,
    {
        let ghost pre = buf@;
        let ghost ctr_pre = ctx.iv@;
        proof {
            assert forall|j: int| off <= j < b0.len() implies pre[j] == b0[j] by {
                assert(pre.skip(off as int)[j - off as int] == b0.skip(off as int)[j - off
                    as int]);
            }
        }
        let mut keystream: [u8; 16] = ctx.iv;
        cipher(nr, &mut keystream, &ctx.round_key);
        increment_counter(&mut ctx.iv);
        let remaining = buf.len() - off;
        let n: usize = if remaining < 16 {
            remaining
        } else {
            16
        };
        let ghost ks = keystream@;
        let mut k: usize = 0;
        while k < n
            invariant
                k <= n,
                n <= 16,
                off + n <= buf@.len(),
                buf@.len() == pre.len(),
                ks.len() == 16,
                ks == keystream@,
                forall|j: int| 0 <= j < k ==> buf@[off + j] == (pre[off + j] ^ ks[j]),
                forall|j: int|
                    0 <= j < buf@.len() && !(off <= j < off + k) ==> buf@[j] == pre[j],
            decreases n - k,
        {
            let len = buf.len();
            buf.set(off + k, buf[off + k] ^ keystream[k]);
            k += 1;
        }
        proof {
            assert(ks == cipher_s(ctr_pre, keys, nrg));
            assert(ctx.iv@ == inc_counter_s(ctr_pre));
            if n == 16 {
                assert(buf@.take(off as int + 16) =~= pre.take(off as int) + Seq::new(
                    16,
                    |i: int| b0.skip(off as int)[i] ^ cipher_s(ctr_pre, keys, nrg)[i],
                ));
                assert(buf@.skip(off as int + 16) =~= b0.skip(off as int + 16));
                assert(b0.skip(off as int).skip(16) =~= b0.skip(off as int + 16));
                assert(ctr_xcrypt_s(b0, keys, nrg, iv0) =~= buf@.take(off as int + 16)
                    + ctr_xcrypt_s(b0.skip(off as int + 16), keys, nrg, ctx.iv@));
            } else {
                assert(b0.skip(off as int).len() == n);
                assert(ctr_xcrypt_s(b0.skip(off as int), keys, nrg, ctr_pre) =~= Seq::new(
                    n as nat,
                    |i: int| b0.skip(off as int)[i] ^ cipher_s(ctr_pre, keys, nrg)[i],
                ));
                assert(buf@.take(off as int + n as int) =~= pre.take(off as int)
                    + ctr_xcrypt_s(b0.skip(off as int), keys, nrg, ctr_pre));
                assert(buf@.skip(off as int + n as int) =~= b0.skip(off as int + n as int));
                assert(b0.skip(off as int + n as int).len() == 0);
                assert(ctr_xcrypt_s(b0, keys, nrg, iv0) =~= buf@.take(off as int + n as int)
                    + ctr_xcrypt_s(b0.skip(off as int + n as int), keys, nrg, ctx.iv@));
            }
        }
        off += n;
    }
    proof {
        assert(b0.skip(buf@.len() as int).len() == 0);
        assert(ctr_xcrypt_s(b0, keys, nrg, iv0) =~= buf@.take(buf@.len() as int));
        assert(buf@.take(buf@.len() as int) =~= buf@);
        lemma_aes_view(ctx);
        assert(ctx@ == (AesView { iv: ctr_counter_s(b0.len() as int, iv0), ..old(ctx)@ }));
    }
}

/// For every CBC stream sharing key and IV, deciphering what was
/// enciphered gives the buffer back, for every block-aligned length,
/// multi-block buffers included.
pub proof fn lemma_cbc_roundtrip(buf: Seq<u8>, keys: Seq<u8>, nr: int, iv: Seq<u8>)
    requires
        buf.len() % 16 == 0,
        nr >= 1,
    ensures
        cbc_decrypt_s(cbc_encrypt_s(buf, keys, nr, iv), keys, nr, iv) == buf,
    decreases buf.len(),
{
    if buf.len() >= 16 {
        let p = buf.take(16);
        let x = xor16_s(p, iv);
        let c = cipher_s(x, keys, nr);
        let rest = cbc_encrypt_s(buf.skip(16), keys, nr, c);
        lemma_cbc_encrypt_len(buf.skip(16), keys, nr, c);
        let enc = cbc_encrypt_s(buf, keys, nr, iv);
        assert(enc.take(16) =~= c);
        assert(enc.skip(16) =~= rest);
        lemma_block_roundtrip(x, keys, nr);
        lemma_xor16_inverse(p, iv);
        lemma_cbc_roundtrip(buf.skip(16), keys, nr, c);
        assert(cbc_decrypt_s(enc, keys, nr, iv) =~= buf);
    } else {
        assert(cbc_decrypt_s(cbc_encrypt_s(buf, keys, nr, iv), keys, nr, iv) =~= buf);
    }
}

/// Running the CTR transformation twice from the same starting counter
/// gives the buffer back, for every length, block-aligned or not.
pub proof fn lemma_ctr_roundtrip(buf: Seq<u8>, keys: Seq<u8>, nr: int, ctr: Seq<u8>)
    ensures
        ctr_xcrypt_s(ctr_xcrypt_s(buf, keys, nr, ctr), keys, nr, ctr) == buf,
    decreases buf.len(),
{
    let ks = cipher_s(ctr, keys, nr);
    if buf.len() == 0 {
    } else if buf.len() < 16 {
        let enc = ctr_xcrypt_s(buf, keys, nr, ctr);
        assert(enc.len() == buf.len());
        assert forall|i: int| 0 <= i < buf.len() implies ctr_xcrypt_s(enc, keys, nr, ctr)[i]
            == buf[i] by {
            lemma_xor_cancel(buf[i], ks[i]);
        }
        assert(ctr_xcrypt_s(enc, keys, nr, ctr) =~= buf);
    } else {
        let tail = ctr_xcrypt_s(buf.skip(16), keys, nr, inc_counter_s(ctr));
        lemma_ctr_len(buf.skip(16), keys, nr, inc_counter_s(ctr));
        let enc = ctr_xcrypt_s(buf, keys, nr, ctr);
        assert(enc.len() == buf.len());
        assert(enc.skip(16) =~= tail);
        lemma_ctr_roundtrip(buf.skip(16), keys, nr, inc_counter_s(ctr));
        assert forall|i: int| 0 <= i < 16 implies (enc[i] ^ ks[i]) == buf[i] by {
            lemma_xor_cancel(buf[i], ks[i]);
        }
        assert(ctr_xcrypt_s(enc, keys, nr, ctr) =~= buf);
    }
}

} // verus!
