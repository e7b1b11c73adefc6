//! The key schedule: expansion of the raw cipher key into the ordered
//! sequence of round keys (FIPS-197, section 5.2).

use vstd::prelude::*;
use vstd::arithmetic::div_mod::lemma_fundamental_div_mod;
use crate::tables::{sbox, rcon, get_sbox_value, get_rcon};

verus! {

/// The four bytes of word `i` of the expanded schedule. The first `nk`
/// words are the key's own words. Every later word is word `i-nk` XOR a
/// transform of word `i-1`: at each `nk`-word boundary the previous word
/// is rotated left one byte, substituted through the S-box and folded
/// with the round constant `rcon(i/nk)` on its first byte; in the middle
/// of an eight-word block (AES-256 only) it is substituted alone; and
/// otherwise it is taken as it is.
pub open spec fn ks_word(key: Seq<u8>, nk: int, i: int) -> Seq<u8>
    decreases i,
{
    if nk <= 0 || i < nk {
        key.subrange(4 * i, 4 * i + 4)
    } else {
        let prev = ks_word(key, nk, i - 1);
        let tr = if i % nk == 0 {
            seq![
                sbox(prev[1]) ^ rcon((i / nk) as u8),
                sbox(prev[2]),
                sbox(prev[3]),
                sbox(prev[0]),
            ]
        } else if nk == 8 && i % nk == 4 {
            seq![sbox(prev[0]), sbox(prev[1]), sbox(prev[2]), sbox(prev[3])]
        } else {
            prev
        };
        let prior = ks_word(key, nk, i - nk);
        seq![prior[0] ^ tr[0], prior[1] ^ tr[1], prior[2] ^ tr[2], prior[3] ^ tr[3]]
    }
}

/// The bytes of the first `n` words of the schedule, in order.
pub open spec fn ks_bytes(key: Seq<u8>, nk: int, n: int) -> Seq<u8>
    decreases n,
{
    if n <= 0 {
        Seq::empty()
    } else {
        ks_bytes(key, nk, n - 1) + ks_word(key, nk, n - 1)
    }
}

/// The whole round-key schedule of a cipher with `nk` key words and `nr`
/// rounds: the `4*(nr+1)` words that the rounds consume.
pub open spec fn key_schedule_s(key: Seq<u8>, nk: int, nr: int) -> Seq<u8> {
    ks_bytes(key, nk, 4 * (nr + 1))
}

/// Every schedule word holds exactly four bytes.
pub proof fn lemma_ks_word_len(key: Seq<u8>, nk: int, i: int)
    requires
        0 <= i,
        1 <= nk,
        4 * nk <= key.len(),
    ensures
        ks_word(key, nk, i).len() == 4,
    decreases i,
{
    if !(nk <= 0 || i < nk) {
        lemma_ks_word_len(key, nk, i - 1);
        lemma_ks_word_len(key, nk, i - nk);
    }
}

/// The first `n` words of the schedule hold exactly `4*n` bytes.
pub proof fn lemma_ks_bytes_len(key: Seq<u8>, nk: int, n: int)
    requires
        n >= 0,
        1 <= nk,
        4 * nk <= key.len(),
    ensures
        ks_bytes(key, nk, n).len() == 4 * n,
    decreases n,
{
    if n > 0 {
        lemma_ks_bytes_len(key, nk, n - 1);
        lemma_ks_word_len(key, nk, n - 1);
    }
}

/// Word `w` of the schedule sits at byte offset `4*w` of the schedule bytes.
pub proof fn lemma_ks_bytes_word(key: Seq<u8>, nk: int, n: int, w: int)
    requires
        0 <= w < n,
        1 <= nk,
        4 * nk <= key.len(),
    ensures
        ks_bytes(key, nk, n).subrange(4 * w, 4 * w + 4) == ks_word(key, nk, w),
    decreases n,
{
    lemma_ks_bytes_len(key, nk, n - 1);
    lemma_ks_word_len(key, nk, n - 1);
    if w == n - 1 {
        assert(ks_bytes(key, nk, n).subrange(4 * w, 4 * w + 4) =~= ks_word(key, nk, w));
    } else {
        lemma_ks_bytes_word(key, nk, n - 1, w);
        lemma_ks_word_len(key, nk, w);
        assert(ks_bytes(key, nk, n).subrange(4 * w, 4 * w + 4) =~= ks_bytes(
            key,
            nk,
            n - 1,
        ).subrange(4 * w, 4 * w + 4));
    }
}

/// The round-key schedule of a cipher with `nr` rounds holds exactly
/// `16*(nr+1)` bytes.
pub proof fn lemma_key_schedule_length(key: Seq<u8>, nk: int, nr: int)
    requires
        nr >= 0,
        1 <= nk,
        4 * nk <= key.len(),
    ensures
        key_schedule_s(key, nk, nr).len() == 16 * (nr + 1),
{
    lemma_ks_bytes_len(key, nk, 4 * (nr + 1));
}

/// Two byte sequences of `n` four-byte words that agree on every word
/// agree everywhere.
proof fn lemma_words_cover(s: Seq<u8>, t: Seq<u8>, n: int)
    requires
        n >= 0,
        s.len() == 4 * n,
        t.len() == 4 * n,
        forall|w: int|
            0 <= w < n ==> #[trigger] s.subrange(4 * w, 4 * w + 4) == t.subrange(4 * w, 4 * w + 4),
    ensures
        s == t,
{
    assert forall|j: int| 0 <= j < 4 * n implies s[j] == t[j] by {
        let w = j / 4;
        lemma_fundamental_div_mod(j, 4);
        assert(0 <= w < n) by (nonlinear_arith)
            requires
                0 <= j < 4 * n,
                w == j / 4,
        ;
        assert(s.subrange(4 * w, 4 * w + 4)[j - 4 * w] == s[j]);
        assert(t.subrange(4 * w, 4 * w + 4)[j - 4 * w] == t[j]);
    }
    assert(s =~= t);
}

/// Expand the raw key into the round-key schedule: the first `16*(nr+1)`
/// bytes of `round_key` become the schedule and the rest is untouched.
#[verifier::rlimit(100)]
pub fn key_expansion(nk: u8, nr: u8, round_key: &mut [u8; 240], key: &[u8])
    requires
        (nk == 4 && nr == 10) || (nk == 6 && nr == 12) || (nk == 8 && nr == 14),
        key@.len() == 4 * nk,
    ensures
        final(round_key)@.subrange(0, 16 * (nr as int + 1)) == key_schedule_s(
            key@,
            nk as int,
            nr as int,
        ),
        forall|j: int| 16 * (nr as int + 1) <= j < 240 ==> final(round_key)@[j] == old(
            round_key,
        )@[j],
{
    let ghost rk0 = round_key@;
    let words: usize = 4 * (nr as usize + 1);
    let nku = nk as usize;

    // The first nk words are the key itself.
    let mut i: usize = 0;
    while i < nku
        invariant
            i <= nku,
            nku == nk,
            (nk == 4 && nr == 10) || (nk == 6 && nr == 12) || (nk == 8 && nr == 14),
            key@.len() == 4 * nk,
            round_key@.len() == 240,
            rk0.len() == 240,
            forall|w: int|
                0 <= w < i ==> round_key@.subrange(4 * w, 4 * w + 4) == ks_word(
                    key@,
                    nk as int,
                    w,
                ),
            forall|j: int| 4 * i <= j < 240 ==> round_key@[j] == rk0[j],
        decreases nku - i,
    {
        round_key[4 * i] = key[4 * i];
        round_key[4 * i + 1] = key[4 * i + 1];
        round_key[4 * i + 2] = key[4 * i + 2];
        round_key[4 * i + 3] = key[4 * i + 3];
        assert(round_key@.subrange(4 * i as int, 4 * i as int + 4) =~= ks_word(
            key@,
            nk as int,
            i as int,
        ));
        assert forall|w: int|
            0 <= w < i implies round_key@.subrange(4 * w, 4 * w + 4) == ks_word(
            key@,
            nk as int,
            w,
        ) by {
            assert(round_key@.subrange(4 * w, 4 * w + 4) =~= ks_word(key@, nk as int, w));
        }
        i += 1;
    }

    // Every later word is derived from word i-1 and word i-nk.
    while i < words
        invariant
            nku <= i <= words,
            nku == nk,
            words == 4 * (nr as int + 1),
            (nk == 4 && nr == 10) || (nk == 6 && nr == 12) || (nk == 8 && nr == 14),
            key@.len() == 4 * nk,
            round_key@.len() == 240,
            rk0.len() == 240,
            forall|w: int|
                0 <= w < i ==> round_key@.subrange(4 * w, 4 * w + 4) == ks_word(
                    key@,
                    nk as int,
                    w,
                ),
            forall|j: int| 4 * i <= j < 240 ==> round_key@[j] == rk0[j],
        decreases words - i,
    {
        let ghost prev = ks_word(key@, nk as int, i as int - 1);
        assert(round_key@.subrange(4 * (i as int - 1), 4 * (i as int - 1) + 4) == prev);
        let mut tempa: [u8; 4] = [0u8; 4];
        tempa[0] = round_key[4 * (i - 1)];
        tempa[1] = round_key[4 * (i - 1) + 1];
        tempa[2] = round_key[4 * (i - 1) + 2];
        tempa[3] = round_key[4 * (i - 1) + 3];
        assert(tempa@[0] == prev[0] && tempa@[1] == prev[1] && tempa@[2] == prev[2] && tempa@[3]
            == prev[3]);

        if i % nku == 0 {
            // RotWord: [a0,a1,a2,a3] becomes [a1,a2,a3,a0].
            let t = tempa[0];
            tempa[0] = tempa[1];
            tempa[1] = tempa[2];
            tempa[2] = tempa[3];
            tempa[3] = t;
            // SubWord: the S-box applied to each byte.
            tempa[0] = get_sbox_value(tempa[0]);
            tempa[1] = get_sbox_value(tempa[1]);
            tempa[2] = get_sbox_value(tempa[2]);
            tempa[3] = get_sbox_value(tempa[3]);
            tempa[0] = tempa[0] ^ get_rcon((i / nku) as u8);
        } else if nku == 8 && i % nku == 4 {
            // AES-256 only: SubWord without rotation or round constant.
            tempa[0] = get_sbox_value(tempa[0]);
            tempa[1] = get_sbox_value(tempa[1]);
            tempa[2] = get_sbox_value(tempa[2]);
            tempa[3] = get_sbox_value(tempa[3]);
        }

        let ghost prior = ks_word(key@, nk as int, i as int - nk as int);
        assert(round_key@.subrange(4 * (i as int - nk as int), 4 * (i as int - nk as int) + 4)
            == prior);
        round_key[4 * i] = round_key[4 * (i - nku)] ^ tempa[0];
        round_key[4 * i + 1] = round_key[4 * (i - nku) + 1] ^ tempa[1];
        round_key[4 * i + 2] = round_key[4 * (i - nku) + 2] ^ tempa[2];
        round_key[4 * i + 3] = round_key[4 * (i - nku) + 3] ^ tempa[3];

        assert(round_key@.subrange(4 * i as int, 4 * i as int + 4) =~= ks_word(
            key@,
            nk as int,
            i as int,
        ));
        assert forall|w: int|
            0 <= w < i + 1 implies round_key@.subrange(4 * w, 4 * w + 4) == ks_word(
            key@,
            nk as int,
            w,
        ) by {
            assert(round_key@.subrange(4 * w, 4 * w + 4) =~= ks_word(key@, nk as int, w));
        }
        i += 1;
    }

    proof {
        lemma_ks_bytes_len(key@, nk as int, 4 * (nr as int + 1));
        assert forall|w: int|
            0 <= w < 4 * (nr as int + 1) implies #[trigger] round_key@.subrange(0, 16 * (nr as int
            + 1)).subrange(4 * w, 4 * w + 4) == key_schedule_s(key@, nk as int, nr as int).subrange(
            4 * w,
            4 * w + 4,
        ) by {
            lemma_ks_bytes_word(key@, nk as int, 4 * (nr as int + 1), w);
            assert(round_key@.subrange(0, 16 * (nr as int + 1)).subrange(4 * w, 4 * w + 4) =~=
                round_key@.subrange(4 * w, 4 * w + 4));
        }
        lemma_words_cover(
            round_key@.subrange(0, 16 * (nr as int + 1)),
            key_schedule_s(key@, nk as int, nr as int),
            4 * (nr as int + 1),
        );
    }
}

} // verus!
