//! The cipher context: the variant, the intended mode, the derived
//! round-key schedule and the chaining field (IV for CBC, counter for
//! CTR), with validated construction and explicit re-IV.

use vstd::prelude::*;
use crate::schedule::{key_schedule_s, key_expansion, lemma_key_schedule_length};

verus! {

/// The mode of operation a context is intended for.
#[derive(Clone, Copy, Debug)]
pub enum Mode {
    CTR,
    CBC,
    ECB,
}

/// The cipher variant, fixing the key size.
#[derive(Clone, Copy, Debug)]
pub enum Size {
    AES128,
    AES192,
    AES256,
}

/// The number of 32-bit words in the key of a variant: 4, 6 or 8.
pub open spec fn nk_of(size: Size) -> u8 {
    match size {
        Size::AES128 => 4,
        Size::AES192 => 6,
        Size::AES256 => 8,
    }
}

/// The number of rounds of a variant: 10, 12 or 14.
pub open spec fn nr_of(size: Size) -> u8 {
    match size {
        Size::AES128 => 10,
        Size::AES192 => 12,
        Size::AES256 => 14,
    }
}

/// The key length in bytes that a variant demands: 16, 24 or 32.
pub open spec fn key_len_of(size: Size) -> int {
    4 * nk_of(size)
}

/// The precondition violations the library reports: a key whose length
/// does not match the variant, an IV that is not 16 bytes, and a buffer
/// that is not a whole number of blocks where ECB and CBC demand one.
#[derive(Clone, Copy, Debug, PartialEq, Eq, Structural)]
pub enum AesError {
    KeyLength,
    IvLength,
    BufferLength,
}

/// The cipher context. The schedule is computed once at construction and
/// read-only thereafter; the chaining field is overwritten by every CBC
/// or CTR call and by `set_iv`.
pub struct AES {
    pub(crate) size: Size,
    pub(crate) mode: Mode,
    pub(crate) round_key: [u8; 240],
    pub(crate) iv: [u8; 16],
}

/// The mathematical image of a context.
pub ghost struct AesView {
    pub size: Size,
    pub mode: Mode,
    pub schedule: Seq<u8>,
    pub iv: Seq<u8>,
}

impl View for AES {
    type V = AesView;

    closed spec fn view(&self) -> AesView {
        AesView { size: self.size, mode: self.mode, schedule: self.round_key@, iv: self.iv@ }
    }
}

/// The round-key schedule of every variant holds exactly `16*(nr+1)`
/// bytes, and the word and round counts are fixed per variant: 4 and 10
/// for AES-128, 6 and 12 for AES-192, 8 and 14 for AES-256.
pub proof fn lemma_schedule_length(size: Size, key: Seq<u8>)
    requires
        key.len() == key_len_of(size),
    ensures
        key_schedule_s(key, nk_of(size) as int, nr_of(size) as int).len() == 16 * (nr_of(size)
            as int + 1),
        nk_of(Size::AES128) == 4 && nr_of(Size::AES128) == 10,
        nk_of(Size::AES192) == 6 && nr_of(Size::AES192) == 12,
        nk_of(Size::AES256) == 8 && nr_of(Size::AES256) == 14,
{
    lemma_key_schedule_length(key, nk_of(size) as int, nr_of(size) as int);
}

/// The view of a context is exactly its fields: the crate's own modules
/// work with the fields and speak of the view.
pub(crate) proof fn lemma_aes_view(ctx: &AES)
    ensures
        ctx@.size == ctx.size,
        ctx@.mode == ctx.mode,
        ctx@.schedule == ctx.round_key@,
        ctx@.iv == ctx.iv@,
{
}

impl AES {
    /// Build a context from a key and an IV. The key must be exactly as
    /// long as the variant demands and the IV exactly 16 bytes; a
    /// mismatch is reported and nothing is built. On success the first
    /// `16*(nr+1)` schedule bytes are the expanded key and the rest of
    /// the schedule buffer is zero.
    pub fn new(size: Size, mode: Mode, key: &[u8], iv_raw: &[u8]) -> (result: Result<
        AES,
        AesError,
    >)
        ensures
            result is Ok <==> (key@.len() == key_len_of(size) && iv_raw@.len() == 16),
            key@.len() != key_len_of(size) ==> (result matches Err(e) && e == AesError::KeyLength),
            key@.len() == key_len_of(size) && iv_raw@.len() != 16 ==> (result matches Err(e) && e
                == AesError::IvLength),
            result matches Ok(ctx) ==> {
                &&& ctx@.size == size
                &&& ctx@.mode == mode
                &&& ctx@.iv == iv_raw@
                &&& ctx@.schedule.len() == 240
                &&& ctx@.schedule.subrange(0, 16 * (nr_of(size) as int + 1)) == key_schedule_s(
                    key@,
                    nk_of(size) as int,
                    nr_of(size) as int,
                )
                &&& forall|j: int|
                    16 * (nr_of(size) as int + 1) <= j < 240 ==> ctx@.schedule[j] == 0
            },
    {
        let key_len: usize = match size {
            Size::AES128 => 16,
            Size::AES192 => 24,
            Size::AES256 => 32,
        };
        if key.len() != key_len {
            return Err(AesError::KeyLength);
        }
        if iv_raw.len() != 16 {
            return Err(AesError::IvLength);
        }

        let mut round_key = [0u8; 240];
        assert(round_key@ =~= Seq::new(240, |j: int| 0u8));
        match size {
            Size::AES128 => key_expansion(4, 10, &mut round_key, key),
            Size::AES192 => key_expansion(6, 12, &mut round_key, key),
            Size::AES256 => key_expansion(8, 14, &mut round_key, key),
        }

        let mut iv = [0u8; 16];
        let mut i: usize = 0;
        while i < 16
            invariant
                i <= 16,
                iv_raw@.len() == 16,
                iv@.len() == 16,
                forall|j: int| 0 <= j < i ==> iv@[j] == iv_raw@[j],
            decreases 16 - i,
        {
            iv[i] = iv_raw[i];
            i += 1;
        }
        assert(iv@ =~= iv_raw@);

        Ok(AES { size, mode, round_key, iv })
    }

    /// Replace the chaining field, so that one context (and its derived
    /// schedule) serves a new CBC or CTR stream under the same key. An IV
    /// that is not 16 bytes is reported and the context is untouched.
    pub fn set_iv(&mut self, iv_raw: &[u8]) -> (result: Result<(), AesError>)
        ensures
            result is Ok <==> iv_raw@.len() == 16,
            result is Ok ==> final(self)@ == (AesView { iv: iv_raw@, ..old(self)@ }),
            result is Err ==> final(self)@ == old(self)@ && (result matches Err(e) && e
                == AesError::IvLength),
    {
        if iv_raw.len() != 16 {
            return Err(AesError::IvLength);
        }
        let mut i: usize = 0;
        while i < 16
            invariant
                i <= 16,
                iv_raw@.len() == 16,
                self@.size == old(self)@.size,
                self@.mode == old(self)@.mode,
                self@.schedule == old(self)@.schedule,
                self@.iv.len() == 16,
                forall|j: int| 0 <= j < i ==> self@.iv[j] == iv_raw@[j],
            decreases 16 - i,
        {
            self.iv[i] = iv_raw[i];
            i += 1;
        }
        assert(self@.iv =~= iv_raw@);
        Ok(())
    }

    /// A copy of the current chaining field: the IV for CBC, the counter
    /// for CTR.
    pub fn iv(&self) -> (r: [u8; 16])
        ensures
            r@ == self@.iv,
    {
        self.iv
    }

    /// The round count of this context's variant.
    pub fn nr(&self) -> (r: u8)
        ensures
            r == nr_of(self@.size),
    {
        match self.size {
            Size::AES128 => 10,
            Size::AES192 => 12,
            Size::AES256 => 14,
        }
    }

    /// The key word count of this context's variant.
    pub fn nk(&self) -> (r: u8)
        ensures
            r == nk_of(self@.size),
    {
        match self.size {
            Size::AES128 => 4,
            Size::AES192 => 6,
            Size::AES256 => 8,
        }
    }
}

} // verus!
