//! AES block cipher (128/192/256-bit keys) with ECB, CBC and CTR modes,
//! verified down to the byte level: the key schedule, the round
//! transformation and the mode drivers each carry a contract stating the
//! exact bytes they produce, and the decrypt-inverts-encrypt laws are
//! proved for every variant, block and buffer.

pub mod block;
pub mod ctx;
pub mod gf;
pub mod modes;
pub mod schedule;
pub mod state;
pub mod tables;

pub use ctx::Mode;
pub use ctx::Size;
pub use ctx::AES;
pub use ctx::AesError;
pub use gf::xtime;
pub use gf::multiply;
pub use modes::aes_ecb_encrypt;
pub use modes::aes_ecb_decrypt;
pub use modes::aes_cbc_encrypt_buffer;
pub use modes::aes_cbc_decrypt_buffer;
pub use modes::aes_ctr_xcrypt_buffer;
pub use tables::get_sbox_value;
pub use tables::get_sbox_invert;
