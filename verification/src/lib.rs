//! ChaCha20-Poly1305 authenticated encryption: the composition layer that
//! pads and length-encodes what the authenticator signs, derives the one-time
//! MAC key from keystream block zero, and enforces fail-closed tag
//! verification on decrypt. The stream cipher and the polynomial MAC are
//! outside primitives, called through trusted wrappers.

pub mod aead;
pub mod pad;
pub mod primitives;

pub use aead::constant_time_eq;
pub use aead::decrypt;
pub use aead::derive_mac_key;
pub use aead::encrypt;
pub use aead::encrypt_decrypt_correct;
pub use aead::AeadError;
pub use pad::pad_aad_msg;
