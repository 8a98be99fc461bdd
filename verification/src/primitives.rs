//! The two outside primitives, behind trusted wrappers: the ChaCha20 stream
//! cipher (keystream block zero for key derivation, keystream from block one
//! for the message) and the Poly1305 one-time authenticator. Their outputs
//! are named by uninterpreted spec functions: each is a function of its
//! arguments alone, and the verified layer reasons over the names.

use chacha20::cipher::KeyIvInit;
use chacha20::cipher::StreamCipher;
use chacha20::cipher::StreamCipherSeek;
use poly1305::universal_hash::KeyInit;
use vstd::prelude::*;

verus! {

/// Longest input the stream cipher can transform when its keystream starts at
/// block one: `u32::MAX - 1` whole 64-byte blocks.
pub const MAX_MSG_LEN: u64 = 274877906816;

/// Keystream block zero for a 32-byte key and 12-byte nonce: what the
/// cipher's block function produces at counter zero.
pub uninterp spec fn block0_of(key: Seq<u8>, nonce: Seq<u8>) -> Seq<u8>;

/// Byte `i` of the keystream that starts at block one, for a 32-byte key and
/// 12-byte nonce.
pub uninterp spec fn keystream_byte(key: Seq<u8>, nonce: Seq<u8>, i: int) -> u8;

/// The 16-byte Poly1305 tag of `msg` under the 32-byte one-time key `key`.
pub uninterp spec fn poly1305_of(key: Seq<u8>, msg: Seq<u8>) -> Seq<u8>;

/// Relies on chacha20::ChaCha20 (the RFC 8439 variant with 96-bit nonce): a
/// fresh cipher starts at block zero, and applying its keystream to a buffer
/// of zeros writes the 64-byte block itself, deterministic in key and nonce.
#[verifier::external_body]
pub(crate) fn keystream_block0(key: &[u8], nonce: &[u8]) -> (r: Vec<u8>)
    requires
        key@.len() == 32,
        nonce@.len() == 12,
    ensures
        r@ == block0_of(key@, nonce@),
        r@.len() == 64,
{
    let mut cipher =
        chacha20::ChaCha20::new(chacha20::Key::from_slice(key), chacha20::Nonce::from_slice(nonce));
    let mut block = vec![0u8; 64];
    cipher.apply_keystream(&mut block);
    block
}

/// Relies on chacha20::ChaCha20 through cipher::StreamCipher: seeking to byte
/// 64 puts the keystream at block one, and `try_apply_keystream` XORs that
/// keystream into the data. Per cipher's StreamCipherCoreWrapper source it
/// fails exactly when the data needs more than the `u32::MAX - 1` blocks that
/// remain of the 32-bit counter.
#[verifier::external_body]
pub(crate) fn chacha20_apply(key: &[u8], nonce: &[u8], data: &[u8]) -> (r: Option<Vec<u8>>)
    requires
        key@.len() == 32,
        nonce@.len() == 12,
    ensures
        r matches Some(out) ==> ({
            &&& out@.len() == data@.len()
            &&& forall|i: int|
                0 <= i < data@.len() ==> out@[i] == (data@[i] ^ keystream_byte(
                    key@,
                    nonce@,
                    i,
                ))
        }),
        r is Some <==> data@.len() <= MAX_MSG_LEN as int,
{
    let mut cipher =
        chacha20::ChaCha20::new(chacha20::Key::from_slice(key), chacha20::Nonce::from_slice(nonce));
    cipher.seek(64u32);
    let mut buf = data.to_vec();
    match cipher.try_apply_keystream(&mut buf) {
        Ok(()) => Some(buf),
        Err(_) => None,
    }
}

/// Relies on poly1305::Poly1305::compute_unpadded: the 16-byte tag over the
/// message under a 32-byte one-time key, deterministic in its arguments and
/// total for any message length.
#[verifier::external_body]
pub(crate) fn poly1305_tag(key: &[u8], msg: &[u8]) -> (r: Vec<u8>)
    requires
        key@.len() == 32,
    ensures
        r@ == poly1305_of(key@, msg@),
        r@.len() == 16,
{
    let mac = poly1305::Poly1305::new(poly1305::Key::from_slice(key));
    let tag = mac.compute_unpadded(msg);
    tag.as_slice().to_vec()
}

} // verus!
