//! The encrypt and decrypt entry points: derive the one-time MAC key from
//! keystream block zero, transform the message with the keystream that starts
//! at block one, authenticate the padded (associated data, ciphertext)
//! layout, and on decrypt verify the tag in constant time before the cipher
//! ever touches the ciphertext.

use crate::pad::pad_aad_msg;
use crate::pad::pad_of;
use crate::primitives::block0_of;
use crate::primitives::chacha20_apply;
use crate::primitives::keystream_block0;
use crate::primitives::keystream_byte;
use crate::primitives::poly1305_of;
use crate::primitives::poly1305_tag;
use crate::primitives::MAX_MSG_LEN;
use vstd::prelude::*;

verus! {

/// Why an operation failed: the cipher refused the message length on encrypt,
/// the supplied tag did not verify, or the cipher refused the ciphertext
/// length after the tag had verified.
#[derive(Clone, Copy, Debug, PartialEq, Eq, Structural)]
pub enum AeadError {
    EncryptionFailure,
    AuthenticationFailure,
    DecryptionFailure,
}

/// The one-time MAC key: the first 32 bytes of keystream block zero.
pub open spec fn mac_key_of(key: Seq<u8>, nonce: Seq<u8>) -> Seq<u8> {
    block0_of(key, nonce).subrange(0, 32)
}

/// The cipher's transform of `data`: byte-wise XOR with the keystream that
/// starts at block one. Applying it twice gives `data` back.
pub open spec fn cipher_of(key: Seq<u8>, nonce: Seq<u8>, data: Seq<u8>) -> Seq<u8> {
    Seq::new(data.len(), |i: int| data[i] ^ keystream_byte(key, nonce, i))
}

/// The tag that authenticates `(aad, ct)` under `(key, nonce)`: the MAC of
/// the padded layout under the one-time key.
pub open spec fn tag_of(key: Seq<u8>, nonce: Seq<u8>, aad: Seq<u8>, ct: Seq<u8>) -> Seq<u8> {
    poly1305_of(mac_key_of(key, nonce), pad_of(aad, ct))
}

/// Derives the one-time MAC key for `(key, nonce)`: the first 32 bytes of
/// keystream block zero. The rest of that block is discarded; message
/// encryption starts at block one and never reuses these bytes.
pub fn derive_mac_key(key: &[u8], nonce: &[u8]) -> (r: Vec<u8>)
    requires
        key@.len() == 32,
        nonce@.len() == 12,
    ensures
        r@ == mac_key_of(key@, nonce@),
        r@.len() == 32,
{
    let mut block = keystream_block0(key, nonce);
    block.truncate(32);
    block
}

/// Byte equality in constant time: every byte is always visited and folded
/// into an accumulator, so timing does not depend on the position of the
/// first mismatch.
pub fn constant_time_eq(a: &[u8], b: &[u8]) -> (r: bool)
    ensures
        r <==> a@ == b@,
{
    if a.len() != b.len() {
        return false;
    }
    let mut diff: u8 = 0;
    let mut i: usize = 0;
    while i < a.len()
        invariant
            a@.len() == b@.len(),
            i <= a@.len(),
            (diff == 0) <==> (forall|j: int| 0 <= j < i ==> a@[j] == b@[j]),
        decreases a@.len() - i,
    {
        let x = a[i];
        let y = b[i];
        proof {
            assert(((diff | (x ^ y)) == 0) <==> (diff == 0 && x == y)) by (bit_vector);
        }
        diff = diff | (x ^ y);
        i += 1;
    }
    proof {
        if diff == 0 {
            assert(a@ =~= b@);
        }
    }
    diff == 0
}

/// Authenticated encryption: the ciphertext is the cipher's transform of
/// `msg`, and the tag authenticates the ciphertext together with `aad`. The
/// result is a function of the four inputs alone, and the call succeeds
/// exactly when the message fits the cipher's counter space.
pub fn encrypt(key: &[u8], iv: &[u8], aad: &[u8], msg: &[u8]) -> (r: Result<
    (Vec<u8>, Vec<u8>),
    AeadError,
>)
    requires
        key@.len() == 32,
        iv@.len() == 12,
    ensures
        r matches Ok(p) ==> ({
            &&& p.0@ == cipher_of(key@, iv@, msg@)
            &&& p.1@ == tag_of(key@, iv@, aad@, p.0@)
            &&& p.1@.len() == 16
        }),
        r is Ok <==> msg@.len() <= MAX_MSG_LEN as int,
        r matches Err(e) ==> e == AeadError::EncryptionFailure,
{
    let mac_key = derive_mac_key(key, iv);
    let cipher_text = match chacha20_apply(key, iv, msg) {
        Some(c) => c,
        None => {
            return Err(AeadError::EncryptionFailure);
        },
    };
    let padded_msg = pad_aad_msg(aad, cipher_text.as_slice());
    let tag = poly1305_tag(mac_key.as_slice(), padded_msg.as_slice());
    proof {
        assert(cipher_text@ =~= cipher_of(key@, iv@, msg@));
    }
    Ok((cipher_text, tag))
}

/// Authenticated decryption, fail-closed: the expected tag is recomputed from
/// the supplied ciphertext and associated data and compared in constant time,
/// and only when it equals the supplied tag does the stream cipher touch the
/// ciphertext. A mismatched tag yields `AuthenticationFailure` and nothing
/// else; an oversized ciphertext whose tag verified yields
/// `DecryptionFailure`.
pub fn decrypt(key: &[u8], iv: &[u8], aad: &[u8], cipher_text: &[u8], tag: &[u8]) -> (r: Result<
    Vec<u8>,
    AeadError,
>)
    requires
        key@.len() == 32,
        iv@.len() == 12,
    ensures
        r matches Ok(m) ==> ({
            &&& tag@ == tag_of(key@, iv@, aad@, cipher_text@)
            &&& m@ == cipher_of(key@, iv@, cipher_text@)
        }),
        r == Err::<Vec<u8>, AeadError>(AeadError::AuthenticationFailure) <==> tag@ != tag_of(
            key@,
            iv@,
            aad@,
            cipher_text@,
        ),
        r == Err::<Vec<u8>, AeadError>(AeadError::DecryptionFailure) <==> (tag@ == tag_of(
            key@,
            iv@,
            aad@,
            cipher_text@,
        ) && cipher_text@.len() > MAX_MSG_LEN as int),
        (tag@ == tag_of(key@, iv@, aad@, cipher_text@) && cipher_text@.len() <= MAX_MSG_LEN
            as int) ==> r is Ok,
{
    let mac_key = derive_mac_key(key, iv);
    let padded_msg = pad_aad_msg(aad, cipher_text);
    let my_tag = poly1305_tag(mac_key.as_slice(), padded_msg.as_slice());
    if constant_time_eq(my_tag.as_slice(), tag) {
        match chacha20_apply(key, iv, cipher_text) {
            Some(m) => {
                proof {
                    assert(m@ =~= cipher_of(key@, iv@, cipher_text@));
                }
                Ok(m)
            },
            None => Err(AeadError::DecryptionFailure),
        }
    } else {
        Err(AeadError::AuthenticationFailure)
    }
}

/// Round trip: the cipher transform is an involution, so decrypting the
/// ciphertext that `encrypt` produced, under the same key and nonce, recovers
/// the message. Together with the contracts of `encrypt` and `decrypt` this
/// says that `decrypt(key, nonce, aad, ct, tag)` returns the original message
/// whenever `encrypt(key, nonce, aad, msg)` returned `(ct, tag)`: the
/// recomputed tag equals the attached one, and the transform of the
/// ciphertext is `msg` again.
pub proof fn encrypt_decrypt_correct(key: Seq<u8>, nonce: Seq<u8>, aad: Seq<u8>, msg: Seq<u8>)
    ensures
        cipher_of(key, nonce, cipher_of(key, nonce, msg)) == msg,
{
    let ct = cipher_of(key, nonce, msg);
    assert forall|i: int| 0 <= i < msg.len() implies cipher_of(key, nonce, ct)[i] == msg[i] by {
        let m = msg[i];
        let k = keystream_byte(key, nonce, i);
        assert(((m ^ k) ^ k) == m) by (bit_vector);
    }
    assert(cipher_of(key, nonce, ct) =~= msg);
}

} // verus!
