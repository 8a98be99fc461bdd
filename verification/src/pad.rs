//! The canonical layout of the bytes the authenticator signs: the associated
//! data zero-filled to a multiple of 16, the ciphertext likewise, then the
//! two original lengths as 8-byte little-endian fields.

use vstd::prelude::*;

verus! {

/// `n` rounded up to the next multiple of 16 (unchanged when already one,
/// zero included).
pub open spec fn round16(n: nat) -> nat {
    if n % 16 == 0 {
        n
    } else {
        (n + (16 - n % 16)) as nat
    }
}

/// `n` zero bytes.
pub open spec fn zeros(n: nat) -> Seq<u8> {
    Seq::new(n, |i: int| 0u8)
}

/// The 8-byte little-endian encoding of `n`.
pub open spec fn le64(n: u64) -> Seq<u8> {
    seq![
        (n & 0xff) as u8,
        ((n >> 8) & 0xff) as u8,
        ((n >> 16) & 0xff) as u8,
        ((n >> 24) & 0xff) as u8,
        ((n >> 32) & 0xff) as u8,
        ((n >> 40) & 0xff) as u8,
        ((n >> 48) & 0xff) as u8,
        ((n >> 56) & 0xff) as u8,
    ]
}

/// The padded message: `aad` zero-filled to a multiple of 16, `data`
/// likewise, then the lengths of `aad` and `data` as 8-byte little-endian
/// fields.
pub open spec fn pad_of(aad: Seq<u8>, data: Seq<u8>) -> Seq<u8> {
    aad + zeros((round16(aad.len()) - aad.len()) as nat) + data + zeros(
        (round16(data.len()) - data.len()) as nat,
    ) + le64(aad.len() as u64) + le64(data.len() as u64)
}

fn push_bytes(out: &mut Vec<u8>, data: &[u8])
    ensures
        final(out)@ == old(out)@ + data@,
{
    let mut i: usize = 0;
    while i < data.len()
        invariant
            i <= data@.len(),
            out@ == old(out)@ + data@.subrange(0, i as int),
        decreases data@.len() - i,
    {
        out.push(data[i]);
        proof {
            assert(out@ =~= old(out)@ + data@.subrange(0, i + 1));
        }
        i += 1;
    }
    proof {
        assert(out@ =~= old(out)@ + data@);
    }
}

fn push_zeros(out: &mut Vec<u8>, n: usize)
    ensures
        final(out)@ == old(out)@ + zeros(n as nat),
{
    let mut i: usize = 0;
    while i < n
        invariant
            i <= n,
            out@ == old(out)@ + zeros(i as nat),
        decreases n - i,
    {
        out.push(0u8);
        proof {
            assert(out@ =~= old(out)@ + zeros((i + 1) as nat));
        }
        i += 1;
    }
}

fn push_le64(out: &mut Vec<u8>, n: u64)
    ensures
        final(out)@ == old(out)@ + le64(n),
{
    proof {
        assert((n & 0xff) < 256 && ((n >> 8) & 0xff) < 256 && ((n >> 16) & 0xff) < 256 && ((n
            >> 24) & 0xff) < 256 && ((n >> 32) & 0xff) < 256 && ((n >> 40) & 0xff) < 256 && ((n
            >> 48) & 0xff) < 256 && ((n >> 56) & 0xff) < 256) by (bit_vector);
    }
    out.push((n & 0xff) as u8);
    out.push(((n >> 8) & 0xff) as u8);
    out.push(((n >> 16) & 0xff) as u8);
    out.push(((n >> 24) & 0xff) as u8);
    out.push(((n >> 32) & 0xff) as u8);
    out.push(((n >> 40) & 0xff) as u8);
    out.push(((n >> 48) & 0xff) as u8);
    out.push(((n >> 56) & 0xff) as u8);
    proof {
        assert(out@ =~= old(out)@ + le64(n));
    }
}

/// Builds the padded message for `aad` and `data` in one fresh buffer.
pub fn pad_aad_msg(aad: &[u8], data: &[u8]) -> (r: Vec<u8>)
    ensures
        r@ == pad_of(aad@, data@),
{
    let mut out: Vec<u8> = Vec::new();
    push_bytes(&mut out, aad);
    let pad_aad: usize = if aad.len() % 16 == 0 {
        0
    } else {
        16 - aad.len() % 16
    };
    push_zeros(&mut out, pad_aad);
    push_bytes(&mut out, data);
    let pad_data: usize = if data.len() % 16 == 0 {
        0
    } else {
        16 - data.len() % 16
    };
    push_zeros(&mut out, pad_data);
    push_le64(&mut out, aad.len() as u64);
    push_le64(&mut out, data.len() as u64);
    proof {
        assert(pad_aad as nat == (round16(aad@.len()) - aad@.len()) as nat);
        assert(pad_data as nat == (round16(data@.len()) - data@.len()) as nat);
        assert(out@ =~= pad_of(aad@, data@));
    }
    out
}

/// Rounding up to a multiple of 16 yields a multiple of 16, at most 15 above
/// the argument and never below it.
pub proof fn lemma_round16(n: nat)
    ensures
        round16(n) % 16 == 0,
        n <= round16(n) < n + 16,
{
}

/// The padded message of empty associated data and empty data is exactly the
/// 16-byte trailer, both length fields zero.
pub proof fn lemma_pad_empty()
    ensures
        pad_of(Seq::<u8>::empty(), Seq::<u8>::empty()) == zeros(16),
        pad_of(Seq::<u8>::empty(), Seq::<u8>::empty()).len() == 16,
{
    assert((0u64 & 0xff) == 0 && ((0u64 >> 8) & 0xff) == 0 && ((0u64 >> 16) & 0xff) == 0 && ((0u64
        >> 24) & 0xff) == 0 && ((0u64 >> 32) & 0xff) == 0 && ((0u64 >> 40) & 0xff) == 0 && ((0u64
        >> 48) & 0xff) == 0 && ((0u64 >> 56) & 0xff) == 0) by (bit_vector);
    assert(pad_of(Seq::<u8>::empty(), Seq::<u8>::empty()) =~= zeros(16));
}

/// The padded message's length is both lengths rounded up to multiples of 16
/// plus the 16-byte trailer, hence itself a multiple of 16.
pub proof fn lemma_pad_len(aad: Seq<u8>, data: Seq<u8>)
    ensures
        pad_of(aad, data).len() == round16(aad.len()) + round16(data.len()) + 16,
        pad_of(aad, data).len() % 16 == 0,
{
    lemma_round16(aad.len());
    lemma_round16(data.len());
}

} // verus!
