//! The hash commitment over a block's fields: a canonical byte encoding
//! (fixed field order, fixed-width little-endian integers) fed to a 32-byte
//! cryptographic digest.

use vstd::prelude::*;

verus! {

/// Little-endian bytes of a 64-bit integer.
pub open spec fn u64_le_bytes(x: u64) -> Seq<u8> {
    seq![
        (x & 0xff) as u8,
        ((x >> 8) & 0xff) as u8,
        ((x >> 16) & 0xff) as u8,
        ((x >> 24) & 0xff) as u8,
        ((x >> 32) & 0xff) as u8,
        ((x >> 40) & 0xff) as u8,
        ((x >> 48) & 0xff) as u8,
        ((x >> 56) & 0xff) as u8,
    ]
}

/// Little-endian bytes of a 128-bit integer.
pub open spec fn u128_le_bytes(x: u128) -> Seq<u8> {
    seq![
        (x & 0xff) as u8,
        ((x >> 8) & 0xff) as u8,
        ((x >> 16) & 0xff) as u8,
        ((x >> 24) & 0xff) as u8,
        ((x >> 32) & 0xff) as u8,
        ((x >> 40) & 0xff) as u8,
        ((x >> 48) & 0xff) as u8,
        ((x >> 56) & 0xff) as u8,
        ((x >> 64) & 0xff) as u8,
        ((x >> 72) & 0xff) as u8,
        ((x >> 80) & 0xff) as u8,
        ((x >> 88) & 0xff) as u8,
        ((x >> 96) & 0xff) as u8,
        ((x >> 104) & 0xff) as u8,
        ((x >> 112) & 0xff) as u8,
        ((x >> 120) & 0xff) as u8,
    ]
}

/// Canonical serialization of the committed fields, in fixed order:
/// index, payload length, payload bytes, previous hash, nonce. The stored
/// hash itself is never part of the encoding (no self-reference).
pub open spec fn commitment_bytes(
    index: u64,
    payload: Seq<u8>,
    previous_hash: Seq<u8>,
    nonce: u128,
) -> Seq<u8> {
    u64_le_bytes(index) + u64_le_bytes(payload.len() as u64) + payload + previous_hash
        + u128_le_bytes(nonce)
}

/// The 32-byte digest that the hash function assigns to a byte string; a
/// function of the input bytes alone.
pub uninterp spec fn blake3_digest(input: Seq<u8>) -> Seq<u8>;

/// Relies on blake3::hash: a deterministic 32-byte digest of the input
/// bytes, depending on nothing but the input.
#[verifier::external_body]
fn blake3_hash32(input: &Vec<u8>) -> (r: [u8; 32])
    ensures
        r@ == blake3_digest(input@),
{
    *blake3::hash(input.as_slice()).as_bytes()
}

/// The hash commitment of a block's fields: the digest of their canonical
/// serialization.
pub open spec fn commitment_spec(
    index: u64,
    payload: Seq<u8>,
    previous_hash: Seq<u8>,
    nonce: u128,
) -> Seq<u8> {
    blake3_digest(commitment_bytes(index, payload, previous_hash, nonce))
}

/// Appends the little-endian bytes of `x` to `buf`.
fn push_u64_le(buf: &mut Vec<u8>, x: u64)
    ensures
        final(buf)@ == old(buf)@ + u64_le_bytes(x),
{
    buf.push((x & 0xff) as u8);
    buf.push(((x >> 8) & 0xff) as u8);
    buf.push(((x >> 16) & 0xff) as u8);
    buf.push(((x >> 24) & 0xff) as u8);
    buf.push(((x >> 32) & 0xff) as u8);
    buf.push(((x >> 40) & 0xff) as u8);
    buf.push(((x >> 48) & 0xff) as u8);
    buf.push(((x >> 56) & 0xff) as u8);
    proof {
        assert(buf@ =~= old(buf)@ + u64_le_bytes(x));
    }
}

/// Appends the little-endian bytes of `x` to `buf`.
fn push_u128_le(buf: &mut Vec<u8>, x: u128)
    ensures
        final(buf)@ == old(buf)@ + u128_le_bytes(x),
{
    buf.push((x & 0xff) as u8);
    buf.push(((x >> 8) & 0xff) as u8);
    buf.push(((x >> 16) & 0xff) as u8);
    buf.push(((x >> 24) & 0xff) as u8);
    buf.push(((x >> 32) & 0xff) as u8);
    buf.push(((x >> 40) & 0xff) as u8);
    buf.push(((x >> 48) & 0xff) as u8);
    buf.push(((x >> 56) & 0xff) as u8);
    buf.push(((x >> 64) & 0xff) as u8);
    buf.push(((x >> 72) & 0xff) as u8);
    buf.push(((x >> 80) & 0xff) as u8);
    buf.push(((x >> 88) & 0xff) as u8);
    buf.push(((x >> 96) & 0xff) as u8);
    buf.push(((x >> 104) & 0xff) as u8);
    buf.push(((x >> 112) & 0xff) as u8);
    buf.push(((x >> 120) & 0xff) as u8);
    proof {
        assert(buf@ =~= old(buf)@ + u128_le_bytes(x));
    }
}

/// Appends every byte of `bytes` to `buf`, in order.
fn push_bytes(buf: &mut Vec<u8>, bytes: &[u8])
    ensures
        final(buf)@ == old(buf)@ + bytes@,
{
    let mut i: usize = 0;
    while i < bytes.len()
        invariant
            i <= bytes@.len(),
            buf@ == old(buf)@ + bytes@.subrange(0, i as int),
        decreases bytes@.len() - i,
    {
        buf.push(bytes[i]);
        i = i + 1;
        proof {
            assert(buf@ =~= old(buf)@ + bytes@.subrange(0, i as int));
        }
    }
    proof {
        assert(bytes@.subrange(0, bytes@.len() as int) =~= bytes@);
    }
}

/// Computes the hash commitment of a block's fields by serializing them
/// canonically and hashing the result.
pub fn compute_commitment(
    index: u64,
    payload: &Vec<u8>,
    previous_hash: &[u8; 32],
    nonce: u128,
) -> (r: [u8; 32])
    ensures
        r@ == commitment_spec(index, payload@, previous_hash@, nonce),
{
    let mut buf: Vec<u8> = Vec::new();
    push_u64_le(&mut buf, index);
    push_u64_le(&mut buf, payload.len() as u64);
    push_bytes(&mut buf, payload.as_slice());
    push_bytes(&mut buf, previous_hash.as_slice());
    push_u128_le(&mut buf, nonce);
    proof {
        assert(buf@ =~= commitment_bytes(index, payload@, previous_hash@, nonce));
    }
    blake3_hash32(&buf)
}

} // verus!
