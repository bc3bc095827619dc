//! Canonical pre-authentication encoding (PAE).
//!
//! The signing domain of every token is the deterministic byte sequence
//! `LE64(3) || LE64(len(header)) || header || LE64(len(message)) || message ||
//! LE64(len(footer)) || footer`. Length-prefixing each piece gives domain
//! separation: no other header/message/footer split produces the same bytes.

use vstd::prelude::*;

verus! {

/// The 8-byte little-endian encoding of `n`.
pub open spec fn le64_spec(n: u64) -> Seq<u8> {
    seq![
        (n & 0xff) as u8,
        ((n >> 8) & 0xff) as u8,
        ((n >> 16) & 0xff) as u8,
        ((n >> 24) & 0xff) as u8,
        ((n >> 32) & 0xff) as u8,
        ((n >> 40) & 0xff) as u8,
        ((n >> 48) & 0xff) as u8,
        ((n >> 56) & 0xff) as u8,
    ]
}

/// The canonical encoding of an ordered tuple of three byte strings: an
/// 8-byte little-endian piece count (always 3), then each piece in order,
/// length-prefixed. A zero-length piece is still encoded as `LE64(0)`.
pub open spec fn pae_spec(header: Seq<u8>, message: Seq<u8>, footer: Seq<u8>) -> Seq<u8> {
    le64_spec(3) + le64_spec(header.len() as u64) + header + le64_spec(message.len() as u64)
        + message + le64_spec(footer.len() as u64) + footer
}

/// The encoded form of three pieces is always the 8-byte piece count, three
/// 8-byte length prefixes, and the pieces themselves, whatever their
/// contents: 32 bytes of framing plus the payload.
pub proof fn lemma_pae_len(header: Seq<u8>, message: Seq<u8>, footer: Seq<u8>)
    ensures
        pae_spec(header, message, footer).len() == 32 + header.len() + message.len()
            + footer.len(),
{
    assert(le64_spec(3).len() == 8);
    assert(le64_spec(header.len() as u64).len() == 8);
    assert(le64_spec(message.len() as u64).len() == 8);
    assert(le64_spec(footer.len() as u64).len() == 8);
}

/// Writes `n` as exactly 8 little-endian bytes.
pub fn le64(n: u64) -> (r: Vec<u8>)
    ensures
        r@ == le64_spec(n),
        r@.len() == 8,
{
    let mut r: Vec<u8> = Vec::new();
    proof {
        assert((n & 0xff) <= 0xff) by (bit_vector);
        assert(((n >> 8) & 0xff) <= 0xff) by (bit_vector);
        assert(((n >> 16) & 0xff) <= 0xff) by (bit_vector);
        assert(((n >> 24) & 0xff) <= 0xff) by (bit_vector);
        assert(((n >> 32) & 0xff) <= 0xff) by (bit_vector);
        assert(((n >> 40) & 0xff) <= 0xff) by (bit_vector);
        assert(((n >> 48) & 0xff) <= 0xff) by (bit_vector);
        assert(((n >> 56) & 0xff) <= 0xff) by (bit_vector);
    }
    r.push((n & 0xff) as u8);
    r.push(((n >> 8) & 0xff) as u8);
    r.push(((n >> 16) & 0xff) as u8);
    r.push(((n >> 24) & 0xff) as u8);
    r.push(((n >> 32) & 0xff) as u8);
    r.push(((n >> 40) & 0xff) as u8);
    r.push(((n >> 48) & 0xff) as u8);
    r.push(((n >> 56) & 0xff) as u8);
    proof {
        assert(r@ =~= le64_spec(n));
    }
    r
}

/// Canonically encodes (header, message, footer). Pure: the result is a
/// function of the three inputs alone, with no error case.
pub fn pae(header: &[u8], message: &[u8], footer: &[u8]) -> (r: Vec<u8>)
    ensures
        r@ == pae_spec(header@, message@, footer@),
{
    let mut r: Vec<u8> = Vec::new();
    let count = le64(3);
    r.extend_from_slice(count.as_slice());
    let hlen = le64(header.len() as u64);
    r.extend_from_slice(hlen.as_slice());
    r.extend_from_slice(header);
    let mlen = le64(message.len() as u64);
    r.extend_from_slice(mlen.as_slice());
    r.extend_from_slice(message);
    let flen = le64(footer.len() as u64);
    r.extend_from_slice(flen.as_slice());
    r.extend_from_slice(footer);
    proof {
        assert(r@ =~= pae_spec(header@, message@, footer@));
    }
    r
}

} // verus!
