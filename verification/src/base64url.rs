//! Unpadded URL-safe base64, the segment encoding of tokens.
//!
//! The encoding is pinned down exactly by [`b64_spec`]; the `base64` crate's
//! `URL_SAFE_NO_PAD` engine is trusted to compute it and to accept exactly
//! its canonical outputs. The alphabet contains no `.`, which is what lets a
//! token's dot-separated segments be recovered unambiguously.

use vstd::prelude::*;
use base64::Engine;

verus! {

/// The URL-safe base64 alphabet character for a 6-bit value.
pub open spec fn b64_char(v: u8) -> char
    recommends
        v < 64,
{
    if v < 26 {
        ((v + 65) as u8) as char
    } else if v < 52 {
        ((v + 71) as u8) as char
    } else if v < 62 {
        ((v - 4) as u8) as char
    } else if v == 62 {
        '-'
    } else {
        '_'
    }
}

/// Membership in the URL-safe base64 alphabet: `A`-`Z`, `a`-`z`, `0`-`9`,
/// `-`, `_`.
pub open spec fn is_b64url_char(c: char) -> bool {
    (65 <= c as u32 && c as u32 <= 90) || (97 <= c as u32 && c as u32 <= 122) || (48 <= c as u32
        && c as u32 <= 57) || c == '-' || c == '_'
}

/// Unpadded URL-safe base64 of a byte string: each 3-byte group becomes 4
/// characters of 6-bit values, a 2-byte tail becomes 3 characters and a
/// 1-byte tail 2 characters, with no padding.
pub open spec fn b64_spec(s: Seq<u8>) -> Seq<char>
    decreases s.len(),
{
    if s.len() >= 3 {
        seq![
            b64_char(s[0] >> 2),
            b64_char(((s[0] & 3) << 4) | (s[1] >> 4)),
            b64_char(((s[1] & 15) << 2) | (s[2] >> 6)),
            b64_char(s[2] & 63),
        ] + b64_spec(s.skip(3))
    } else if s.len() == 2 {
        seq![
            b64_char(s[0] >> 2),
            b64_char(((s[0] & 3) << 4) | (s[1] >> 4)),
            b64_char((s[1] & 15) << 2),
        ]
    } else if s.len() == 1 {
        seq![b64_char(s[0] >> 2), b64_char((s[0] & 3) << 4)]
    } else {
        Seq::empty()
    }
}

/// Every alphabet character differs from the segment separator `.`.
pub proof fn lemma_b64_char_alphabet(v: u8)
    ensures
        is_b64url_char(b64_char(v)),
        b64_char(v) != '.',
{
}

/// An encoded segment consists of alphabet characters only; in particular it
/// contains no `.`.
pub proof fn lemma_b64_alphabet(s: Seq<u8>)
    ensures
        forall|i: int| 0 <= i < b64_spec(s).len() ==> is_b64url_char(#[trigger] b64_spec(s)[i]),
        forall|i: int| 0 <= i < b64_spec(s).len() ==> #[trigger] b64_spec(s)[i] != '.',
    decreases s.len(),
{
    if s.len() >= 3 {
        lemma_b64_alphabet(s.skip(3));
        assert forall|i: int| 0 <= i < b64_spec(s).len() implies is_b64url_char(
            #[trigger] b64_spec(s)[i],
        ) && b64_spec(s)[i] != '.' by {
            if i < 4 {
                lemma_b64_char_alphabet(s[0] >> 2);
                lemma_b64_char_alphabet(((s[0] & 3) << 4) | (s[1] >> 4));
                lemma_b64_char_alphabet(((s[1] & 15) << 2) | (s[2] >> 6));
                lemma_b64_char_alphabet(s[2] & 63);
            } else {
                assert(b64_spec(s)[i] == b64_spec(s.skip(3))[i - 4]);
            }
        }
    } else if s.len() == 2 {
        lemma_b64_char_alphabet(s[0] >> 2);
        lemma_b64_char_alphabet(((s[0] & 3) << 4) | (s[1] >> 4));
        lemma_b64_char_alphabet((s[1] & 15) << 2);
    } else if s.len() == 1 {
        lemma_b64_char_alphabet(s[0] >> 2);
        lemma_b64_char_alphabet((s[0] & 3) << 4);
    }
}

/// The exact length of an encoded segment: four characters per full 3-byte
/// group, and one more than the tail's byte count for a non-empty tail.
pub proof fn lemma_b64_len(s: Seq<u8>)
    ensures
        b64_spec(s).len() == 4 * (s.len() / 3) + (if s.len() % 3 == 0 {
            0int
        } else {
            s.len() % 3 + 1int
        }),
    decreases s.len(),
{
    if s.len() >= 3 {
        lemma_b64_len(s.skip(3));
    }
}

/// Segments of equal encoded length come from inputs of equal byte length.
pub proof fn lemma_b64_len_inj(a: Seq<u8>, b: Seq<u8>)
    requires
        b64_spec(a).len() == b64_spec(b).len(),
    ensures
        a.len() == b.len(),
{
    lemma_b64_len(a);
    lemma_b64_len(b);
}

/// The byte string a canonical segment encodes.
pub open spec fn b64_dec_spec(s: Seq<char>) -> Seq<u8> {
    choose|x: Seq<u8>| s == b64_spec(x)
}

/// The decoded value of a canonical segment is unique: any witness of the
/// encoding equals it.
pub proof fn lemma_b64_dec_spec(s: Seq<char>, x: Seq<u8>)
    requires
        s == b64_spec(x),
    ensures
        b64_dec_spec(s) == x,
{
    assert(s == b64_spec(b64_dec_spec(s))) by {
        assert(exists|y: Seq<u8>| s == b64_spec(y));
    }
    lemma_b64_inj(b64_dec_spec(s), x);
}

/// Relies on `base64::engine::general_purpose::URL_SAFE_NO_PAD.encode`:
/// unpadded URL-safe base64 of the input bytes, as [`b64_spec`] states it.
#[verifier::external_body]
pub(crate) fn b64_encode(b: &[u8]) -> (r: String)
    ensures
        r@ == b64_spec(b@),
{
    base64::engine::general_purpose::URL_SAFE_NO_PAD.encode(b)
}

/// Relies on `base64::engine::general_purpose::URL_SAFE_NO_PAD.decode`: it
/// accepts exactly the canonical unpadded encodings (the engine rejects
/// padding, non-alphabet characters, impossible lengths and non-zero
/// trailing bits) and inverts [`b64_spec`] on them.
#[verifier::external_body]
pub(crate) fn b64_decode(s: &str) -> (r: Option<Vec<u8>>)
    ensures
        r matches Some(y) ==> s@ == b64_spec(y@),
        r matches None ==> forall|x: Seq<u8>| s@ != b64_spec(x),
{
    base64::engine::general_purpose::URL_SAFE_NO_PAD.decode(s).ok()
}

/// Two distinct 6-bit values encode to distinct alphabet characters.
pub proof fn lemma_b64_char_inj(v1: u8, v2: u8)
    requires
        v1 < 64,
        v2 < 64,
        b64_char(v1) == b64_char(v2),
    ensures
        v1 == v2,
{
}

/// The encoding is injective: equal segments come from equal byte strings,
/// so a decoded segment identifies its message uniquely.
pub proof fn lemma_b64_inj(a: Seq<u8>, b: Seq<u8>)
    requires
        b64_spec(a) == b64_spec(b),
    ensures
        a =~= b,
    decreases a.len(),
{
    lemma_b64_len_inj(a, b);
    if a.len() >= 3 {
        let a0 = a[0];
        let a1 = a[1];
        let a2 = a[2];
        let b0 = b[0];
        let b1 = b[1];
        let b2 = b[2];
        assert((a0 >> 2) < 64 && (((a0 & 3) << 4) | (a1 >> 4)) < 64 && (((a1 & 15) << 2) | (a2
            >> 6)) < 64 && (a2 & 63) < 64) by (bit_vector);
        assert((b0 >> 2) < 64 && (((b0 & 3) << 4) | (b1 >> 4)) < 64 && (((b1 & 15) << 2) | (b2
            >> 6)) < 64 && (b2 & 63) < 64) by (bit_vector);
        assert(b64_spec(a)[0] == b64_char(a0 >> 2) && b64_spec(a)[1] == b64_char(
            ((a0 & 3) << 4) | (a1 >> 4),
        ) && b64_spec(a)[2] == b64_char(((a1 & 15) << 2) | (a2 >> 6)) && b64_spec(a)[3]
            == b64_char(a2 & 63));
        assert(b64_spec(b)[0] == b64_char(b0 >> 2) && b64_spec(b)[1] == b64_char(
            ((b0 & 3) << 4) | (b1 >> 4),
        ) && b64_spec(b)[2] == b64_char(((b1 & 15) << 2) | (b2 >> 6)) && b64_spec(b)[3]
            == b64_char(b2 & 63));
        lemma_b64_char_inj(a0 >> 2, b0 >> 2);
        lemma_b64_char_inj(((a0 & 3) << 4) | (a1 >> 4), ((b0 & 3) << 4) | (b1 >> 4));
        lemma_b64_char_inj(((a1 & 15) << 2) | (a2 >> 6), ((b1 & 15) << 2) | (b2 >> 6));
        lemma_b64_char_inj(a2 & 63, b2 & 63);
        assert(a0 == b0 && a1 == b1 && a2 == b2) by (bit_vector)
            requires
                a0 >> 2 == b0 >> 2,
                ((a0 & 3) << 4) | (a1 >> 4) == ((b0 & 3) << 4) | (b1 >> 4),
                ((a1 & 15) << 2) | (a2 >> 6) == ((b1 & 15) << 2) | (b2 >> 6),
                a2 & 63 == b2 & 63,
        ;
        assert(b64_spec(a.skip(3)) =~= b64_spec(a).skip(4));
        assert(b64_spec(b.skip(3)) =~= b64_spec(b).skip(4));
        lemma_b64_inj(a.skip(3), b.skip(3));
        assert forall|i: int| 0 <= i < a.len() implies a[i] == b[i] by {
            if i >= 3 {
                assert(a[i] == a.skip(3)[i - 3]);
                assert(b[i] == b.skip(3)[i - 3]);
            }
        }
    } else if a.len() == 2 {
        let a0 = a[0];
        let a1 = a[1];
        let b0 = b[0];
        let b1 = b[1];
        assert((a0 >> 2) < 64 && (((a0 & 3) << 4) | (a1 >> 4)) < 64 && ((a1 & 15) << 2) < 64)
            by (bit_vector);
        assert((b0 >> 2) < 64 && (((b0 & 3) << 4) | (b1 >> 4)) < 64 && ((b1 & 15) << 2) < 64)
            by (bit_vector);
        lemma_b64_char_inj(a0 >> 2, b0 >> 2);
        lemma_b64_char_inj(((a0 & 3) << 4) | (a1 >> 4), ((b0 & 3) << 4) | (b1 >> 4));
        lemma_b64_char_inj((a1 & 15) << 2, (b1 & 15) << 2);
        assert(a0 == b0 && a1 == b1) by (bit_vector)
            requires
                a0 >> 2 == b0 >> 2,
                ((a0 & 3) << 4) | (a1 >> 4) == ((b0 & 3) << 4) | (b1 >> 4),
                (a1 & 15) << 2 == (b1 & 15) << 2,
        ;
    } else if a.len() == 1 {
        let a0 = a[0];
        let b0 = b[0];
        assert((a0 >> 2) < 64 && ((a0 & 3) << 4) < 64) by (bit_vector);
        assert((b0 >> 2) < 64 && ((b0 & 3) << 4) < 64) by (bit_vector);
        lemma_b64_char_inj(a0 >> 2, b0 >> 2);
        lemma_b64_char_inj((a0 & 3) << 4, (b0 & 3) << 4);
        assert(a0 == b0) by (bit_vector)
            requires
                a0 >> 2 == b0 >> 2,
                (a0 & 3) << 4 == (b0 & 3) << 4,
        ;
    }
}

} // verus!
