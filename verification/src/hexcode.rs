//! Hexadecimal key encoding.
//!
//! Key material travels as hex strings. [`hex_enc`] pins the lowercase
//! encoding down exactly and [`hex_ok`]/[`hex_dec`] say which strings decode
//! and to what; the `hex` crate is trusted to compute exactly these.

use vstd::prelude::*;

verus! {

/// A hexadecimal digit in either case.
pub open spec fn is_hex_digit(c: char) -> bool {
    (48 <= c as u32 && c as u32 <= 57) || (97 <= c as u32 && c as u32 <= 102) || (65 <= c as u32
        && c as u32 <= 70)
}

/// The value of a hexadecimal digit, either case.
pub open spec fn hex_val(c: char) -> u8
    recommends
        is_hex_digit(c),
{
    if 48 <= c as u32 && c as u32 <= 57 {
        (c as u32 - 48) as u8
    } else if 97 <= c as u32 && c as u32 <= 102 {
        (c as u32 - 87) as u8
    } else if 65 <= c as u32 && c as u32 <= 70 {
        (c as u32 - 55) as u8
    } else {
        0
    }
}

/// The lowercase digit for a 4-bit value.
pub open spec fn hex_digit(v: u8) -> char
    recommends
        v < 16,
{
    if v < 10 {
        ((v + 48) as u8) as char
    } else {
        ((v + 87) as u8) as char
    }
}

/// Lowercase hex of a byte string: two digits per byte, high nibble first.
pub open spec fn hex_enc(b: Seq<u8>) -> Seq<char>
    decreases b.len(),
{
    if b.len() == 0 {
        Seq::empty()
    } else {
        seq![hex_digit(b[0] >> 4), hex_digit(b[0] & 15)] + hex_enc(b.skip(1))
    }
}

/// Whether a string is well-formed hex: even length, digits only.
pub open spec fn hex_ok(s: Seq<char>) -> bool {
    s.len() % 2 == 0 && forall|i: int| 0 <= i < s.len() ==> is_hex_digit(#[trigger] s[i])
}

/// The bytes a well-formed hex string denotes, two digits per byte.
pub open spec fn hex_dec(s: Seq<char>) -> Seq<u8>
    decreases s.len(),
{
    if s.len() < 2 {
        Seq::empty()
    } else {
        seq![((hex_val(s[0]) as int) * 16 + hex_val(s[1]) as int) as u8] + hex_dec(s.skip(2))
    }
}

/// Encoding then decoding a byte string gives it back unchanged, and the
/// encoded form is well-formed hex of twice the byte length.
pub proof fn lemma_hex_round_trip(b: Seq<u8>)
    ensures
        hex_enc(b).len() == 2 * b.len(),
        hex_ok(hex_enc(b)),
        hex_dec(hex_enc(b)) =~= b,
    decreases b.len(),
{
    if b.len() > 0 {
        lemma_hex_round_trip(b.skip(1));
        let b0 = b[0];
        assert((b0 >> 4) < 16 && (b0 & 15) < 16) by (bit_vector);
        assert(((hex_val(hex_digit(b0 >> 4)) as int) * 16 + hex_val(hex_digit(b0 & 15)) as int)
            as u8 == b0) by {
            assert(hex_val(hex_digit(b0 >> 4)) == b0 >> 4);
            assert(hex_val(hex_digit(b0 & 15)) == b0 & 15);
            assert(((b0 >> 4) as int) * 16 + ((b0 & 15) as int) == b0) by (bit_vector);
        }
        assert(hex_enc(b).skip(2) =~= hex_enc(b.skip(1)));
        assert(hex_dec(hex_enc(b)) =~= b);
        assert forall|i: int| 0 <= i < hex_enc(b).len() implies is_hex_digit(
            #[trigger] hex_enc(b)[i],
        ) by {
            if i >= 2 {
                assert(hex_enc(b)[i] == hex_enc(b.skip(1))[i - 2]);
            }
        }
    }
}

/// Relies on `hex::encode`: lowercase hex, two digits per byte.
#[verifier::external_body]
pub(crate) fn hex_encode(b: &[u8]) -> (r: String)
    ensures
        r@ == hex_enc(b@),
{
    hex::encode(b)
}

/// Relies on `hex::decode`: it accepts exactly the even-length strings of
/// hex digits in either case, and pairs digits into bytes high nibble first.
#[verifier::external_body]
pub(crate) fn hex_decode(s: &str) -> (r: Option<Vec<u8>>)
    ensures
        r matches Some(y) ==> hex_ok(s@) && y@ == hex_dec(s@),
        r matches None ==> !hex_ok(s@),
{
    hex::decode(s).ok()
}

} // verus!
