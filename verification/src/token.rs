//! Public-key bearer tokens: `v4.public.<payload>.<signature>`.
//!
//! A token is the fixed header literal followed by two non-empty dot-separated
//! segments, each unpadded URL-safe base64. The payload segment carries the
//! message bytes verbatim (tokens are authenticated, not confidential); the
//! signature segment carries a 64-byte Ed25519 signature over the canonical
//! encoding of (header, message, empty footer). Signing is a pure function of
//! message and key; verification walks its gates in a fixed order and reports
//! a distinct error per gate.

use vstd::prelude::*;
use vstd::slice::slice_subrange;
use crate::base64url::{
    b64_spec, b64_dec_spec, b64_decode, b64_encode, lemma_b64_alphabet, lemma_b64_dec_spec,
    lemma_b64_inj, lemma_b64_len,
};
use crate::encoding::{pae, pae_spec};
use crate::errors::AuthError;
use crate::hexcode::{hex_ok, hex_dec, hex_decode, hex_enc, lemma_hex_round_trip};
use ed25519_dalek::Signer;
use ed25519_dalek::Verifier;

verus! {

/// The header literal as characters: `v4.public.`.
pub open spec fn header_chars() -> Seq<char> {
    seq!['v', '4', '.', 'p', 'u', 'b', 'l', 'i', 'c', '.']
}

/// The header literal as bytes.
pub open spec fn header_bytes() -> Seq<u8> {
    seq![118u8, 52u8, 46u8, 112u8, 117u8, 98u8, 108u8, 105u8, 99u8, 46u8]
}

/// Whether a string begins with the exact header literal.
pub open spec fn starts_with_header(t: Seq<char>) -> bool {
    t.len() >= 10 && t.subrange(0, 10) == header_chars()
}

/// The remainder of a token after the header.
pub open spec fn rem_of(t: Seq<char>) -> Seq<char> {
    t.subrange(10, t.len() as int)
}

/// No `.` anywhere in the string.
pub open spec fn no_dot(s: Seq<char>) -> bool {
    forall|i: int| 0 <= i < s.len() ==> s[i] != '.'
}

/// `p` cuts the remainder into exactly two non-empty dot-free segments.
pub open spec fn is_split(rem: Seq<char>, p: int) -> bool {
    &&& 1 <= p <= rem.len() - 2
    &&& rem[p] == '.'
    &&& no_dot(rem.subrange(0, p))
    &&& no_dot(rem.subrange(p + 1, rem.len() as int))
}

/// The remainder has the two-segment shape.
pub open spec fn shape_ok(rem: Seq<char>) -> bool {
    exists|p: int| is_split(rem, p)
}

/// The position of the separating dot of a well-shaped remainder.
pub open spec fn dot_pos(rem: Seq<char>) -> int {
    choose|p: int| is_split(rem, p)
}

/// The payload segment of a well-shaped remainder.
pub open spec fn seg1(rem: Seq<char>) -> Seq<char> {
    rem.subrange(0, dot_pos(rem))
}

/// The signature segment of a well-shaped remainder.
pub open spec fn seg2(rem: Seq<char>) -> Seq<char> {
    rem.subrange(dot_pos(rem) + 1, rem.len() as int)
}

/// The string is a canonical base64url segment of some byte string.
pub open spec fn b64_ok(s: Seq<char>) -> bool {
    exists|x: Seq<u8>| s == b64_spec(x)
}

/// The string is the canonical segment of some 64-byte signature.
pub open spec fn sig_sized(s: Seq<char>) -> bool {
    exists|x: Seq<u8>| x.len() == 64 && s == b64_spec(x)
}

/// Header plus two well-shaped segments.
pub open spec fn token_wf(t: Seq<char>) -> bool {
    starts_with_header(t) && shape_ok(rem_of(t))
}

/// The Ed25519 signature of `msg` under the signing key derived from `seed`.
/// Deterministic (RFC 8032), so it is a function of its arguments alone.
pub uninterp spec fn ed_sign(seed: Seq<u8>, msg: Seq<u8>) -> Seq<u8>;

/// The Ed25519 public key derived from `seed`.
pub uninterp spec fn ed_pub(seed: Seq<u8>) -> Seq<u8>;

/// The outcome of Ed25519 verification of `sig` over `msg` under the
/// public-key bytes `pk`. Verification is deterministic — a hash, fixed
/// curve arithmetic and a byte comparison — so it is a function of the
/// three byte strings alone; a `pk` that decodes to no valid curve point
/// verifies nothing, deterministically.
pub uninterp spec fn ed_verify_ok(pk: Seq<u8>, msg: Seq<u8>, sig: Seq<u8>) -> bool;

/// A token assembled from message and signature bytes.
pub open spec fn token_of(m: Seq<u8>, sig: Seq<u8>) -> Seq<char> {
    header_chars() + b64_spec(m) + seq!['.'] + b64_spec(sig)
}

/// The token that signing message `m` with `seed` produces.
pub open spec fn token_spec(m: Seq<u8>, seed: Seq<u8>) -> Seq<char> {
    token_of(m, ed_sign(seed, pae_spec(header_bytes(), m, Seq::empty())))
}

/// The signing seed a private-key hex string denotes: its first 32 bytes.
/// A 64-byte private key carries the public key behind them; only these 32
/// bytes are cryptographically used.
pub open spec fn seed_of(sk: Seq<char>) -> Seq<u8> {
    hex_dec(sk).subrange(0, 32)
}

/// `t` is the token of message `m` signed under `seed`, and `pk` is the hex
/// of the matching public key (the length facts hold of every key and
/// signature the wrappers produce).
pub open spec fn genuine(t: Seq<char>, pk: Seq<char>, m: Seq<u8>, seed: Seq<u8>) -> bool {
    &&& m.len() > 0
    &&& seed.len() == 32
    &&& ed_pub(seed).len() == 32
    &&& ed_sign(seed, pae_spec(header_bytes(), m, Seq::empty())).len() == 64
    &&& t == token_spec(m, seed)
    &&& hex_ok(pk)
    &&& hex_dec(pk) == ed_pub(seed)
}

/// Relies on `ed25519_dalek::SigningKey::from_bytes`, `Signer::sign` and
/// `Signature::to_bytes`: the deterministic 64-byte Ed25519 signature of
/// `msg` under the key derived from the 32-byte seed.
#[verifier::external_body]
pub(crate) fn ed25519_sign(seed: &[u8], msg: &[u8]) -> (r: Vec<u8>)
    requires
        seed@.len() == 32,
    ensures
        r@ == ed_sign(seed@, msg@),
        r@.len() == 64,
{
    let seed_arr: [u8; 32] = seed.try_into().unwrap();
    let sk = ed25519_dalek::SigningKey::from_bytes(&seed_arr);
    sk.sign(msg).to_bytes().to_vec()
}

/// Relies on `ed25519_dalek::SigningKey::from_bytes`, `verifying_key` and
/// `VerifyingKey::to_bytes`: the 32-byte public key derived from the seed.
#[verifier::external_body]
pub(crate) fn ed25519_public(seed: &[u8]) -> (r: Vec<u8>)
    requires
        seed@.len() == 32,
    ensures
        r@ == ed_pub(seed@),
        r@.len() == 32,
{
    let seed_arr: [u8; 32] = seed.try_into().unwrap();
    let sk = ed25519_dalek::SigningKey::from_bytes(&seed_arr);
    sk.verifying_key().to_bytes().to_vec()
}

/// Relies on `ed25519_dalek::VerifyingKey::{from_bytes, verify}` and
/// `Signature::from_bytes`: the deterministic verification outcome of the
/// three byte strings, named `ed_verify_ok` (a key that is no valid point
/// encoding yields `false`), and it accepts a signature made with the
/// matching seed over the same message. Nothing is assumed of acceptance
/// on any other input.
#[verifier::external_body]
pub(crate) fn ed25519_verify(pk: &[u8], msg: &[u8], sig: &[u8]) -> (r: bool)
    requires
        pk@.len() == 32,
        sig@.len() == 64,
    ensures
        r == ed_verify_ok(pk@, msg@, sig@),
        !r ==> forall|seed: Seq<u8>|
            !(seed.len() == 32 && pk@ == ed_pub(seed) && sig@ == ed_sign(seed, msg@)),
{
    let pk_arr: [u8; 32] = pk.try_into().unwrap();
    let vk = match ed25519_dalek::VerifyingKey::from_bytes(&pk_arr) {
        Ok(k) => k,
        Err(_) => return false,
    };
    let sig_arr: [u8; 64] = sig.try_into().unwrap();
    let signature = ed25519_dalek::Signature::from_bytes(&sig_arr);
    vk.verify(msg, &signature).is_ok()
}

/// A well-shaped remainder has exactly one admissible cut.
pub proof fn lemma_split_unique(rem: Seq<char>, p1: int, p2: int)
    requires
        is_split(rem, p1),
        is_split(rem, p2),
    ensures
        p1 == p2,
{
    if p1 < p2 {
        assert(rem.subrange(p1 + 1, rem.len() as int)[p2 - p1 - 1] == rem[p2]);
    }
    if p2 < p1 {
        assert(rem.subrange(p2 + 1, rem.len() as int)[p1 - p2 - 1] == rem[p1]);
    }
}

/// An assembled token parses back into its two segments: the header is in
/// place, the single admissible cut is at the dot between the segments, and
/// the segments are the two encodings.
pub proof fn lemma_token_parse(m: Seq<u8>, sig: Seq<u8>)
    requires
        m.len() > 0,
        sig.len() > 0,
    ensures
        starts_with_header(token_of(m, sig)),
        shape_ok(rem_of(token_of(m, sig))),
        seg1(rem_of(token_of(m, sig))) == b64_spec(m),
        seg2(rem_of(token_of(m, sig))) == b64_spec(sig),
{
    let t = token_of(m, sig);
    let rm = rem_of(t);
    lemma_b64_alphabet(m);
    lemma_b64_alphabet(sig);
    lemma_b64_len(m);
    lemma_b64_len(sig);
    assert(b64_spec(m).len() > 0);
    assert(b64_spec(sig).len() > 0);
    assert(t.subrange(0, 10) =~= header_chars());
    let q = b64_spec(m).len() as int;
    assert(rm =~= b64_spec(m) + seq!['.'] + b64_spec(sig));
    assert(rm.subrange(0, q) =~= b64_spec(m));
    assert(rm.subrange(q + 1, rm.len() as int) =~= b64_spec(sig));
    assert(is_split(rm, q));
    lemma_split_unique(rm, dot_pos(rm), q);
}

/// The header literal as an owned byte vector.
fn header_vec() -> (r: Vec<u8>)
    ensures
        r@ == header_bytes(),
{
    let mut r: Vec<u8> = Vec::new();
    r.push(118u8);
    r.push(52u8);
    r.push(46u8);
    r.push(112u8);
    r.push(117u8);
    r.push(98u8);
    r.push(108u8);
    r.push(105u8);
    r.push(99u8);
    r.push(46u8);
    proof {
        assert(r@ =~= header_bytes());
    }
    r
}

/// Signs `message` into a token under the given hex private key. The key
/// must decode to at least 32 bytes; its first 32 bytes are the seed. Pure:
/// no randomness, no I/O, and the exact token is pinned by `token_spec`.
pub fn sign_paseto(message: &[u8], private_key_hex: &str) -> (r: Result<String, AuthError>)
    ensures
        !hex_ok(private_key_hex@) ==> r == Err::<String, AuthError>(AuthError::Encoding),
        hex_ok(private_key_hex@) && hex_dec(private_key_hex@).len() < 32 ==> r == Err::<
            String,
            AuthError,
        >(AuthError::Length),
        hex_ok(private_key_hex@) && hex_dec(private_key_hex@).len() >= 32 ==> (r matches Ok(t)
            && t@ == token_spec(message@, seed_of(private_key_hex@)) && ed_sign(
            seed_of(private_key_hex@),
            pae_spec(header_bytes(), message@, Seq::empty()),
        ).len() == 64),
{
    let key_bytes = match hex_decode(private_key_hex) {
        Some(v) => v,
        None => {
            return Err(AuthError::Encoding);
        },
    };
    if key_bytes.len() < 32 {
        return Err(AuthError::Length);
    }
    let seed = slice_subrange(key_bytes.as_slice(), 0, 32);
    let hdr = header_vec();
    let footer: Vec<u8> = Vec::new();
    proof {
        assert(footer@ =~= Seq::<u8>::empty());
    }
    let m2 = pae(hdr.as_slice(), message, footer.as_slice());
    let sig = ed25519_sign(seed, m2.as_slice());
    let b64_m = b64_encode(message);
    let b64_s = b64_encode(sig.as_slice());
    let mut token = String::from_str("v4.public.");
    proof {
        reveal_strlit("v4.public.");
        reveal_strlit(".");
        assert("v4.public."@ =~= header_chars());
        assert("."@ =~= seq!['.']);
    }
    token.append(b64_m.as_str());
    token.append(".");
    token.append(b64_s.as_str());
    proof {
        assert(seed@ == seed_of(private_key_hex@));
        assert(token@ =~= token_spec(message@, seed_of(private_key_hex@)));
    }
    Ok(token)
}

/// Splits a token into its decoded payload and signature bytes, walking the
/// first four verification gates in order: header literal, two-segment
/// shape, base64 decoding of each segment, 64-byte signature length.
fn decode_token(token: &str) -> (r: Result<(Vec<u8>, Vec<u8>), AuthError>)
    ensures
        r matches Ok(pr) ==> token_wf(token@) && seg1(rem_of(token@)) == b64_spec(pr.0@) && seg2(
            rem_of(token@),
        ) == b64_spec(pr.1@) && pr.1@.len() == 64,
        !starts_with_header(token@) ==> r == Err::<(Vec<u8>, Vec<u8>), AuthError>(
            AuthError::Structure,
        ),
        starts_with_header(token@) && !shape_ok(rem_of(token@)) ==> r == Err::<
            (Vec<u8>, Vec<u8>),
            AuthError,
        >(AuthError::Structure),
        token_wf(token@) && !(b64_ok(seg1(rem_of(token@))) && b64_ok(seg2(rem_of(token@))))
            ==> r == Err::<(Vec<u8>, Vec<u8>), AuthError>(AuthError::Encoding),
        token_wf(token@) && b64_ok(seg1(rem_of(token@))) && b64_ok(seg2(rem_of(token@)))
            && !sig_sized(seg2(rem_of(token@))) ==> r == Err::<(Vec<u8>, Vec<u8>), AuthError>(
            AuthError::Length,
        ),
        token_wf(token@) && b64_ok(seg1(rem_of(token@))) && sig_sized(seg2(rem_of(token@))) ==> (r
            matches Ok(pr) && seg1(rem_of(token@)) == b64_spec(pr.0@) && seg2(rem_of(token@))
            == b64_spec(pr.1@) && pr.1@.len() == 64),
{
    let ghost t = token@;
    let n = token.unicode_len();
    let hdr: &str = "v4.public.";
    proof {
        reveal_strlit("v4.public.");
        assert(hdr@ =~= header_chars());
    }
    if n < 10 {
        return Err(AuthError::Structure);
    }
    let mut i: usize = 0;
    while i < 10
        invariant
            n == t.len(),
            n >= 10,
            t == token@,
            hdr@ == header_chars(),
            i <= 10,
            forall|j: int| 0 <= j < i ==> t[j] == header_chars()[j],
        decreases 10 - i,
    {
        let c = token.get_char(i);
        let hc = hdr.get_char(i);
        if c != hc {
            proof {
                assert(t.subrange(0, 10)[i as int] != header_chars()[i as int]);
            }
            return Err(AuthError::Structure);
        }
        i += 1;
    }
    proof {
        assert(t.subrange(0, 10) =~= header_chars());
        assert(starts_with_header(t));
    }
    let ghost rm = rem_of(t);
    let mut j: usize = 10;
    let mut fd: usize = 0;
    let mut has_fd = false;
    let mut sd: usize = 0;
    let mut has_sd = false;
    while j < n
        invariant
            n == t.len(),
            n >= 10,
            t == token@,
            10 <= j <= n,
            !has_fd ==> !has_sd && forall|k: int| 10 <= k < j ==> t[k] != '.',
            has_fd ==> 10 <= fd < j && t[fd as int] == '.' && forall|k: int|
                10 <= k < fd ==> t[k] != '.',
            has_fd && !has_sd ==> forall|k: int| fd < k < j ==> t[k] != '.',
            has_sd ==> has_fd && fd < sd < j && t[sd as int] == '.',
        decreases n - j,
    {
        let c = token.get_char(j);
        if c == '.' {
            if !has_fd {
                fd = j;
                has_fd = true;
            } else if !has_sd {
                sd = j;
                has_sd = true;
            }
        }
        j += 1;
    }
    proof {
        assert(rm =~= t.subrange(10, n as int));
        assert forall|p: int| 0 <= p < rm.len() implies rm[p] == t[p + 10] by {}
    }
    if !has_fd {
        proof {
            assert forall|p: int| !is_split(rm, p) by {
                if 0 <= p < rm.len() {
                    assert(rm[p] == t[p + 10]);
                }
            }
        }
        return Err(AuthError::Structure);
    }
    if has_sd {
        proof {
            let q1 = fd as int - 10;
            let q2 = sd as int - 10;
            assert(rm[q1] == '.');
            assert(rm[q2] == '.');
            assert forall|p: int| !is_split(rm, p) by {
                if is_split(rm, p) {
                    if p < q1 {
                        assert(rm.subrange(0, p)[p] == rm[p]);
                        assert(rm[p] == t[p + 10]);
                        assert(t[p + 10] != '.');
                    } else if p > q1 {
                        assert(rm.subrange(0, p)[q1] == rm[q1]);
                    } else {
                        assert(rm.subrange(p + 1, rm.len() as int)[q2 - p - 1] == rm[q2]);
                    }
                }
            }
        }
        return Err(AuthError::Structure);
    }
    // exactly one dot, at fd
    let ghost q = fd as int - 10;
    proof {
        assert(rm[q] == '.');
        assert forall|k: int| 0 <= k < rm.len() && k != q implies rm[k] != '.' by {
            assert(rm[k] == t[k + 10]);
        }
    }
    if fd == 10 || fd == n - 1 {
        proof {
            assert forall|p: int| !is_split(rm, p) by {
                if is_split(rm, p) {
                    if p != q {
                        if p < q {
                            assert(rm.subrange(p + 1, rm.len() as int)[q - p - 1] == rm[q]);
                        } else {
                            assert(rm.subrange(0, p)[q] == rm[q]);
                        }
                    }
                }
            }
        }
        return Err(AuthError::Structure);
    }
    proof {
        assert(rm.subrange(0, q) =~= t.subrange(10, fd as int));
        assert(rm.subrange(q + 1, rm.len() as int) =~= t.subrange(fd as int + 1, n as int));
        assert forall|k: int| 0 <= k < q implies rm.subrange(0, q)[k] != '.' by {
            assert(rm.subrange(0, q)[k] == rm[k]);
        }
        assert forall|k: int| 0 <= k < rm.len() - q - 1 implies #[trigger] rm.subrange(
            q + 1,
            rm.len() as int,
        )[k] != '.' by {
            assert(rm.subrange(q + 1, rm.len() as int)[k] == rm[k + q + 1]);
        }
        assert(is_split(rm, q));
        lemma_split_unique(rm, dot_pos(rm), q);
        assert(dot_pos(rm) == q);
    }
    let s1 = token.substring_char(10, fd);
    let s2 = token.substring_char(fd + 1, n);
    proof {
        assert(s1@ =~= seg1(rm));
        assert(s2@ =~= seg2(rm));
    }
    let m = match b64_decode(s1) {
        Some(v) => v,
        None => {
            return Err(AuthError::Encoding);
        },
    };
    let sg = match b64_decode(s2) {
        Some(v) => v,
        None => {
            proof {
                assert forall|x: Seq<u8>| !(x.len() == 64 && seg2(rm) == b64_spec(x)) by {}
            }
            return Err(AuthError::Encoding);
        },
    };
    if sg.len() != 64 {
        proof {
            assert forall|x: Seq<u8>| !(x.len() == 64 && seg2(rm) == b64_spec(x)) by {
                if seg2(rm) == b64_spec(x) {
                    lemma_b64_inj(x, sg@);
                }
            }
        }
        return Err(AuthError::Length);
    }
    Ok((m, sg))
}

/// Verifies a token against a hex public key and returns the authenticated
/// message bytes. The gates run in order — header literal, two-segment
/// shape, base64 decoding, signature length, key decoding and length,
/// cryptographic verification — each with its own error, so a caller can
/// tell a malformed request from an authentic-looking forgery. A genuine
/// token is always accepted and yields exactly the signed message.
pub fn verify_paseto(token: &str, public_key_hex: &str) -> (r: Result<Vec<u8>, AuthError>)
    ensures
        r matches Ok(y) ==> token_wf(token@) && seg1(rem_of(token@)) == b64_spec(y@) && sig_sized(
            seg2(rem_of(token@)),
        ) && hex_ok(public_key_hex@) && hex_dec(public_key_hex@).len() == 32,
        !starts_with_header(token@) ==> r == Err::<Vec<u8>, AuthError>(AuthError::Structure),
        starts_with_header(token@) && !shape_ok(rem_of(token@)) ==> r == Err::<Vec<u8>, AuthError>(
            AuthError::Structure,
        ),
        token_wf(token@) && !(b64_ok(seg1(rem_of(token@))) && b64_ok(seg2(rem_of(token@)))) ==> r
            == Err::<Vec<u8>, AuthError>(AuthError::Encoding),
        token_wf(token@) && b64_ok(seg1(rem_of(token@))) && b64_ok(seg2(rem_of(token@)))
            && !sig_sized(seg2(rem_of(token@))) ==> r == Err::<Vec<u8>, AuthError>(
            AuthError::Length,
        ),
        token_wf(token@) && b64_ok(seg1(rem_of(token@))) && sig_sized(seg2(rem_of(token@)))
            && !hex_ok(public_key_hex@) ==> r == Err::<Vec<u8>, AuthError>(AuthError::Encoding),
        token_wf(token@) && b64_ok(seg1(rem_of(token@))) && sig_sized(seg2(rem_of(token@)))
            && hex_ok(public_key_hex@) && hex_dec(public_key_hex@).len() != 32 ==> r == Err::<
            Vec<u8>,
            AuthError,
        >(AuthError::Length),
        token_wf(token@) && b64_ok(seg1(rem_of(token@))) && sig_sized(seg2(rem_of(token@)))
            && hex_ok(public_key_hex@) && hex_dec(public_key_hex@).len() == 32 && ed_verify_ok(
            hex_dec(public_key_hex@),
            pae_spec(header_bytes(), b64_dec_spec(seg1(rem_of(token@))), Seq::empty()),
            b64_dec_spec(seg2(rem_of(token@))),
        ) ==> (r matches Ok(y) && y@ == b64_dec_spec(seg1(rem_of(token@)))),
        token_wf(token@) && b64_ok(seg1(rem_of(token@))) && sig_sized(seg2(rem_of(token@)))
            && hex_ok(public_key_hex@) && hex_dec(public_key_hex@).len() == 32 && !ed_verify_ok(
            hex_dec(public_key_hex@),
            pae_spec(header_bytes(), b64_dec_spec(seg1(rem_of(token@))), Seq::empty()),
            b64_dec_spec(seg2(rem_of(token@))),
        ) ==> r == Err::<Vec<u8>, AuthError>(AuthError::Crypto),
        forall|m: Seq<u8>, seed: Seq<u8>|
            #[trigger] genuine(token@, public_key_hex@, m, seed) ==> (r matches Ok(y) && y@ == m),
{
    let ghost t = token@;
    let ghost pk = public_key_hex@;
    let pair = match decode_token(token) {
        Ok(p) => p,
        Err(e) => {
            proof {
                assert forall|m: Seq<u8>, seed: Seq<u8>|
                    #[trigger] genuine(t, pk, m, seed) implies false by {
                    lemma_token_parse(m, ed_sign(seed, pae_spec(header_bytes(), m, Seq::empty())));
                }
            }
            return Err(e);
        },
    };
    let (m, sig) = pair;
    proof {
        lemma_b64_dec_spec(seg1(rem_of(t)), m@);
        lemma_b64_dec_spec(seg2(rem_of(t)), sig@);
        assert forall|mm: Seq<u8>, seed: Seq<u8>|
            #[trigger] genuine(t, pk, mm, seed) implies m@ == mm && sig@ == ed_sign(
            seed,
            pae_spec(header_bytes(), mm, Seq::empty()),
        ) by {
            let s = ed_sign(seed, pae_spec(header_bytes(), mm, Seq::empty()));
            lemma_token_parse(mm, s);
            lemma_b64_inj(m@, mm);
            lemma_b64_inj(sig@, s);
        }
    }
    let pk_bytes = match hex_decode(public_key_hex) {
        Some(v) => v,
        None => {
            return Err(AuthError::Encoding);
        },
    };
    if pk_bytes.len() != 32 {
        return Err(AuthError::Length);
    }
    let hdr = header_vec();
    let footer: Vec<u8> = Vec::new();
    proof {
        assert(footer@ =~= Seq::<u8>::empty());
    }
    let m2 = pae(hdr.as_slice(), m.as_slice(), footer.as_slice());
    let ok = ed25519_verify(pk_bytes.as_slice(), m2.as_slice(), sig.as_slice());
    if ok {
        Ok(m)
    } else {
        proof {
            assert forall|mm: Seq<u8>, seed: Seq<u8>|
                #[trigger] genuine(t, pk, mm, seed) implies false by {
                assert(pk_bytes@ == ed_pub(seed));
                assert(sig@ == ed_sign(seed, m2@));
            }
        }
        Err(AuthError::Crypto)
    }
}

/// Round trip: the token signed with the private half of a keypair is
/// accepted by the public half and identifies the original message. The
/// hypotheses on key and signature sizes hold of every key the generator
/// derives and every signature the signer produces.
pub proof fn lemma_token_round_trip(m: Seq<u8>, seed: Seq<u8>)
    requires
        m.len() > 0,
        seed.len() == 32,
        ed_pub(seed).len() == 32,
        ed_sign(seed, pae_spec(header_bytes(), m, Seq::empty())).len() == 64,
    ensures
        hex_ok(hex_enc(seed + ed_pub(seed))),
        hex_dec(hex_enc(seed + ed_pub(seed))).len() == 64,
        seed_of(hex_enc(seed + ed_pub(seed))) == seed,
        genuine(token_spec(m, seed), hex_enc(ed_pub(seed)), m, seed),
{
    lemma_hex_round_trip(seed + ed_pub(seed));
    lemma_hex_round_trip(ed_pub(seed));
    assert(seed_of(hex_enc(seed + ed_pub(seed))) =~= seed);
}

} // verus!
