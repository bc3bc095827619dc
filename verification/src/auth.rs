//! Password credentials and signing identities.
//!
//! Password hashing is memory-hard (Argon2id) with a fresh random salt per
//! call; the produced string is self-describing, so the parameters and salt
//! travel with each hash and old hashes stay verifiable when presets change.
//! Keypair generation draws a 32-byte seed from the operating system's secure
//! random source and derives the matching Ed25519 public key.

use vstd::prelude::*;
use vstd::string::StringSliceAdditionalSpecFns;
use crate::errors::AuthError;
use crate::hexcode::{hex_enc, hex_encode};
use crate::token::{ed_pub, ed25519_public};

verus! {

/// The memory cost (KiB of working memory) of the high-security preset:
/// 64 MiB.
pub const HIGH_SECURITY_M_COST: u32 = 65536;

/// The iteration count of the high-security preset.
pub const HIGH_SECURITY_T_COST: u32 = 3;

/// The parallelism degree (lane count) of the high-security preset.
pub const HIGH_SECURITY_P_COST: u32 = 4;

/// The outcome that recomputing an Argon2 hash string against a password
/// reaches: `Some(true)` when the password matches the embedded hash,
/// `Some(false)` when it does not, `None` when the stored string is
/// malformed or names unsupported parameters. The string embeds algorithm,
/// version, parameters and salt, so the outcome is a function of the two
/// strings alone.
pub uninterp spec fn argon2_outcome(hash: Seq<char>, password: Seq<char>) -> Option<bool>;

/// The parameter triples Argon2 supports, as `argon2::Params::new` checks
/// them: at least 8 KiB-blocks of memory and at least 8 per lane, at least
/// one iteration, and between 1 and 2^24 - 1 lanes.
pub open spec fn argon2_params_ok(m_cost: u32, t_cost: u32, p_cost: u32) -> bool {
    &&& m_cost >= 8
    &&& m_cost >= 8 * p_cost
    &&& t_cost >= 1
    &&& 1 <= p_cost <= 0xFFFFFF
}

/// The decimal digits of `n`, most significant first, no leading zeros.
pub open spec fn dec_of(n: nat) -> Seq<char>
    decreases n,
{
    if n < 10 {
        seq![((48 + n) as u8) as char]
    } else {
        dec_of(n / 10) + seq![((48 + n % 10) as u8) as char]
    }
}

/// The prefix every Argon2id version-0x13 PHC string with the given cost
/// parameters begins with: `$argon2id$v=19$m=<m>,t=<t>,p=<p>$`. What
/// follows it is the fresh salt and the derived hash.
pub open spec fn phc_prefix(m_cost: u32, t_cost: u32, p_cost: u32) -> Seq<char> {
    seq!['$', 'a', 'r', 'g', 'o', 'n', '2', 'i', 'd', '$', 'v', '=', '1', '9', '$', 'm', '=']
        + dec_of(m_cost as nat) + seq![',', 't', '='] + dec_of(t_cost as nat) + seq![',', 'p', '=']
        + dec_of(p_cost as nat) + seq!['$']
}

/// The string begins with the PHC prefix for the given parameters.
pub open spec fn has_phc_prefix(h: Seq<char>, m_cost: u32, t_cost: u32, p_cost: u32) -> bool {
    h.len() > phc_prefix(m_cost, t_cost, p_cost).len() && h.subrange(
        0,
        phc_prefix(m_cost, t_cost, p_cost).len() as int,
    ) == phc_prefix(m_cost, t_cost, p_cost)
}

/// The outcome `verify_password` owes for a stored hash and a password:
/// the outcome when the stored string parses, a configuration error when it
/// does not.
pub open spec fn verify_password_spec(hash: Seq<char>, password: Seq<char>) -> Result<
    bool,
    AuthError,
> {
    match argon2_outcome(hash, password) {
        Some(b) => Ok(b),
        None => Err(AuthError::Config),
    }
}

/// Relies on `argon2::Argon2::new(Argon2id, V0x13, params)` and
/// `PasswordHasher::hash_password` with a fresh `SaltString` from `OsRng`:
/// on success the returned PHC string begins with the algorithm, version
/// and parameter prefix, carries the salt and hash behind it, and
/// re-verifying it against the same password reaches `Some(true)`; the call
/// fails only on a parameter triple `Params::new` rejects or a password
/// over 2^32 - 1 bytes. Behind the prefix stand the unpadded B64 of the
/// fresh 16-byte salt (22 characters), a `$`, and the unpadded B64 of the
/// 32-byte derived hash (43 characters) — 66 characters in all. The salt
/// is random, so nothing more is assumed of the string. `Params::new`
/// multiplies the lane count by 8 in `u32`, so lane counts beyond its own
/// maximum are kept out.
#[verifier::external_body]
fn argon2_hash(password: &str, m_cost: u32, t_cost: u32, p_cost: u32) -> (r: Option<String>)
    requires
        p_cost <= 0xFFFFFF,
    ensures
        r matches Some(h) ==> argon2_outcome(h@, password@) == Some(true) && has_phc_prefix(
            h@,
            m_cost,
            t_cost,
            p_cost,
        ) && h@.len() == phc_prefix(m_cost, t_cost, p_cost).len() + 66,
        r matches None ==> !(argon2_params_ok(m_cost, t_cost, p_cost) && password.spec_bytes().len()
            <= 0xFFFFFFFF),
{
    let salt = argon2::password_hash::SaltString::generate(
        &mut argon2::password_hash::rand_core::OsRng,
    );
    let params = match argon2::Params::new(m_cost, t_cost, p_cost, None) {
        Ok(p) => p,
        Err(_) => return None,
    };
    let ctx = argon2::Argon2::new(argon2::Algorithm::Argon2id, argon2::Version::V0x13, params);
    match argon2::password_hash::PasswordHasher::hash_password(&ctx, password.as_bytes(), &salt) {
        Ok(h) => Some(h.to_string()),
        Err(_) => None,
    }
}

/// Relies on `argon2::password_hash::PasswordHash::new` and
/// `PasswordVerifier::verify_password` on `Argon2::default()`: the hash
/// string is parsed, the derivation is recomputed with the embedded
/// parameters and salt, and the comparison is made in constant time. The
/// result is exactly the deterministic outcome: a match, a mismatch
/// (`password_hash::Error::Password`), or a malformed/unsupported string.
/// A stored lane count beyond argon2's own maximum is unsupported and
/// answered `None` before the string is handed on: `Params::new` would
/// reject it, but its `p_cost * 8` validation arithmetic overflows first
/// for 2^29 lanes and up, and this call must return, never abort, on every
/// stored string.
#[verifier::external_body]
fn argon2_check(hash: &str, password: &str) -> (r: Option<bool>)
    ensures
        r == argon2_outcome(hash@, password@),
{
    let parsed = argon2::password_hash::PasswordHash::new(hash).ok()?;
    if let Some(p) = parsed.params.get_decimal("p") {
        if p > argon2::Params::MAX_P_COST {
            return None;
        }
    }
    let ctx = argon2::Argon2::default();
    match argon2::password_hash::PasswordVerifier::verify_password(&ctx, password.as_bytes(), &parsed) {
        Ok(()) => Some(true),
        Err(argon2::password_hash::Error::Password) => Some(false),
        Err(_) => None,
    }
}

/// Relies on `rand::rngs::OsRng` (`RngCore::fill_bytes`): 32 bytes from the
/// operating system's cryptographically secure random source. Nothing is
/// assumed of the values drawn.
#[verifier::external_body]
fn random_seed() -> (r: Vec<u8>)
    ensures
        r@.len() == 32,
{
    let mut buf = [0u8; 32];
    rand::RngCore::fill_bytes(&mut rand::rngs::OsRng, &mut buf);
    buf.to_vec()
}

/// Derives a self-describing Argon2id hash of `password` under the given
/// cost parameters (memory in KiB, iteration count, lane count), with a
/// fresh random 16-byte salt. The parameters travel inside the returned string —
/// it begins with their PHC prefix — so the hash stays verifiable after
/// presets change. An unsupported parameter triple is a configuration
/// error; for supported parameters and a password within Argon2's 2^32 - 1
/// byte bound the hash is owed. A returned hash always re-verifies as a
/// match for this password.
pub fn hash_password_with(password: &str, m_cost: u32, t_cost: u32, p_cost: u32) -> (r: Result<
    String,
    AuthError,
>)
    ensures
        r matches Ok(h) ==> argon2_outcome(h@, password@) == Some(true) && has_phc_prefix(
            h@,
            m_cost,
            t_cost,
            p_cost,
        ) && h@.len() == phc_prefix(m_cost, t_cost, p_cost).len() + 66,
        r matches Err(e) ==> e == AuthError::Config,
        !argon2_params_ok(m_cost, t_cost, p_cost) ==> r == Err::<String, AuthError>(
            AuthError::Config,
        ),
        argon2_params_ok(m_cost, t_cost, p_cost) && password.spec_bytes().len() <= 0xFFFFFFFF
            ==> r matches Ok(_),
{
    if !(m_cost >= 8 && t_cost >= 1 && p_cost >= 1 && p_cost <= 0xFFFFFF && m_cost >= 8 * p_cost) {
        return Err(AuthError::Config);
    }
    match argon2_hash(password, m_cost, t_cost, p_cost) {
        Some(h) => Ok(h),
        None => Err(AuthError::Config),
    }
}

/// Derives a self-describing Argon2id hash of `password` under the
/// high-security preset (64 MiB memory, 3 iterations, 4 lanes), with a
/// fresh random 16-byte salt. The hash is owed for every password within Argon2's
/// 2^32 - 1 byte bound, and a returned hash always re-verifies as a match
/// for this password.
pub fn hash_password(password: &str) -> (r: Result<String, AuthError>)
    ensures
        r matches Ok(h) ==> argon2_outcome(h@, password@) == Some(true) && has_phc_prefix(
            h@,
            HIGH_SECURITY_M_COST,
            HIGH_SECURITY_T_COST,
            HIGH_SECURITY_P_COST,
        ) && h@.len() == phc_prefix(
            HIGH_SECURITY_M_COST,
            HIGH_SECURITY_T_COST,
            HIGH_SECURITY_P_COST,
        ).len() + 66,
        r matches Err(e) ==> e == AuthError::Config,
        password.spec_bytes().len() <= 0xFFFFFFFF ==> r matches Ok(_),
{
    proof {
        assert(argon2_params_ok(
            HIGH_SECURITY_M_COST,
            HIGH_SECURITY_T_COST,
            HIGH_SECURITY_P_COST,
        ));
    }
    hash_password_with(password, HIGH_SECURITY_M_COST, HIGH_SECURITY_T_COST, HIGH_SECURITY_P_COST)
}

/// Recomputes the stored hash against `password` and compares in constant
/// time. `Ok(false)` means the password does not match; an error is
/// reserved for a stored string that is malformed or unsupported, so a
/// caller can tell a wrong password from a corrupt record.
pub fn verify_password(hash: &str, password: &str) -> (r: Result<bool, AuthError>)
    ensures
        r == verify_password_spec(hash@, password@),
{
    match argon2_check(hash, password) {
        Some(b) => Ok(b),
        None => Err(AuthError::Config),
    }
}

/// A hash freshly derived from a password verifies as a match for that
/// password: the password round trip at the level of the outcomes the two
/// operations are specified by.
pub proof fn lemma_password_round_trip(hash: Seq<char>, password: Seq<char>)
    requires
        argon2_outcome(hash, password) == Some(true),
    ensures
        verify_password_spec(hash, password) == Ok::<bool, AuthError>(true),
{
}

/// Generates an Ed25519 keypair for tokens and returns
/// `(public_key_hex, private_key_hex)`: the public key as 32 bytes of hex,
/// the private key as 64 bytes of hex — the seed with the derived public
/// key appended, so a signer need not re-derive it. Only the first 32
/// private-key bytes are cryptographically load-bearing.
pub fn generate_keypair() -> (r: (String, String))
    ensures
        exists|seed: Seq<u8>|
            {
                &&& seed.len() == 32
                &&& ed_pub(seed).len() == 32
                &&& r.0@ == hex_enc(ed_pub(seed))
                &&& r.1@ == hex_enc(seed + ed_pub(seed))
            },
{
    let seed = random_seed();
    let pk = ed25519_public(seed.as_slice());
    let mut full: Vec<u8> = Vec::new();
    full.extend_from_slice(seed.as_slice());
    full.extend_from_slice(pk.as_slice());
    let public_key_hex = hex_encode(pk.as_slice());
    let private_key_hex = hex_encode(full.as_slice());
    proof {
        assert(full@ =~= seed@ + ed_pub(seed@));
    }
    (public_key_hex, private_key_hex)
}

} // verus!
