use auth_core::auth::{generate_keypair, hash_password, verify_password};
use auth_core::encoding::{le64, pae};
use auth_core::errors::AuthError;
use auth_core::models::UserProfile;
use auth_core::token::{sign_paseto, verify_paseto};

fn le(n: u64) -> Vec<u8> {
    n.to_le_bytes().to_vec()
}

#[test]
fn le64_three() {
    assert_eq!(le64(3), vec![3u8, 0, 0, 0, 0, 0, 0, 0]);
    assert_eq!(le64(0x0102030405060708), le(0x0102030405060708));
}

#[test]
fn pae_concrete_vector() {
    // header "v4.public." (10 bytes), message "hello" (5), footer "" (0):
    // LE64(3) || LE64(10) || header || LE64(5) || "hello" || LE64(0)
    let out = pae(b"v4.public.", b"hello", b"");
    let mut expected = Vec::new();
    expected.extend_from_slice(&le(3));
    expected.extend_from_slice(&le(10));
    expected.extend_from_slice(b"v4.public.");
    expected.extend_from_slice(&le(5));
    expected.extend_from_slice(b"hello");
    expected.extend_from_slice(&le(0));
    assert_eq!(out.len(), 32 + 10 + 5 + 0);
    assert_eq!(out, expected);
}

#[test]
fn pae_deterministic_and_sized() {
    let a = pae(b"head", b"body", b"foot");
    let b = pae(b"head", b"body", b"foot");
    assert_eq!(a, b);
    assert_eq!(a.len(), 32 + 4 + 4 + 4);
    // an empty footer is still a length-0 piece, not omitted
    let c = pae(b"head", b"body", b"");
    assert_eq!(c.len(), 32 + 4 + 4);
    assert_eq!(&c[c.len() - 8..], &le(0)[..]);
}

#[test]
fn keypair_shapes() {
    let (pk, sk) = generate_keypair();
    assert_eq!(pk.len(), 64);
    assert_eq!(sk.len(), 128);
    assert!(pk.chars().all(|c| c.is_ascii_hexdigit()));
    assert!(sk.chars().all(|c| c.is_ascii_hexdigit()));
    // the private key embeds the public key behind the 32-byte seed
    assert_eq!(&sk[64..], pk.as_str());
}

#[test]
fn token_round_trip() {
    let (pk, sk) = generate_keypair();
    let claims = b"{\"sub\":\"alice\",\"exp\":123}";
    let token = sign_paseto(claims, &sk).unwrap();
    assert!(token.starts_with("v4.public."));
    let back = verify_paseto(&token, &pk).unwrap();
    assert_eq!(back, claims.to_vec());
}

#[test]
fn token_payload_segment_is_base64url_of_message() {
    let (_pk, sk) = generate_keypair();
    let token = sign_paseto(b"hello", &sk).unwrap();
    // "hello" in unpadded url-safe base64
    assert!(token.starts_with("v4.public.aGVsbG8."));
}

#[test]
fn signing_is_deterministic() {
    let (_pk, sk) = generate_keypair();
    let t1 = sign_paseto(b"same message", &sk).unwrap();
    let t2 = sign_paseto(b"same message", &sk).unwrap();
    assert_eq!(t1, t2);
}

#[test]
fn tamper_any_single_bit_fails() {
    let (pk, sk) = generate_keypair();
    let token = sign_paseto(b"tamper check", &sk).unwrap();
    assert!(verify_paseto(&token, &pk).is_ok());
    let chars: Vec<char> = token.chars().collect();
    for i in 10..chars.len() {
        if chars[i] == '.' {
            continue;
        }
        for bit in 0..8 {
            let flipped = (chars[i] as u32) ^ (1u32 << bit);
            let Some(c) = char::from_u32(flipped) else {
                continue;
            };
            let mut mutated: String = chars[..i].iter().collect();
            mutated.push(c);
            mutated.extend(&chars[i + 1..]);
            assert!(
                verify_paseto(&mutated, &pk).is_err(),
                "bit {} of char {} survived",
                bit,
                i
            );
        }
    }
}

#[test]
fn cross_key_rejected() {
    let (_pk_a, sk_a) = generate_keypair();
    let (pk_b, _sk_b) = generate_keypair();
    let token = sign_paseto(b"for a only", &sk_a).unwrap();
    assert_eq!(verify_paseto(&token, &pk_b), Err(AuthError::Crypto));
}

#[test]
fn header_enforced() {
    let (pk, sk) = generate_keypair();
    let token = sign_paseto(b"payload", &sk).unwrap();
    let rest = &token["v4.public.".len()..];
    for bad in [
        String::new(),
        "garbage".to_string(),
        "v4.local.".to_string() + rest,
        "v4.Public.".to_string() + rest,
        "v3.public.".to_string() + rest,
        token[1..].to_string(),
    ] {
        assert_eq!(verify_paseto(&bad, &pk), Err(AuthError::Structure));
    }
}

#[test]
fn structure_errors() {
    let (pk, _sk) = generate_keypair();
    // no dot, empty segments, three segments
    assert_eq!(
        verify_paseto("v4.public.abcd", &pk),
        Err(AuthError::Structure)
    );
    assert_eq!(
        verify_paseto("v4.public..abcd", &pk),
        Err(AuthError::Structure)
    );
    assert_eq!(
        verify_paseto("v4.public.abcd.", &pk),
        Err(AuthError::Structure)
    );
    assert_eq!(
        verify_paseto("v4.public.ab.cd.ef", &pk),
        Err(AuthError::Structure)
    );
}

#[test]
fn segment_decoding_errors() {
    let (pk, sk) = generate_keypair();
    let token = sign_paseto(b"x", &sk).unwrap();
    let sig_segment = token.rsplit('.').next().unwrap().to_string();
    // '!' is outside the alphabet; '=' padding is rejected too
    assert_eq!(
        verify_paseto(&format!("v4.public.!!.{}", sig_segment), &pk),
        Err(AuthError::Encoding)
    );
    assert_eq!(
        verify_paseto(&format!("v4.public.aGVsbG8=.{}", sig_segment), &pk),
        Err(AuthError::Encoding)
    );
    assert_eq!(
        verify_paseto("v4.public.aGVsbG8.AAAA", &pk),
        Err(AuthError::Length)
    );
}

#[test]
fn public_key_errors() {
    let (_pk, sk) = generate_keypair();
    let token = sign_paseto(b"x", &sk).unwrap();
    assert_eq!(verify_paseto(&token, "zz"), Err(AuthError::Encoding));
    assert_eq!(verify_paseto(&token, "abc"), Err(AuthError::Encoding));
    assert_eq!(verify_paseto(&token, "abcd"), Err(AuthError::Length));
    assert_eq!(
        verify_paseto(&token, &"ab".repeat(33)),
        Err(AuthError::Length)
    );
}

#[test]
fn private_key_errors() {
    assert_eq!(
        sign_paseto(b"m", "not hex at all"),
        Err(AuthError::Encoding)
    );
    assert_eq!(sign_paseto(b"m", "abc"), Err(AuthError::Encoding));
    assert_eq!(sign_paseto(b"m", "abcd"), Err(AuthError::Length));
}

#[test]
fn short_seed_key_is_accepted_at_32_bytes() {
    // a 32-byte private key (bare seed, no embedded public key) signs too
    let (_pk, sk) = generate_keypair();
    let seed_only = &sk[..64];
    let t1 = sign_paseto(b"m", seed_only).unwrap();
    let t2 = sign_paseto(b"m", &sk).unwrap();
    assert_eq!(t1, t2);
}

#[test]
fn password_round_trip() {
    let hash = hash_password("correct horse battery staple").unwrap();
    assert_eq!(
        verify_password(&hash, "correct horse battery staple"),
        Ok(true)
    );
    assert_eq!(verify_password(&hash, "wrong password"), Ok(false));
    assert_eq!(verify_password(&hash, ""), Ok(false));
}

#[test]
fn password_hash_is_self_describing() {
    let hash = hash_password("pw").unwrap();
    // algorithm, version and the high-security preset travel with the hash
    assert!(hash.starts_with("$argon2id$v=19$m=65536,t=3,p=4$"));
}

#[test]
fn password_preset_is_configurable() {
    let hash = auth_core::auth::hash_password_with("pw", 8192, 1, 1).unwrap();
    assert!(hash.starts_with("$argon2id$v=19$m=8192,t=1,p=1$"));
    assert_eq!(verify_password(&hash, "pw"), Ok(true));
    assert_eq!(verify_password(&hash, "pw2"), Ok(false));
    // impossible parameters are a configuration error, not a panic
    assert_eq!(
        auth_core::auth::hash_password_with("pw", 1, 0, 0),
        Err(AuthError::Config)
    );
}

#[test]
fn password_parameter_bounds_are_errors_not_panics() {
    // lane counts beyond argon2's maximum, including the region where its
    // own validation arithmetic would overflow, are configuration errors
    assert_eq!(
        auth_core::auth::hash_password_with("pw", 65536, 3, u32::MAX),
        Err(AuthError::Config)
    );
    assert_eq!(
        auth_core::auth::hash_password_with("pw", 65536, 3, 0x2000_0000),
        Err(AuthError::Config)
    );
    assert_eq!(
        auth_core::auth::hash_password_with("pw", 65536, 3, 0x1000000),
        Err(AuthError::Config)
    );
    // memory below eight blocks per lane
    assert_eq!(
        auth_core::auth::hash_password_with("pw", 8, 1, 2),
        Err(AuthError::Config)
    );
}

#[test]
fn password_salts_differ() {
    let h1 = hash_password("same password").unwrap();
    let h2 = hash_password("same password").unwrap();
    assert_ne!(h1, h2);
    // both still verify
    assert_eq!(verify_password(&h1, "same password"), Ok(true));
    assert_eq!(verify_password(&h2, "same password"), Ok(true));
}

#[test]
fn stored_hash_with_oversized_lane_count_is_a_config_error() {
    // parseable PHC strings whose lane count exceeds argon2's maximum —
    // including the region where its validation arithmetic would overflow —
    // must come back as configuration errors, never abort
    let salt_and_hash = "$AAAAAAAAAAAAAAAAAAAAAA$AAAAAAAAAAAAAAAAAAAAAA";
    for p in ["536870912", "4294967295", "16777216"] {
        let stored = format!("$argon2id$v=19$m=8,t=1,p={}{}", p, salt_and_hash);
        assert_eq!(verify_password(&stored, "pw"), Err(AuthError::Config));
    }
}

#[test]
fn verification_is_deterministic() {
    let (pk, sk) = generate_keypair();
    let token = sign_paseto(b"twice", &sk).unwrap();
    assert_eq!(verify_paseto(&token, &pk), verify_paseto(&token, &pk));
    let mut forged = token.clone();
    forged.pop();
    assert_eq!(verify_paseto(&forged, &pk), verify_paseto(&forged, &pk));
}

#[test]
fn malformed_stored_hash_is_a_config_error() {
    assert_eq!(
        verify_password("not a phc string", "pw"),
        Err(AuthError::Config)
    );
    assert_eq!(verify_password("", "pw"), Err(AuthError::Config));
    assert_eq!(
        verify_password("$unknownalg$v=19$m=16,t=1,p=1$c2FsdA$aGFzaA", "pw"),
        Err(AuthError::Config)
    );
}

#[test]
fn user_profile_holds_fields() {
    let p = UserProfile {
        id: "u-1".to_string(),
        username: "alice".to_string(),
        display_name: "Alice".to_string(),
    };
    let q = p.clone();
    assert_eq!(p, q);
    assert_eq!(q.username, "alice");
}
