use base64::Engine;
use ed25519_dalek::{Signature, Verifier, VerifyingKey};
use plex_client::client::crypto::{DeviceKeypair, JwtClaims};

fn b64(s: &str) -> Vec<u8> {
    base64::engine::general_purpose::URL_SAFE_NO_PAD.decode(s).unwrap()
}

fn claims(nonce: Option<&str>, scope: Option<&str>) -> JwtClaims {
    JwtClaims {
        aud: "plex.tv".to_string(),
        iss: "client-1".to_string(),
        iat: 1700000000,
        exp: 1700003600,
        nonce: nonce.map(|s| s.to_string()),
        scope: scope.map(|s| s.to_string()),
    }
}

#[test]
fn from_bytes_round_trips() {
    let bytes = [7u8; 32];
    let k = DeviceKeypair::from_bytes(&bytes, "kid-1");
    assert_eq!(k.private_key_bytes(), bytes);
    assert_eq!(k.kid(), "kid-1");
    let again = DeviceKeypair::from_bytes(&k.private_key_bytes(), k.kid());
    let c = claims(None, None);
    assert_eq!(again.sign_jwt(&c), k.sign_jwt(&c));
}

#[test]
fn generate_gives_uuid_v4_kid() {
    let k = DeviceKeypair::generate();
    let kid = k.kid();
    assert_eq!(kid.len(), 36);
    for (i, ch) in kid.chars().enumerate() {
        if i == 8 || i == 13 || i == 18 || i == 23 {
            assert_eq!(ch, '-');
        } else {
            assert!(ch.is_ascii_digit() || ('a'..='f').contains(&ch));
        }
    }
    assert_eq!(kid.as_bytes()[14], b'4');
    assert!(b"89ab".contains(&kid.as_bytes()[19]));
    let other = DeviceKeypair::generate();
    assert_ne!(k.private_key_bytes(), other.private_key_bytes());
}

#[test]
fn public_key_is_the_ed25519_public_key() {
    let bytes = [42u8; 32];
    let k = DeviceKeypair::from_bytes(&bytes, "k");
    let expected = ed25519_dalek::SigningKey::from_bytes(&bytes).verifying_key().to_bytes();
    assert_eq!(b64(&k.public_key_b64()), expected.to_vec());
    assert!(!k.public_key_b64().contains('='));
    assert_eq!(k.public_key_b64().len(), 43);
    assert!(k
        .public_key_b64()
        .chars()
        .all(|c| c.is_ascii_alphanumeric() || c == '-' || c == '_'));
    assert_eq!(k.to_jwk().x.len(), 43);
}

#[test]
fn sign_jwt_header_claims_and_signature() {
    let bytes = [1u8; 32];
    let k = DeviceKeypair::from_bytes(&bytes, "my\"kid");
    let token = k.sign_jwt(&claims(None, None));
    let parts: Vec<&str> = token.split('.').collect();
    assert_eq!(parts.len(), 3);
    assert_eq!(
        String::from_utf8(b64(parts[0])).unwrap(),
        "{\"alg\":\"EdDSA\",\"kid\":\"my\\\"kid\",\"typ\":\"JWT\"}"
    );
    assert_eq!(
        String::from_utf8(b64(parts[1])).unwrap(),
        "{\"aud\":\"plex.tv\",\"iss\":\"client-1\",\"iat\":1700000000,\"exp\":1700003600}"
    );
    let vk = VerifyingKey::from_bytes(
        &ed25519_dalek::SigningKey::from_bytes(&bytes).verifying_key().to_bytes(),
    )
    .unwrap();
    let sig_bytes: [u8; 64] = b64(parts[2]).try_into().unwrap();
    let signing_input = format!("{}.{}", parts[0], parts[1]);
    assert!(vk.verify(signing_input.as_bytes(), &Signature::from_bytes(&sig_bytes)).is_ok());
}

#[test]
fn sign_jwt_optional_claims_and_escapes() {
    let k = DeviceKeypair::from_bytes(&[3u8; 32], "k");
    let mut c = claims(Some("n\u{1}ce"), Some("username,email"));
    c.iat = -5;
    c.exp = i64::MIN;
    let token = k.sign_jwt(&c);
    let parts: Vec<&str> = token.split('.').collect();
    assert_eq!(
        String::from_utf8(b64(parts[1])).unwrap(),
        "{\"aud\":\"plex.tv\",\"iss\":\"client-1\",\"iat\":-5,\"exp\":-9223372036854775808,\"nonce\":\"n\\u0001ce\",\"scope\":\"username,email\"}"
    );
    let only_scope = k.sign_jwt(&claims(None, Some("a\\b\n")));
    let p: Vec<&str> = only_scope.split('.').collect();
    assert_eq!(
        String::from_utf8(b64(p[1])).unwrap(),
        "{\"aud\":\"plex.tv\",\"iss\":\"client-1\",\"iat\":1700000000,\"exp\":1700003600,\"scope\":\"a\\\\b\\n\"}"
    );
}
