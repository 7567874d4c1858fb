use artifact_trust::verification_key::{curve_algorithm, SignatureAlgorithm, VerificationKey};
use aws_lc_rs::signature::{Ed25519KeyPair, KeyPair};
use base64::Engine;

/// A DER SubjectPublicKeyInfo with the given algorithm identifier body and a
/// short key.
fn spki(algorithm: &[u8], key: &[u8]) -> Vec<u8> {
    let mut inner = vec![0x30, algorithm.len() as u8];
    inner.extend_from_slice(algorithm);
    inner.push(0x03);
    inner.push(key.len() as u8 + 1);
    inner.push(0x00);
    inner.extend_from_slice(key);
    let mut der = vec![0x30, inner.len() as u8];
    der.extend_from_slice(&inner);
    der
}

const ID_EC_PUBLIC_KEY: [u8; 9] = [0x06, 0x07, 0x2A, 0x86, 0x48, 0xCE, 0x3D, 0x02, 0x01];

fn ed25519_key() -> (Ed25519KeyPair, Vec<u8>) {
    let pair = Ed25519KeyPair::from_seed_unchecked(&[7u8; 32]).expect("seed");
    let der = spki(&[0x06, 0x03, 0x2B, 0x65, 0x70], pair.public_key().as_ref());
    (pair, der)
}

#[test]
fn ed25519_key_verifies_its_own_signature_only() {
    let (pair, der) = ed25519_key();
    let key = VerificationKey::try_from_spki_der(&der).expect("ed25519 key");
    assert_eq!(key.signature_algorithm(), SignatureAlgorithm::Ed25519);
    let signature = pair.sign(b"artifact bytes");
    assert_eq!(key.verify(b"artifact bytes", signature.as_ref()), Ok(()));
    assert_eq!(
        key.verify(b"other bytes", signature.as_ref()),
        Err("signature does not match the public key".to_string())
    );
}

#[test]
fn base64_signatures_are_decoded_first() {
    let (pair, der) = ed25519_key();
    let key = VerificationKey::try_from_spki_der(&der).expect("ed25519 key");
    let signature = base64::engine::general_purpose::STANDARD.encode(pair.sign(b"m").as_ref());
    assert_eq!(key.verify_base64(b"m", &signature), Ok(()));
    let error = key.verify_base64(b"m", "not base64!").expect_err("bad base64");
    assert_eq!(error, "invalid base64 signature: Invalid symbol 32, offset 3.");
    let unpadded = signature.trim_end_matches('=');
    assert!(key.verify_base64(b"m", unpadded).is_err());
}

#[test]
fn the_algorithm_comes_from_the_key() {
    let p256 = [0x06, 0x08, 0x2A, 0x86, 0x48, 0xCE, 0x3D, 0x03, 0x01, 0x07];
    let p384 = [0x06, 0x05, 0x2B, 0x81, 0x04, 0x00, 0x22];
    let p521 = [0x06, 0x05, 0x2B, 0x81, 0x04, 0x00, 0x23];
    for (curve, expected) in [
        (&p256[..], SignatureAlgorithm::EcdsaP256Sha256),
        (&p384[..], SignatureAlgorithm::EcdsaP384Sha384),
        (&p521[..], SignatureAlgorithm::EcdsaP521Sha512),
    ] {
        let algorithm = [&ID_EC_PUBLIC_KEY[..], curve].concat();
        let key = VerificationKey::try_from_spki_der(&spki(&algorithm, &[4, 1, 2])).expect("ec key");
        assert_eq!(key.signature_algorithm(), expected);
    }
    let rsa = [0x06, 0x09, 0x2A, 0x86, 0x48, 0x86, 0xF7, 0x0D, 0x01, 0x01, 0x01, 0x05, 0x00];
    let key = VerificationKey::try_from_spki_der(&spki(&rsa, &[0x30, 0x00])).expect("rsa key");
    assert_eq!(key.signature_algorithm(), SignatureAlgorithm::RsaPkcs1Sha256);
}

#[test]
fn unsupported_keys_are_refused_with_their_reason() {
    let dsa = [0x06, 0x07, 0x2A, 0x86, 0x48, 0xCE, 0x38, 0x04, 0x01];
    assert_eq!(
        VerificationKey::try_from_spki_der(&spki(&dsa, &[1])).err(),
        Some("unsupported public key algorithm 1.2.840.10040.4.1".to_string())
    );
    assert_eq!(
        VerificationKey::try_from_spki_der(&spki(&ID_EC_PUBLIC_KEY, &[4])).err(),
        Some("EC key is missing its curve identifier".to_string())
    );
    let k1 = [&ID_EC_PUBLIC_KEY[..], &[0x06, 0x05, 0x2B, 0x81, 0x04, 0x00, 0x0A]].concat();
    assert_eq!(
        VerificationKey::try_from_spki_der(&spki(&k1, &[4])).err(),
        Some("unsupported EC curve 1.3.132.0.10".to_string())
    );
    let not_an_oid = [&ID_EC_PUBLIC_KEY[..], &[0x05, 0x00]].concat();
    let error = VerificationKey::try_from_spki_der(&spki(&not_an_oid, &[4])).expect_err("null curve");
    assert!(error.starts_with("cannot parse EC curve identifier: "), "{error}");
    let error = VerificationKey::try_from_spki_der(b"not DER").expect_err("garbage");
    assert!(error.starts_with("cannot parse SubjectPublicKeyInfo: "), "{error}");
}

#[test]
fn a_p256_point_key_fixes_ecdsa_p256() {
    let key = VerificationKey::ecdsa_p256_from_uncompressed_point(&[4u8; 65]);
    assert_eq!(key.signature_algorithm(), SignatureAlgorithm::EcdsaP256Sha256);
    assert!(key.verify(b"m", &[0u8; 8]).is_err());
}

#[test]
fn curve_parameters_fix_the_ecdsa_variant() {
    let p384 = Ok((vec![0x2B, 0x81, 0x04, 0x00, 0x22], "1.3.132.0.34".to_string()));
    assert_eq!(curve_algorithm(&p384), Ok(SignatureAlgorithm::EcdsaP384Sha384));
    let k1 = Ok((vec![0x2B, 0x81, 0x04, 0x00, 0x0A], "1.3.132.0.10".to_string()));
    assert_eq!(curve_algorithm(&k1), Err("unsupported EC curve 1.3.132.0.10".to_string()));
    let broken = Err("bad".to_string());
    assert_eq!(curve_algorithm(&broken), Err("cannot parse EC curve identifier: bad".to_string()));
}
