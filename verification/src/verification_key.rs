//! Public-key signature verification over AWS-LC.
//!
//! The algorithm is chosen from the key's own SubjectPublicKeyInfo, never from
//! the signature or any caller-supplied hint.
use crate::base64_codec::{base64_decode, base64_decoded, Base64Alphabet, Base64Padding};
use aws_lc_rs::signature::{
    UnparsedPublicKey, VerificationAlgorithm, ECDSA_P256_SHA256_ASN1, ECDSA_P384_SHA384_ASN1,
    ECDSA_P521_SHA512_ASN1, ED25519, RSA_PKCS1_2048_8192_SHA256,
};
use vstd::prelude::*;
use x509_cert::der::asn1::{Any, ObjectIdentifier};
use x509_cert::der::{Decode, Encode};
use x509_cert::spki::SubjectPublicKeyInfoOwned;

verus! {

broadcast use vstd::string::group_string_axioms;

/// The signature algorithms a key may fix.
#[derive(Clone, Copy, Debug, PartialEq, Eq, Structural)]
pub enum SignatureAlgorithm {
    /// ECDSA over P-256 with SHA-256, ASN.1 signatures.
    EcdsaP256Sha256,
    /// ECDSA over P-384 with SHA-384, ASN.1 signatures.
    EcdsaP384Sha384,
    /// ECDSA over P-521 with SHA-512, ASN.1 signatures.
    EcdsaP521Sha512,
    /// RSA PKCS #1 v1.5 with SHA-256, 2048 to 8192 bit moduli.
    RsaPkcs1Sha256,
    /// Ed25519.
    Ed25519,
}

/// The content octets of `id-ecPublicKey`, 1.2.840.10045.2.1.
pub open spec fn id_ec_public_key() -> Seq<u8> {
    seq![0x2Au8, 0x86u8, 0x48u8, 0xCEu8, 0x3Du8, 0x02u8, 0x01u8]
}

/// The content octets of `secp256r1`, 1.2.840.10045.3.1.7.
pub open spec fn secp256r1() -> Seq<u8> {
    seq![0x2Au8, 0x86u8, 0x48u8, 0xCEu8, 0x3Du8, 0x03u8, 0x01u8, 0x07u8]
}

/// The content octets of `secp384r1`, 1.3.132.0.34.
pub open spec fn secp384r1() -> Seq<u8> {
    seq![0x2Bu8, 0x81u8, 0x04u8, 0x00u8, 0x22u8]
}

/// The content octets of `secp521r1`, 1.3.132.0.35.
pub open spec fn secp521r1() -> Seq<u8> {
    seq![0x2Bu8, 0x81u8, 0x04u8, 0x00u8, 0x23u8]
}

/// The content octets of `rsaEncryption`, 1.2.840.113549.1.1.1.
pub open spec fn rsa_encryption() -> Seq<u8> {
    seq![0x2Au8, 0x86u8, 0x48u8, 0x86u8, 0xF7u8, 0x0Du8, 0x01u8, 0x01u8, 0x01u8]
}

/// The content octets of `id-Ed25519`, 1.3.101.112.
pub open spec fn id_ed25519() -> Seq<u8> {
    seq![0x2Bu8, 0x65u8, 0x70u8]
}

/// The algorithm identifier of a SubjectPublicKeyInfo, as plain values: the
/// content octets of its OID, the OID in dotted decimal, and the DER encoding
/// of its parameters, if it has any.
pub struct SpkiAlgorithm {
    pub oid: Vec<u8>,
    pub oid_text: String,
    pub parameters: Option<Vec<u8>>,
}

/// The parameters of an algorithm identifier, by their view.
pub open spec fn parameters_view(parameters: Option<Vec<u8>>) -> Option<Seq<u8>> {
    match parameters {
        Some(bytes) => Some(bytes@),
        None => None,
    }
}

/// What `x509_cert` reads from a DER SubjectPublicKeyInfo: its algorithm
/// identifier as (OID content octets, dotted OID, DER of the parameters), or
/// the text of the error it refuses the input with.
pub uninterp spec fn spki_algorithm_of(der: Seq<u8>) -> Result<
    (Seq<u8>, Seq<char>, Option<Seq<u8>>),
    Seq<char>,
>;

/// Calls `SubjectPublicKeyInfoOwned::from_der` and hands back the algorithm
/// identifier as plain values (the OID's bytes and `Display` text, the
/// parameters re-encoded with `Encode::to_der`). The contract claims only
/// that the outcome is `spki_algorithm_of` of the input.
#[verifier::external_body]
fn parse_spki_algorithm(der: &[u8]) -> (parsed: Result<SpkiAlgorithm, String>)
    ensures
        match parsed {
            Ok(algorithm) => spki_algorithm_of(der@) == Ok::<_, Seq<char>>(
                (algorithm.oid@, algorithm.oid_text@, parameters_view(algorithm.parameters)),
            ),
            Err(error) => spki_algorithm_of(der@) == Err::<(Seq<u8>, Seq<char>, Option<Seq<u8>>), _>(error@),
        },
{
    let spki = SubjectPublicKeyInfoOwned::from_der(der).map_err(|error| error.to_string())?;
    let parameters = match &spki.algorithm.parameters {
        Some(any) => Some(any.to_der().map_err(|error| error.to_string())?),
        None => None,
    };
    let oid = spki.algorithm.oid;
    Ok(SpkiAlgorithm { oid: oid.as_bytes().to_vec(), oid_text: oid.to_string(), parameters })
}

/// What `der` reads as an OBJECT IDENTIFIER from the DER encoding of an
/// ASN.1 value: its content octets and dotted decimal text, or the text of
/// its error.
pub uninterp spec fn object_identifier_of(der: Seq<u8>) -> Result<(Seq<u8>, Seq<char>), Seq<char>>;

/// Reads the DER encoding back as `der::Any` (`Decode::from_der`) and calls
/// `Any::decode_as::<ObjectIdentifier>` on it. The contract claims only that
/// the outcome is `object_identifier_of` of the input.
#[verifier::external_body]
fn decode_object_identifier(der: &[u8]) -> (decoded: Result<(Vec<u8>, String), String>)
    ensures
        match decoded {
            Ok((bytes, text)) => object_identifier_of(der@) == Ok::<_, Seq<char>>((bytes@, text@)),
            Err(error) => object_identifier_of(der@) == Err::<(Seq<u8>, Seq<char>), _>(error@),
        },
{
    let any = Any::from_der(der).map_err(|error| error.to_string())?;
    let oid = any.decode_as::<ObjectIdentifier>().map_err(|error| error.to_string())?;
    Ok((oid.as_bytes().to_vec(), oid.to_string()))
}

/// Whether AWS-LC accepts `signature` as a signature of `message` by the key
/// `public_key` under `algorithm`.
pub uninterp spec fn signature_verifies(
    algorithm: SignatureAlgorithm,
    public_key: Seq<u8>,
    message: Seq<u8>,
    signature: Seq<u8>,
) -> bool;

/// Calls `UnparsedPublicKey::verify` with the AWS-LC algorithm of the given
/// kind. The contract claims only that the outcome is `signature_verifies`
/// of the arguments.
#[verifier::external_body]
fn aws_lc_verify(
    algorithm: SignatureAlgorithm,
    public_key: &[u8],
    message: &[u8],
    signature: &[u8],
) -> (valid: bool)
    ensures
        valid == signature_verifies(algorithm, public_key@, message@, signature@),
{
    let algorithm: &'static dyn VerificationAlgorithm = match algorithm {
        SignatureAlgorithm::EcdsaP256Sha256 => &ECDSA_P256_SHA256_ASN1,
        SignatureAlgorithm::EcdsaP384Sha384 => &ECDSA_P384_SHA384_ASN1,
        SignatureAlgorithm::EcdsaP521Sha512 => &ECDSA_P521_SHA512_ASN1,
        SignatureAlgorithm::RsaPkcs1Sha256 => &RSA_PKCS1_2048_8192_SHA256,
        SignatureAlgorithm::Ed25519 => &ED25519,
    };
    UnparsedPublicKey::new(algorithm, public_key).verify(message, signature).is_ok()
}

/// Whether two byte strings are equal.
pub fn bytes_equal(a: &[u8], b: &[u8]) -> (equal: bool)
    ensures
        equal == (a@ == b@),
{
    if a.len() != b.len() {
        return false;
    }
    let mut i: usize = 0;
    while i < a.len()
        invariant
            a@.len() == b@.len(),
            i <= a@.len(),
            forall|j: int| 0 <= j < i ==> a@[j] == b@[j],
        decreases a@.len() - i,
    {
        if a[i] != b[i] {
            return false;
        }
        i = i + 1;
    }
    assert(a@ =~= b@);
    true
}

/// The algorithm a named EC curve fixes, or the error for one not supported.
pub open spec fn algorithm_for_curve(curve: Seq<u8>, curve_text: Seq<char>) -> Result<
    SignatureAlgorithm,
    Seq<char>,
> {
    if curve == secp256r1() {
        Ok(SignatureAlgorithm::EcdsaP256Sha256)
    } else if curve == secp384r1() {
        Ok(SignatureAlgorithm::EcdsaP384Sha384)
    } else if curve == secp521r1() {
        Ok(SignatureAlgorithm::EcdsaP521Sha512)
    } else {
        Err("unsupported EC curve "@ + curve_text)
    }
}

/// The algorithm an EC key's parameters fix, from what they decode to as an
/// OBJECT IDENTIFIER: its content octets and dotted text, or the error.
pub open spec fn algorithm_for_curve_parameters(decoded: Result<(Seq<u8>, Seq<char>), Seq<char>>) -> Result<
    SignatureAlgorithm,
    Seq<char>,
> {
    match decoded {
        Err(error) => Err("cannot parse EC curve identifier: "@ + error),
        Ok((curve, curve_text)) => algorithm_for_curve(curve, curve_text),
    }
}

/// Chooses the algorithm of an EC key from what its parameters decode to.
pub fn curve_algorithm(decoded: &Result<(Vec<u8>, String), String>) -> (chosen: Result<
    SignatureAlgorithm,
    String,
>)
    ensures
        match algorithm_for_curve_parameters(
            match decoded {
                Ok((curve, text)) => Ok((curve@, text@)),
                Err(error) => Err(error@),
            },
        ) {
            Ok(algorithm) => chosen matches Ok(a) && a == algorithm,
            Err(message) => chosen matches Err(m) && m@ == message,
        },
{
    match decoded {
        Err(error) => Err(String::from_str("cannot parse EC curve identifier: ").concat(error.as_str())),
        Ok((curve, curve_text)) => {
            let p256: Vec<u8> = vec![0x2Au8, 0x86u8, 0x48u8, 0xCEu8, 0x3Du8, 0x03u8, 0x01u8, 0x07u8];
            let p384: Vec<u8> = vec![0x2Bu8, 0x81u8, 0x04u8, 0x00u8, 0x22u8];
            let p521: Vec<u8> = vec![0x2Bu8, 0x81u8, 0x04u8, 0x00u8, 0x23u8];
            assert(p256@ =~= secp256r1());
            assert(p384@ =~= secp384r1());
            assert(p521@ =~= secp521r1());
            if bytes_equal(curve.as_slice(), p256.as_slice()) {
                Ok(SignatureAlgorithm::EcdsaP256Sha256)
            } else if bytes_equal(curve.as_slice(), p384.as_slice()) {
                Ok(SignatureAlgorithm::EcdsaP384Sha384)
            } else if bytes_equal(curve.as_slice(), p521.as_slice()) {
                Ok(SignatureAlgorithm::EcdsaP521Sha512)
            } else {
                Err(String::from_str("unsupported EC curve ").concat(curve_text.as_str()))
            }
        },
    }
}

/// The algorithm a key's algorithm identifier fixes, or the error for one the
/// library does not take. An EC key names its curve in its parameters.
pub open spec fn algorithm_for_key(
    oid: Seq<u8>,
    oid_text: Seq<char>,
    parameters: Option<Seq<u8>>,
) -> Result<SignatureAlgorithm, Seq<char>> {
    if oid == id_ec_public_key() {
        match parameters {
            None => Err("EC key is missing its curve identifier"@),
            Some(der) => algorithm_for_curve_parameters(object_identifier_of(der)),
        }
    } else if oid == rsa_encryption() {
        Ok(SignatureAlgorithm::RsaPkcs1Sha256)
    } else if oid == id_ed25519() {
        Ok(SignatureAlgorithm::Ed25519)
    } else {
        Err("unsupported public key algorithm "@ + oid_text)
    }
}

/// Chooses the algorithm that a key's algorithm identifier fixes.
pub fn key_algorithm(oid: &[u8], oid_text: &str, parameters: Option<&[u8]>) -> (chosen: Result<
    SignatureAlgorithm,
    String,
>)
    ensures
        match algorithm_for_key(
            oid@,
            oid_text@,
            match parameters {
                Some(p) => Some(p@),
                None => None,
            },
        ) {
            Ok(algorithm) => chosen matches Ok(a) && a == algorithm,
            Err(message) => chosen matches Err(m) && m@ == message,
        },
{
    let ec: Vec<u8> = vec![0x2Au8, 0x86u8, 0x48u8, 0xCEu8, 0x3Du8, 0x02u8, 0x01u8];
    let rsa: Vec<u8> = vec![0x2Au8, 0x86u8, 0x48u8, 0x86u8, 0xF7u8, 0x0Du8, 0x01u8, 0x01u8, 0x01u8];
    let ed25519: Vec<u8> = vec![0x2Bu8, 0x65u8, 0x70u8];
    assert(ec@ =~= id_ec_public_key());
    assert(rsa@ =~= rsa_encryption());
    assert(ed25519@ =~= id_ed25519());
    if bytes_equal(oid, ec.as_slice()) {
        match parameters {
            None => Err(String::from_str("EC key is missing its curve identifier")),
            Some(der) => curve_algorithm(&decode_object_identifier(der)),
        }
    } else if bytes_equal(oid, rsa.as_slice()) {
        Ok(SignatureAlgorithm::RsaPkcs1Sha256)
    } else if bytes_equal(oid, ed25519.as_slice()) {
        Ok(SignatureAlgorithm::Ed25519)
    } else {
        Err(String::from_str("unsupported public key algorithm ").concat(oid_text))
    }
}

/// The algorithm a DER SubjectPublicKeyInfo fixes, or the error it is refused
/// with.
pub open spec fn algorithm_for_spki(der: Seq<u8>) -> Result<SignatureAlgorithm, Seq<char>> {
    match spki_algorithm_of(der) {
        Err(error) => Err("cannot parse SubjectPublicKeyInfo: "@ + error),
        Ok((oid, oid_text, parameters)) => algorithm_for_key(oid, oid_text, parameters),
    }
}

/// A public key with the signature algorithm it fixes.
#[derive(Debug)]
pub struct VerificationKey {
    algorithm: SignatureAlgorithm,
    /// DER SubjectPublicKeyInfo, which AWS-LC parses directly.
    public_key: Vec<u8>,
}

impl VerificationKey {
    /// The algorithm the key verifies with.
    pub closed spec fn algorithm(&self) -> SignatureAlgorithm {
        self.algorithm
    }

    /// The key bytes handed to AWS-LC.
    pub closed spec fn key_bytes(&self) -> Seq<u8> {
        self.public_key@
    }

    /// The algorithm the key verifies with.
    pub fn signature_algorithm(&self) -> (algorithm: SignatureAlgorithm)
        ensures
            algorithm == self.algorithm(),
    {
        self.algorithm
    }

    /// Parses a DER SubjectPublicKeyInfo and fixes the verification algorithm
    /// from its algorithm identifier.
    pub fn try_from_spki_der(der: &[u8]) -> (key: Result<VerificationKey, String>)
        ensures
            match algorithm_for_spki(der@) {
                Ok(algorithm) => key matches Ok(k) && k.algorithm() == algorithm && k.key_bytes()
                    == der@,
                Err(message) => key matches Err(m) && m@ == message,
            },
    {
        let spki = match parse_spki_algorithm(der) {
            Ok(spki) => spki,
            Err(error) => {
                return Err(
                    String::from_str("cannot parse SubjectPublicKeyInfo: ").concat(error.as_str()),
                );
            },
        };
        Self::from_spki_algorithm(der, &spki)
    }

    /// Fixes the verification algorithm of the key `der` from its parsed
    /// algorithm identifier.
    pub fn from_spki_algorithm(der: &[u8], spki: &SpkiAlgorithm) -> (key: Result<
        VerificationKey,
        String,
    >)
        ensures
            match algorithm_for_key(spki.oid@, spki.oid_text@, parameters_view(spki.parameters)) {
                Ok(algorithm) => key matches Ok(k) && k.algorithm() == algorithm && k.key_bytes()
                    == der@,
                Err(message) => key matches Err(m) && m@ == message,
            },
    {
        let parameters = match &spki.parameters {
            Some(bytes) => Some(bytes.as_slice()),
            None => None,
        };
        let algorithm = key_algorithm(spki.oid.as_slice(), spki.oid_text.as_str(), parameters)?;
        Ok(VerificationKey { algorithm, public_key: vstd::slice::slice_to_vec(der) })
    }

    /// Checks `signature` over `message` with the key.
    pub fn verify(&self, message: &[u8], signature: &[u8]) -> (checked: Result<(), String>)
        ensures
            signature_verifies(self.algorithm(), self.key_bytes(), message@, signature@)
                ==> checked is Ok,
            !signature_verifies(self.algorithm(), self.key_bytes(), message@, signature@)
                ==> (checked matches Err(m) && m@ == "signature does not match the public key"@),
    {
        if aws_lc_verify(self.algorithm, self.public_key.as_slice(), message, signature) {
            Ok(())
        } else {
            Err(String::from_str("signature does not match the public key"))
        }
    }

    /// Checks a signature given as standard, padded base64.
    pub fn verify_base64(&self, message: &[u8], signature: &str) -> (checked: Result<(), String>)
        ensures
            match base64_decoded(Base64Alphabet::Standard, Base64Padding::Canonical, false, signature@) {
                Err(refusal) => checked matches Err(m) && m@ == "invalid base64 signature: "@
                    + refusal.1,
                Ok(bytes) => if signature_verifies(self.algorithm(), self.key_bytes(), message@, bytes) {
                    checked is Ok
                } else {
                    checked matches Err(m) && m@ == "signature does not match the public key"@
                },
            },
    {
        let signature = match base64_decode(
            Base64Alphabet::Standard,
            Base64Padding::Canonical,
            false,
            signature,
        ) {
            Ok(bytes) => bytes,
            Err(error) => {
                return Err(
                    String::from_str("invalid base64 signature: ").concat(error.message.as_str()),
                );
            },
        };
        self.verify(message, signature.as_slice())
    }

    /// A P-256 ECDSA key given as an uncompressed curve point.
    pub fn ecdsa_p256_from_uncompressed_point(point: &[u8]) -> (key: Self)
        ensures
            key.algorithm() == SignatureAlgorithm::EcdsaP256Sha256,
            key.key_bytes() == point@,
    {
        VerificationKey { algorithm: SignatureAlgorithm::EcdsaP256Sha256, public_key: vstd::slice::slice_to_vec(point) }
    }
}

} // verus!
