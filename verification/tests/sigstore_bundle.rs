use artifact_trust::json::{JsonNumber, JsonValue};
use std::fmt;

use artifact_trust::base64_codec::Base64Failure;
use serde::de::{Deserialize, Deserializer, MapAccess, SeqAccess, Visitor};
use artifact_trust::proto_json::{
    decode_base64_text, decode_bytes, decode_int64, parse_decimal_i64, retry_url_safe,
};
use artifact_trust::sigstore_bundle::{
    decode_hash_algorithm, decode_inclusion_proof, decode_transparency_log_entry, Bundle,
    HashAlgorithm,
};

/// A JSON document that keeps every member of every object, in order, with
/// repeated keys, and every number in the form the text gives it.
struct Document(JsonValue);

impl<'de> Deserialize<'de> for Document {
    fn deserialize<D: Deserializer<'de>>(deserializer: D) -> Result<Self, D::Error> {
        deserializer.deserialize_any(DocumentVisitor)
    }
}

struct DocumentVisitor;

impl<'de> Visitor<'de> for DocumentVisitor {
    type Value = Document;

    fn expecting(&self, f: &mut fmt::Formatter) -> fmt::Result {
        f.write_str("a JSON value")
    }

    fn visit_unit<E: serde::de::Error>(self) -> Result<Document, E> {
        Ok(Document(JsonValue::Null))
    }

    fn visit_bool<E: serde::de::Error>(self, value: bool) -> Result<Document, E> {
        Ok(Document(JsonValue::Bool(value)))
    }

    fn visit_u64<E: serde::de::Error>(self, value: u64) -> Result<Document, E> {
        Ok(Document(JsonValue::Number(JsonNumber::Unsigned(value))))
    }

    fn visit_i64<E: serde::de::Error>(self, value: i64) -> Result<Document, E> {
        Ok(Document(JsonValue::Number(match u64::try_from(value) {
            Ok(unsigned) => JsonNumber::Unsigned(unsigned),
            Err(_) => JsonNumber::Negative(value),
        })))
    }

    fn visit_f64<E: serde::de::Error>(self, _value: f64) -> Result<Document, E> {
        Ok(Document(JsonValue::Number(JsonNumber::Fractional)))
    }

    fn visit_str<E: serde::de::Error>(self, value: &str) -> Result<Document, E> {
        Ok(Document(JsonValue::String(value.to_owned())))
    }

    fn visit_seq<A: SeqAccess<'de>>(self, mut seq: A) -> Result<Document, A::Error> {
        let mut items = Vec::new();
        while let Some(Document(item)) = seq.next_element()? {
            items.push(item);
        }
        Ok(Document(JsonValue::Array(items)))
    }

    fn visit_map<A: MapAccess<'de>>(self, mut map: A) -> Result<Document, A::Error> {
        let mut members = Vec::new();
        while let Some((key, Document(value))) = map.next_entry::<String, Document>()? {
            members.push((key, value));
        }
        Ok(Document(JsonValue::Object(members)))
    }
}

/// Reads JSON text into the library's document type.
fn json(text: &str) -> JsonValue {
    let Document(document) = serde_json::from_str(text).expect("test JSON");
    document
}

fn text(s: &str) -> JsonValue {
    JsonValue::String(s.to_string())
}

#[test]
fn proto3_json_scalar_forms_are_equivalent() {
    let parse = |text: &str| decode_inclusion_proof(&json(text)).expect("parse proof");
    let strings = parse(r#"{"logIndex":"7","treeSize":"9","rootHash":"-_8=","hashes":["AQ"]}"#);
    let numbers = parse(r#"{"log_index":7,"tree_size":9,"root_hash":"+/8","hashes":["AQ=="]}"#);
    for proof in [&strings, &numbers] {
        assert_eq!((proof.log_index, proof.tree_size), (7, 9));
        assert_eq!(proof.root_hash, [0xfb, 0xff]);
        assert_eq!(proof.hashes, [vec![1_u8]]);
    }
    let nulls = parse(r#"{"logIndex":null,"rootHash":null,"hashes":null,"checkpoint":null}"#);
    assert_eq!(nulls.log_index, 0);
    assert!(nulls.root_hash.is_empty() && nulls.hashes.is_empty());
    assert!(nulls.checkpoint.is_none());
}

#[test]
fn malformed_documents_are_rejected() {
    for text in [
        r#"{"mediaType":"x","unexpected":1}"#,
        r#"{"verificationMaterial":{"tlogEntries":[{"logIndex":"1","extra":true}]}}"#,
        r#"{"mediaType":"x","media_type":"y"}"#,
        r#"{"messageSignature":{"signature":"AA=="},"dsseEnvelope":{}}"#,
        r#"{"verificationMaterial":{"certificate":{"rawBytes":"AA=="},"publicKey":{}}}"#,
        r#"{"messageSignature":{"signature":"not base64!"}}"#,
        r#"{"messageSignature":{"messageDigest":{"algorithm":"SHA9"}}}"#,
        r#"{"verificationMaterial":{"tlogEntries":[{"logIndex":"9223372036854775808"}]}}"#,
        r#"{"verificationMaterial":{"tlogEntries":[{"logIndex":1.5}]}}"#,
    ] {
        assert!(Bundle::from_json_value(&json(text)).is_err(), "must reject {text}");
    }
}

#[test]
fn a_complete_bundle_reads_every_field() {
    let bundle = Bundle::from_json_value(&json(
        r#"{
            "mediaType": "application/vnd.dev.sigstore.bundle.v0.3+json",
            "verificationMaterial": {
                "certificate": {"rawBytes": "AQID"},
                "tlogEntries": [{
                    "logIndex": "42",
                    "logId": {"keyId": "BAU="},
                    "kindVersion": {"kind": "hashedrekord", "version": "0.0.1"},
                    "integratedTime": "1700000000",
                    "inclusionPromise": {"signedEntryTimestamp": "Bg=="},
                    "inclusionProof": {
                        "logIndex": "41",
                        "rootHash": "Bw==",
                        "treeSize": "100",
                        "hashes": ["CA==", "CQ=="],
                        "checkpoint": {"envelope": "rekor.sigstore.dev"}
                    },
                    "canonicalizedBody": "Cg=="
                }],
                "timestampVerificationData": {"rfc3161Timestamps": [{"signedTimestamp": "Cw=="}]}
            },
            "messageSignature": {
                "messageDigest": {"algorithm": "SHA2_256", "digest": "DA=="},
                "signature": "DQ=="
            }
        }"#,
    ))
    .expect("complete bundle");
    assert_eq!(bundle.media_type, "application/vnd.dev.sigstore.bundle.v0.3+json");
    assert!(bundle.dsse_envelope.is_none());
    let material = bundle.verification_material.expect("verification material");
    assert_eq!(material.certificate.expect("certificate").raw_bytes, [1, 2, 3]);
    assert!(material.public_key.is_none() && material.x509_certificate_chain.is_none());
    let [entry] = material.tlog_entries.as_slice() else {
        panic!("exactly one tlog entry");
    };
    assert_eq!((entry.log_index, entry.integrated_time), (42, 1_700_000_000));
    assert_eq!(entry.log_id.as_ref().expect("log id").key_id, [4, 5]);
    let kind = entry.kind_version.as_ref().expect("kind version");
    assert_eq!((kind.kind.as_str(), kind.version.as_str()), ("hashedrekord", "0.0.1"));
    assert_eq!(entry.inclusion_promise.as_ref().expect("promise").signed_entry_timestamp, [6]);
    let proof = entry.inclusion_proof.as_ref().expect("proof");
    assert_eq!((proof.log_index, proof.tree_size), (41, 100));
    assert_eq!(proof.root_hash, [7]);
    assert_eq!(proof.hashes, [vec![8], vec![9]]);
    assert_eq!(proof.checkpoint.as_ref().expect("checkpoint").envelope, "rekor.sigstore.dev");
    assert_eq!(entry.canonicalized_body, [10]);
    let stamps = material.timestamp_verification_data.expect("timestamps").rfc3161_timestamps;
    assert_eq!(stamps.len(), 1);
    assert_eq!(stamps[0].signed_timestamp, [11]);
    let signature = bundle.message_signature.expect("message signature");
    let digest = signature.message_digest.expect("message digest");
    assert_eq!(digest.algorithm, HashAlgorithm::Sha2_256);
    assert_eq!(digest.digest, [12]);
    assert_eq!(signature.signature, [13]);
}

#[test]
fn an_empty_document_is_an_empty_bundle() {
    let bundle = Bundle::from_json_value(&json("{}")).expect("empty bundle");
    assert!(bundle.media_type.is_empty());
    assert!(bundle.verification_material.is_none());
    assert!(bundle.message_signature.is_none());
    assert!(bundle.dsse_envelope.is_none());
}

#[test]
fn a_dsse_envelope_alone_is_accepted_and_not_read() {
    let bundle = Bundle::from_json_value(&json(r#"{"dsseEnvelope":{"payload":"anything"}}"#))
        .expect("dsse bundle");
    assert!(bundle.dsse_envelope.is_some());
    assert!(bundle.message_signature.is_none());
}

#[test]
fn a_null_content_arm_does_not_count_as_set() {
    let bundle = Bundle::from_json_value(&json(
        r#"{"messageSignature":{"signature":"AA=="},"dsseEnvelope":null}"#,
    ))
    .expect("null second arm");
    assert!(bundle.dsse_envelope.is_none());
    assert!(Bundle::from_json_value(&json(
        r#"{"verificationMaterial":{"certificate":{"rawBytes":"AA=="},"publicKey":null,"x509CertificateChain":null}}"#
    ))
    .is_ok());
    assert!(Bundle::from_json_value(&json(
        r#"{"verificationMaterial":{"publicKey":{},"x509CertificateChain":{}}}"#
    ))
    .is_err());
}

#[test]
fn unknown_fields_are_refused_at_every_level() {
    for text in [
        r#"{"verificationMaterial":{"certificate":{"rawBytes":"AA==","der":"AA=="}}}"#,
        r#"{"messageSignature":{"messageDigest":{"algorithm":1,"digestValue":"AA=="}}}"#,
        r#"{"verificationMaterial":{"timestampVerificationData":{"timestamps":[]}}}"#,
        r#"{"MediaType":"x"}"#,
    ] {
        assert!(Bundle::from_json_value(&json(text)).is_err(), "must reject {text}");
    }
}

#[test]
fn a_field_given_twice_is_refused() {
    let twice = JsonValue::Object(vec![
        ("kind".to_string(), text("a")),
        ("kind".to_string(), text("b")),
    ]);
    let entry = JsonValue::Object(vec![("kindVersion".to_string(), twice)]);
    assert!(decode_transparency_log_entry(&entry).is_err());
    assert!(decode_transparency_log_entry(&json(r#"{"logIndex":"1","log_index":"2"}"#)).is_err());
}

#[test]
fn only_objects_are_messages() {
    for text in ["[]", r#"{"verificationMaterial":[]}"#, r#"{"messageSignature":["AA=="]}"#, "null", "7"] {
        assert!(Bundle::from_json_value(&json(text)).is_err(), "must reject {text}");
    }
    assert!(decode_inclusion_proof(&json(r#"[7, "AQ==", 9]"#)).is_err());
    assert!(decode_transparency_log_entry(&json(r#"{"inclusionProof":[1]}"#)).is_err());
}

#[test]
fn repeated_keys_in_text_are_refused() {
    assert!(Bundle::from_json_value(&json(r#"{"mediaType":"x","mediaType":"x"}"#)).is_err());
    assert!(decode_inclusion_proof(&json(r#"{"hashes":[],"hashes":[]}"#)).is_err());
}

#[test]
fn renamed_fields_at_every_depth_read_alike() {
    let camel = r#"{"mediaType":"m","verificationMaterial":{"tlogEntries":[{"logIndex":"5","inclusionProof":{"treeSize":"9","rootHash":"AQ=="}}]},"messageSignature":{"messageDigest":{"algorithm":"SHA2_256"}}}"#;
    let proto = r#"{"media_type":"m","verification_material":{"tlog_entries":[{"log_index":"5","inclusion_proof":{"tree_size":"9","root_hash":"AQ=="}}]},"message_signature":{"message_digest":{"algorithm":"SHA2_256"}}}"#;
    let read = |text: &str| {
        let bundle = Bundle::from_json_value(&json(text)).expect("bundle");
        let material = bundle.verification_material.expect("material");
        let entry = &material.tlog_entries[0];
        let proof = entry.inclusion_proof.as_ref().expect("proof");
        let digest = bundle.message_signature.expect("signature").message_digest.expect("digest");
        (bundle.media_type, entry.log_index, proof.tree_size, proof.root_hash.clone(), digest.algorithm)
    };
    assert_eq!(read(camel), read(proto));
    assert_eq!(read(camel), ("m".to_string(), 5, 9, vec![1], HashAlgorithm::Sha2_256));
}

#[test]
fn key_refusals_name_the_key_and_the_fields() {
    assert_eq!(
        Bundle::from_json_value(&json(r#"{"mediaType":"x","unexpected":1}"#)).err(),
        Some(
            "unknown field `unexpected`, expected one of `mediaType`, `media_type`, \
             `verificationMaterial`, `verification_material`, `messageSignature`, \
             `message_signature`, `dsseEnvelope`, `dsse_envelope`"
                .to_string()
        )
    );
    assert_eq!(
        Bundle::from_json_value(&json(r#"{"mediaType":"x","media_type":"y"}"#)).err(),
        Some("duplicate field `mediaType`".to_string())
    );
    let entry = |text: &str| decode_transparency_log_entry(&json(text)).err();
    assert_eq!(
        entry(r#"{"kindVersion":{"kind":"a","release":"b"}}"#),
        Some("unknown field `release`, expected `kind` or `version`".to_string())
    );
    assert_eq!(
        entry(r#"{"inclusionProof":{"checkpoint":{"note":""}}}"#),
        Some("unknown field `note`, expected `envelope`".to_string())
    );
    assert_eq!(
        entry(r#"{"logId":{"keyId":"AA==","key_id":"AA=="}}"#),
        Some("duplicate field `keyId`".to_string())
    );
}

#[test]
fn recognised_fields_are_read_only_for_presence() {
    let a = Bundle::from_json_value(&json(
        r#"{"verificationMaterial":{"publicKey":{"hint":"x"}},"dsseEnvelope":{"payload":"p"}}"#,
    ))
    .expect("first");
    let b = Bundle::from_json_value(&json(
        r#"{"verification_material":{"public_key":{"other":[1,2]}},"dsse_envelope":[]}"#,
    ))
    .expect("second");
    assert!(a.dsse_envelope.is_some() && b.dsse_envelope.is_some());
    assert!(a.verification_material.expect("a").public_key.is_some());
    assert!(b.verification_material.expect("b").public_key.is_some());
}

#[test]
fn error_texts_name_the_offending_value() {
    assert_eq!(decode_int64(&text("12x")), Err("invalid int64 '12x'".to_string()));
    assert_eq!(
        decode_int64(&json("9223372036854775808")),
        Err("int64 out of range: 9223372036854775808".to_string())
    );
    assert_eq!(decode_hash_algorithm(&text("SHA9")), Err("unknown HashAlgorithm 'SHA9'".to_string()));
    assert_eq!(
        decode_base64_text("not base64!"),
        Err("invalid base64: Invalid symbol 32, offset 3.".to_string())
    );
    assert_eq!(
        Bundle::from_json_value(&json(r#"{"messageSignature":{},"dsseEnvelope":{}}"#)).err(),
        Some("bundle sets more than one content field".to_string())
    );
    assert_eq!(
        Bundle::from_json_value(&json(r#"{"verificationMaterial":{"certificate":{},"x509CertificateChain":{}}}"#)).err(),
        Some("verification material sets more than one content field".to_string())
    );
}

#[test]
fn a_null_field_reads_as_the_missing_field() {
    let with_null = decode_transparency_log_entry(&json(
        r#"{"logIndex":"3","logId":null,"kindVersion":null,"integratedTime":null,"canonicalizedBody":null}"#,
    ))
    .expect("nulls");
    let without = decode_transparency_log_entry(&json(r#"{"logIndex":"3"}"#)).expect("missing");
    assert_eq!(with_null.log_index, without.log_index);
    assert_eq!(with_null.integrated_time, 0);
    assert!(with_null.log_id.is_none() && without.log_id.is_none());
    assert!(with_null.canonicalized_body.is_empty());
}

#[test]
fn int64_reads_strings_and_numbers_alike() {
    for (json_text, expected) in [
        (r#""-42""#, -42_i64),
        ("-42", -42),
        (r#""9223372036854775807""#, i64::MAX),
        ("9223372036854775807", i64::MAX),
        (r#""-9223372036854775808""#, i64::MIN),
        ("-9223372036854775808", i64::MIN),
        (r#""+5""#, 5),
        (r#""007""#, 7),
        ("null", 0),
    ] {
        assert_eq!(decode_int64(&json(json_text)), Ok(expected), "{json_text}");
    }
    for json_text in [
        "9223372036854775808",
        r#""9223372036854775808""#,
        r#""-9223372036854775809""#,
        r#""""#,
        r#""+""#,
        r#""-""#,
        r#"" 1""#,
        r#""1_000""#,
        "1e3",
        "true",
        "[1]",
    ] {
        assert!(decode_int64(&json(json_text)).is_err(), "{json_text}");
    }
}

#[test]
fn decimal_parsing_follows_str_parse() {
    for case in ["0", "-0", "+0", "12345", "-12345", "00042", "+1", "x", "", "1 ", "١"] {
        assert_eq!(parse_decimal_i64(case), case.parse::<i64>().ok(), "{case}");
    }
}

#[test]
fn bytes_read_both_alphabets_padded_or_not() {
    assert_eq!(decode_base64_text("AQ==").expect("padded"), [1]);
    assert_eq!(decode_base64_text("AQ").expect("unpadded"), [1]);
    assert_eq!(decode_base64_text("+/8=").expect("standard"), [0xfb, 0xff]);
    assert_eq!(decode_base64_text("-_8").expect("url safe"), [0xfb, 0xff]);
    assert_eq!(decode_base64_text("AR==").expect("trailing bits allowed"), [1]);
    assert!(decode_base64_text("not base64!").is_err());
    assert!(decode_base64_text("-/8=").is_err());
    assert_eq!(decode_bytes(&JsonValue::Null).expect("null"), Vec::<u8>::new());
    assert!(decode_bytes(&json("1")).is_err());
}

#[test]
fn hash_algorithm_reads_names_and_numbers_alike() {
    let names = ["HASH_ALGORITHM_UNSPECIFIED", "SHA2_256", "SHA2_384", "SHA2_512", "SHA3_256", "SHA3_384"];
    for (number, name) in names.iter().enumerate() {
        let by_name = decode_hash_algorithm(&text(name)).expect("name");
        let by_number = decode_hash_algorithm(&json(&number.to_string())).expect("number");
        assert_eq!(by_name, by_number, "{name}");
    }
    assert_eq!(decode_hash_algorithm(&text("SHA2_256")), Ok(HashAlgorithm::Sha2_256));
    assert_eq!(decode_hash_algorithm(&text("SHA2_512")), Ok(HashAlgorithm::Other));
    assert_eq!(decode_hash_algorithm(&JsonValue::Null), Ok(HashAlgorithm::Unspecified));
    assert_eq!(decode_hash_algorithm(&json("-1")), Ok(HashAlgorithm::Other));
    assert_eq!(decode_hash_algorithm(&json("18446744073709551615")), Ok(HashAlgorithm::Other));
    assert!(decode_hash_algorithm(&text("SHA9")).is_err());
    assert!(decode_hash_algorithm(&text("sha2_256")).is_err());
    assert!(decode_hash_algorithm(&json("1.0")).is_err());
}

#[test]
fn only_a_stop_at_dash_or_underscore_retries_url_safe() {
    assert!(retry_url_safe(&Base64Failure::InvalidByte(0, b'-')));
    assert!(retry_url_safe(&Base64Failure::InvalidByte(5, b'_')));
    assert!(!retry_url_safe(&Base64Failure::InvalidByte(0, b'!')));
    assert!(!retry_url_safe(&Base64Failure::InvalidLength(3)));
    assert!(!retry_url_safe(&Base64Failure::InvalidPadding));
}
