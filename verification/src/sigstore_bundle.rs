//! The subset of the Sigstore bundle protobuf schema this crate verifies, read
//! with the proto3 JSON mapping: camelCase or proto field names, `int64` as
//! a string or number, `bytes` as base64, enums by name or number, and `null`
//! as the field default. Unknown fields are refused.
use crate::json::{str_equal, JsonNumber, JsonValue};
use crate::proto_json::{
    bytes_list_is, bytes_list_ok, bytes_of, decode_bytes, decode_bytes_list, decode_int64,
    decode_presence, decode_string, field_index, int64_of, lemma_field_index_is,
    lemma_field_index_names, lemma_member_named_is_field, is_set, member_named, lemma_object_slots_prefix,
    lemma_object_slots_sound, message_fields, message_slots, names_of, optional_is, slot_value,
    optional_ok, read_message_fields, string_of, FieldName,
};
use vstd::prelude::*;

verus! {

broadcast use vstd::string::group_string_axioms;

/// A field that is recognised but never read.
#[derive(Debug)]
pub struct IgnoredValue;

/// `dev.sigstore.common.v1.HashAlgorithm`. Only SHA2-256 is ever accepted, so
/// every other known or unknown value collapses to `Other`.
#[derive(Clone, Copy, Debug, Default, PartialEq, Eq, Structural)]
pub enum HashAlgorithm {
    #[default]
    Unspecified,
    Sha2_256,
    Other,
}

/// `dev.sigstore.bundle.v1.Bundle`.
#[derive(Debug)]
pub struct Bundle {
    pub media_type: String,
    pub verification_material: Option<VerificationMaterial>,
    pub message_signature: Option<MessageSignature>,
    /// The other arm of the bundle's `content` oneof. Never verified here; kept
    /// so its presence is a recognised field rather than a parse error.
    pub dsse_envelope: Option<IgnoredValue>,
}

/// `dev.sigstore.bundle.v1.VerificationMaterial`.
#[derive(Debug)]
pub struct VerificationMaterial {
    pub certificate: Option<X509Certificate>,
    /// The other arms of the verification-material `content` oneof.
    pub public_key: Option<IgnoredValue>,
    pub x509_certificate_chain: Option<IgnoredValue>,
    pub tlog_entries: Vec<TransparencyLogEntry>,
    pub timestamp_verification_data: Option<TimestampVerificationData>,
}

/// `dev.sigstore.common.v1.X509Certificate`.
#[derive(Debug)]
pub struct X509Certificate {
    pub raw_bytes: Vec<u8>,
}

/// `dev.sigstore.bundle.v1.TimestampVerificationData`.
#[derive(Debug)]
pub struct TimestampVerificationData {
    pub rfc3161_timestamps: Vec<Rfc3161SignedTimestamp>,
}

/// `dev.sigstore.common.v1.RFC3161SignedTimestamp`.
#[derive(Debug)]
pub struct Rfc3161SignedTimestamp {
    pub signed_timestamp: Vec<u8>,
}

/// `dev.sigstore.common.v1.MessageSignature`.
#[derive(Debug)]
pub struct MessageSignature {
    pub message_digest: Option<HashOutput>,
    pub signature: Vec<u8>,
}

/// `dev.sigstore.common.v1.HashOutput`.
#[derive(Debug)]
pub struct HashOutput {
    pub algorithm: HashAlgorithm,
    pub digest: Vec<u8>,
}

/// `dev.sigstore.rekor.v1.TransparencyLogEntry`.
#[derive(Debug)]
pub struct TransparencyLogEntry {
    pub log_index: i64,
    pub log_id: Option<LogId>,
    pub kind_version: Option<KindVersion>,
    pub integrated_time: i64,
    pub inclusion_promise: Option<InclusionPromise>,
    pub inclusion_proof: Option<InclusionProof>,
    pub canonicalized_body: Vec<u8>,
}

/// `dev.sigstore.common.v1.LogId`.
#[derive(Debug)]
pub struct LogId {
    pub key_id: Vec<u8>,
}

/// `dev.sigstore.rekor.v1.KindVersion`.
#[derive(Debug)]
pub struct KindVersion {
    pub kind: String,
    pub version: String,
}

/// `dev.sigstore.rekor.v1.InclusionPromise`.
#[derive(Debug)]
pub struct InclusionPromise {
    pub signed_entry_timestamp: Vec<u8>,
}

/// `dev.sigstore.rekor.v1.InclusionProof`.
#[derive(Debug)]
pub struct InclusionProof {
    pub log_index: i64,
    pub root_hash: Vec<u8>,
    pub tree_size: i64,
    pub hashes: Vec<Vec<u8>>,
    pub checkpoint: Option<Checkpoint>,
}

/// `dev.sigstore.rekor.v1.Checkpoint`.
#[derive(Debug)]
pub struct Checkpoint {
    pub envelope: String,
}

fn field(json_name: &'static str, proto_name: &'static str) -> (named: FieldName)
    ensures
        named.json_name == json_name,
        named.proto_name == proto_name,
{
    FieldName { json_name, proto_name }
}

// ---------------------------------------------------------------------------
// HashAlgorithm
// ---------------------------------------------------------------------------

/// The algorithm a `HashAlgorithm` enum number names.
pub open spec fn hash_algorithm_of_number(n: i64) -> HashAlgorithm {
    if n == 0 {
        HashAlgorithm::Unspecified
    } else if n == 1 {
        HashAlgorithm::Sha2_256
    } else {
        HashAlgorithm::Other
    }
}

/// The algorithm a `HashAlgorithm` enum name names; `None` for a name the
/// enum does not have.
pub open spec fn hash_algorithm_of_name(name: Seq<char>) -> Option<HashAlgorithm> {
    if name == "HASH_ALGORITHM_UNSPECIFIED"@ {
        Some(HashAlgorithm::Unspecified)
    } else if name == "SHA2_256"@ {
        Some(HashAlgorithm::Sha2_256)
    } else if name == "SHA2_384"@ || name == "SHA2_512"@ || name == "SHA3_256"@ || name
        == "SHA3_384"@ {
        Some(HashAlgorithm::Other)
    } else {
        None
    }
}

/// The algorithm a `HashAlgorithm` field value gives: `null` is unspecified,
/// a string is an enum name, an integer an enum number (one past `i64::MAX`
/// reads as `i64::MAX`).
pub open spec fn hash_algorithm_of(v: JsonValue) -> Option<HashAlgorithm> {
    match v {
        JsonValue::Null => Some(HashAlgorithm::Unspecified),
        JsonValue::String(name) => hash_algorithm_of_name(name@),
        JsonValue::Number(JsonNumber::Negative(n)) => Some(hash_algorithm_of_number(n)),
        JsonValue::Number(JsonNumber::Unsigned(n)) => Some(
            hash_algorithm_of_number(
                if n <= i64::MAX as u64 {
                    n as i64
                } else {
                    i64::MAX
                },
            ),
        ),
        _ => None,
    }
}

fn hash_algorithm_from_number(n: i64) -> (algorithm: HashAlgorithm)
    ensures
        algorithm == hash_algorithm_of_number(n),
{
    if n == 0 {
        HashAlgorithm::Unspecified
    } else if n == 1 {
        HashAlgorithm::Sha2_256
    } else {
        HashAlgorithm::Other
    }
}

/// Reads a `HashAlgorithm` field value.
pub fn decode_hash_algorithm(v: &JsonValue) -> (decoded: Result<HashAlgorithm, String>)
    ensures
        match hash_algorithm_of(*v) {
            Some(algorithm) => decoded == Ok::<HashAlgorithm, String>(algorithm),
            None => decoded is Err,
        },
        *v matches JsonValue::String(name) ==> (hash_algorithm_of_name(name@) is None ==> (
        decoded matches Err(message) && message@ == "unknown HashAlgorithm '"@ + name@ + "'"@)),
{
    match v {
        JsonValue::Null => Ok(HashAlgorithm::Unspecified),
        JsonValue::String(name) => {
            let name = name.as_str();
            if str_equal(name, "HASH_ALGORITHM_UNSPECIFIED") {
                Ok(HashAlgorithm::Unspecified)
            } else if str_equal(name, "SHA2_256") {
                Ok(HashAlgorithm::Sha2_256)
            } else if str_equal(name, "SHA2_384") || str_equal(name, "SHA2_512") || str_equal(
                name,
                "SHA3_256",
            ) || str_equal(name, "SHA3_384") {
                Ok(HashAlgorithm::Other)
            } else {
                Err(String::from_str("unknown HashAlgorithm '").concat(name).concat("'"))
            }
        },
        JsonValue::Number(JsonNumber::Negative(n)) => Ok(hash_algorithm_from_number(*n)),
        JsonValue::Number(JsonNumber::Unsigned(n)) => Ok(
            hash_algorithm_from_number(
                if *n <= 9223372036854775807 {
                    *n as i64
                } else {
                    i64::MAX
                },
            ),
        ),
        _ => Err(String::from_str("invalid type: expected a HashAlgorithm name or number")),
    }
}

// ---------------------------------------------------------------------------
// Leaf messages
// ---------------------------------------------------------------------------

pub open spec fn checkpoint_names() -> Seq<(Seq<char>, Seq<char>)> {
    seq![("envelope"@, "envelope"@)]
}

fn checkpoint_fields() -> (fields: Vec<FieldName>)
    ensures
        names_of(fields@) == checkpoint_names(),
{
    let mut fields = Vec::new();
    fields.push(field("envelope", "envelope"));
    assert(names_of(fields@) =~= checkpoint_names());
    fields
}

/// Whether a value reads as a `Checkpoint`.
pub open spec fn checkpoint_ok(v: JsonValue) -> bool {
    match message_fields(checkpoint_names(), v) {
        Some(fs) => string_of(fs[0]) is Some,
        None => false,
    }
}

/// Whether `c` is what a value reads as, as a `Checkpoint`.
pub open spec fn checkpoint_is(v: JsonValue, c: Checkpoint) -> bool {
    match message_fields(checkpoint_names(), v) {
        Some(fs) => string_of(fs[0]) == Some(c.envelope@),
        None => false,
    }
}

/// Reads a `Checkpoint`.
pub fn decode_checkpoint(v: &JsonValue) -> (decoded: Result<Checkpoint, String>)
    ensures
        decoded is Ok <==> checkpoint_ok(*v),
        decoded matches Ok(c) ==> checkpoint_is(*v, c),
{
    let null = JsonValue::Null;
    let fields = read_message_fields(v, &checkpoint_fields(), &null)?;
    let envelope = decode_string(fields[0])?;
    Ok(Checkpoint { envelope })
}

pub open spec fn log_id_names() -> Seq<(Seq<char>, Seq<char>)> {
    seq![("keyId"@, "key_id"@)]
}

fn log_id_fields() -> (fields: Vec<FieldName>)
    ensures
        names_of(fields@) == log_id_names(),
{
    let mut fields = Vec::new();
    fields.push(field("keyId", "key_id"));
    assert(names_of(fields@) =~= log_id_names());
    fields
}

/// Whether a value reads as a `LogId`.
pub open spec fn log_id_ok(v: JsonValue) -> bool {
    match message_fields(log_id_names(), v) {
        Some(fs) => bytes_of(fs[0]) is Some,
        None => false,
    }
}

/// Whether `l` is what a value reads as, as a `LogId`.
pub open spec fn log_id_is(v: JsonValue, l: LogId) -> bool {
    match message_fields(log_id_names(), v) {
        Some(fs) => bytes_of(fs[0]) == Some(l.key_id@),
        None => false,
    }
}

/// Reads a `LogId`.
pub fn decode_log_id(v: &JsonValue) -> (decoded: Result<LogId, String>)
    ensures
        decoded is Ok <==> log_id_ok(*v),
        decoded matches Ok(l) ==> log_id_is(*v, l),
{
    let null = JsonValue::Null;
    let fields = read_message_fields(v, &log_id_fields(), &null)?;
    let key_id = decode_bytes(fields[0])?;
    Ok(LogId { key_id })
}

pub open spec fn kind_version_names() -> Seq<(Seq<char>, Seq<char>)> {
    seq![("kind"@, "kind"@), ("version"@, "version"@)]
}

fn kind_version_fields() -> (fields: Vec<FieldName>)
    ensures
        names_of(fields@) == kind_version_names(),
{
    let mut fields = Vec::new();
    fields.push(field("kind", "kind"));
    fields.push(field("version", "version"));
    assert(names_of(fields@) =~= kind_version_names());
    fields
}

/// Whether a value reads as a `KindVersion`.
pub open spec fn kind_version_ok(v: JsonValue) -> bool {
    match message_fields(kind_version_names(), v) {
        Some(fs) => string_of(fs[0]) is Some && string_of(fs[1]) is Some,
        None => false,
    }
}

/// Whether `k` is what a value reads as, as a `KindVersion`.
pub open spec fn kind_version_is(v: JsonValue, k: KindVersion) -> bool {
    match message_fields(kind_version_names(), v) {
        Some(fs) => string_of(fs[0]) == Some(k.kind@) && string_of(fs[1]) == Some(k.version@),
        None => false,
    }
}

/// Reads a `KindVersion`.
pub fn decode_kind_version(v: &JsonValue) -> (decoded: Result<KindVersion, String>)
    ensures
        decoded is Ok <==> kind_version_ok(*v),
        decoded matches Ok(k) ==> kind_version_is(*v, k),
{
    let null = JsonValue::Null;
    let fields = read_message_fields(v, &kind_version_fields(), &null)?;
    let kind = decode_string(fields[0])?;
    let version = decode_string(fields[1])?;
    Ok(KindVersion { kind, version })
}

pub open spec fn inclusion_promise_names() -> Seq<(Seq<char>, Seq<char>)> {
    seq![("signedEntryTimestamp"@, "signed_entry_timestamp"@)]
}

fn inclusion_promise_fields() -> (fields: Vec<FieldName>)
    ensures
        names_of(fields@) == inclusion_promise_names(),
{
    let mut fields = Vec::new();
    fields.push(field("signedEntryTimestamp", "signed_entry_timestamp"));
    assert(names_of(fields@) =~= inclusion_promise_names());
    fields
}

/// Whether a value reads as an `InclusionPromise`.
pub open spec fn inclusion_promise_ok(v: JsonValue) -> bool {
    match message_fields(inclusion_promise_names(), v) {
        Some(fs) => bytes_of(fs[0]) is Some,
        None => false,
    }
}

/// Whether `p` is what a value reads as, as an `InclusionPromise`.
pub open spec fn inclusion_promise_is(v: JsonValue, p: InclusionPromise) -> bool {
    match message_fields(inclusion_promise_names(), v) {
        Some(fs) => bytes_of(fs[0]) == Some(p.signed_entry_timestamp@),
        None => false,
    }
}

/// Reads an `InclusionPromise`.
pub fn decode_inclusion_promise(v: &JsonValue) -> (decoded: Result<InclusionPromise, String>)
    ensures
        decoded is Ok <==> inclusion_promise_ok(*v),
        decoded matches Ok(p) ==> inclusion_promise_is(*v, p),
{
    let null = JsonValue::Null;
    let fields = read_message_fields(v, &inclusion_promise_fields(), &null)?;
    let signed_entry_timestamp = decode_bytes(fields[0])?;
    Ok(InclusionPromise { signed_entry_timestamp })
}

pub open spec fn inclusion_proof_names() -> Seq<(Seq<char>, Seq<char>)> {
    seq![
        ("logIndex"@, "log_index"@),
        ("rootHash"@, "root_hash"@),
        ("treeSize"@, "tree_size"@),
        ("hashes"@, "hashes"@),
        ("checkpoint"@, "checkpoint"@),
    ]
}

fn inclusion_proof_fields() -> (fields: Vec<FieldName>)
    ensures
        names_of(fields@) == inclusion_proof_names(),
{
    let mut fields = Vec::new();
    fields.push(field("logIndex", "log_index"));
    fields.push(field("rootHash", "root_hash"));
    fields.push(field("treeSize", "tree_size"));
    fields.push(field("hashes", "hashes"));
    fields.push(field("checkpoint", "checkpoint"));
    assert(names_of(fields@) =~= inclusion_proof_names());
    fields
}

/// Whether a value reads as an `InclusionProof`.
pub open spec fn inclusion_proof_ok(v: JsonValue) -> bool {
    match message_fields(inclusion_proof_names(), v) {
        Some(fs) => {
            &&& int64_of(fs[0]) is Some
            &&& bytes_of(fs[1]) is Some
            &&& int64_of(fs[2]) is Some
            &&& bytes_list_ok(fs[3])
            &&& optional_ok(fs[4], |c: JsonValue| checkpoint_ok(c))
        },
        None => false,
    }
}

/// Whether `p` is what a value reads as, as an `InclusionProof`.
pub open spec fn inclusion_proof_is(v: JsonValue, p: InclusionProof) -> bool {
    match message_fields(inclusion_proof_names(), v) {
        Some(fs) => {
            &&& int64_of(fs[0]) == Some(p.log_index)
            &&& bytes_of(fs[1]) == Some(p.root_hash@)
            &&& int64_of(fs[2]) == Some(p.tree_size)
            &&& bytes_list_is(fs[3], p.hashes@)
            &&& optional_is(fs[4], p.checkpoint, |c: JsonValue, m: Checkpoint| checkpoint_is(c, m))
        },
        None => false,
    }
}

/// Reads an `InclusionProof`.
pub fn decode_inclusion_proof(v: &JsonValue) -> (decoded: Result<InclusionProof, String>)
    ensures
        decoded is Ok <==> inclusion_proof_ok(*v),
        decoded matches Ok(p) ==> inclusion_proof_is(*v, p),
{
    let null = JsonValue::Null;
    let fields = read_message_fields(v, &inclusion_proof_fields(), &null)?;
    let log_index = decode_int64(fields[0])?;
    let root_hash = decode_bytes(fields[1])?;
    let tree_size = decode_int64(fields[2])?;
    let hashes = decode_bytes_list(fields[3])?;
    let checkpoint = if decode_presence(fields[4]) {
        Some(decode_checkpoint(fields[4])?)
    } else {
        None
    };
    Ok(InclusionProof { log_index, root_hash, tree_size, hashes, checkpoint })
}

pub open spec fn transparency_log_entry_names() -> Seq<(Seq<char>, Seq<char>)> {
    seq![
        ("logIndex"@, "log_index"@),
        ("logId"@, "log_id"@),
        ("kindVersion"@, "kind_version"@),
        ("integratedTime"@, "integrated_time"@),
        ("inclusionPromise"@, "inclusion_promise"@),
        ("inclusionProof"@, "inclusion_proof"@),
        ("canonicalizedBody"@, "canonicalized_body"@),
    ]
}

fn transparency_log_entry_fields() -> (fields: Vec<FieldName>)
    ensures
        names_of(fields@) == transparency_log_entry_names(),
{
    let mut fields = Vec::new();
    fields.push(field("logIndex", "log_index"));
    fields.push(field("logId", "log_id"));
    fields.push(field("kindVersion", "kind_version"));
    fields.push(field("integratedTime", "integrated_time"));
    fields.push(field("inclusionPromise", "inclusion_promise"));
    fields.push(field("inclusionProof", "inclusion_proof"));
    fields.push(field("canonicalizedBody", "canonicalized_body"));
    assert(names_of(fields@) =~= transparency_log_entry_names());
    fields
}

/// Whether a value reads as a `TransparencyLogEntry`.
pub open spec fn transparency_log_entry_ok(v: JsonValue) -> bool {
    match message_fields(transparency_log_entry_names(), v) {
        Some(fs) => {
            &&& int64_of(fs[0]) is Some
            &&& optional_ok(fs[1], |x: JsonValue| log_id_ok(x))
            &&& optional_ok(fs[2], |x: JsonValue| kind_version_ok(x))
            &&& int64_of(fs[3]) is Some
            &&& optional_ok(fs[4], |x: JsonValue| inclusion_promise_ok(x))
            &&& optional_ok(fs[5], |x: JsonValue| inclusion_proof_ok(x))
            &&& bytes_of(fs[6]) is Some
        },
        None => false,
    }
}

/// Whether `e` is what a value reads as, as a `TransparencyLogEntry`.
pub open spec fn transparency_log_entry_is(v: JsonValue, e: TransparencyLogEntry) -> bool {
    match message_fields(transparency_log_entry_names(), v) {
        Some(fs) => {
            &&& int64_of(fs[0]) == Some(e.log_index)
            &&& optional_is(fs[1], e.log_id, |x: JsonValue, m: LogId| log_id_is(x, m))
            &&& optional_is(fs[2], e.kind_version, |x: JsonValue, m: KindVersion| kind_version_is(x, m))
            &&& int64_of(fs[3]) == Some(e.integrated_time)
            &&& optional_is(
                fs[4],
                e.inclusion_promise,
                |x: JsonValue, m: InclusionPromise| inclusion_promise_is(x, m),
            )
            &&& optional_is(
                fs[5],
                e.inclusion_proof,
                |x: JsonValue, m: InclusionProof| inclusion_proof_is(x, m),
            )
            &&& bytes_of(fs[6]) == Some(e.canonicalized_body@)
        },
        None => false,
    }
}

/// Reads a `TransparencyLogEntry`.
pub fn decode_transparency_log_entry(v: &JsonValue) -> (decoded: Result<TransparencyLogEntry, String>)
    ensures
        decoded is Ok <==> transparency_log_entry_ok(*v),
        decoded matches Ok(e) ==> transparency_log_entry_is(*v, e),
{
    let null = JsonValue::Null;
    let fields = read_message_fields(v, &transparency_log_entry_fields(), &null)?;
    let log_index = decode_int64(fields[0])?;
    let log_id = if decode_presence(fields[1]) {
        Some(decode_log_id(fields[1])?)
    } else {
        None
    };
    let kind_version = if decode_presence(fields[2]) {
        Some(decode_kind_version(fields[2])?)
    } else {
        None
    };
    let integrated_time = decode_int64(fields[3])?;
    let inclusion_promise = if decode_presence(fields[4]) {
        Some(decode_inclusion_promise(fields[4])?)
    } else {
        None
    };
    let inclusion_proof = if decode_presence(fields[5]) {
        Some(decode_inclusion_proof(fields[5])?)
    } else {
        None
    };
    let canonicalized_body = decode_bytes(fields[6])?;
    Ok(
        TransparencyLogEntry {
            log_index,
            log_id,
            kind_version,
            integrated_time,
            inclusion_promise,
            inclusion_proof,
            canonicalized_body,
        },
    )
}

/// Whether a repeated `TransparencyLogEntry` field value can be read: `null`,
/// or an array of entries.
pub open spec fn transparency_log_entries_ok(v: JsonValue) -> bool {
    match v {
        JsonValue::Null => true,
        JsonValue::Array(items) => forall|i: int|
            0 <= i < items@.len() ==> #[trigger] transparency_log_entry_ok(items@[i]),
        _ => false,
    }
}

/// Whether `entries` is what a repeated `TransparencyLogEntry` field value
/// reads as: empty for `null`, one entry per array item otherwise.
pub open spec fn transparency_log_entries_is(v: JsonValue, entries: Seq<TransparencyLogEntry>) -> bool {
    match v {
        JsonValue::Null => entries.len() == 0,
        JsonValue::Array(items) => entries.len() == items@.len() && forall|i: int|
            0 <= i < items@.len() ==> #[trigger] transparency_log_entry_is(items@[i], entries[i]),
        _ => false,
    }
}

/// Reads a repeated `TransparencyLogEntry` field value.
pub fn decode_transparency_log_entries(v: &JsonValue) -> (decoded: Result<
    Vec<TransparencyLogEntry>,
    String,
>)
    ensures
        decoded is Ok <==> transparency_log_entries_ok(*v),
        decoded matches Ok(entries) ==> transparency_log_entries_is(*v, entries@),
{
    match v {
        JsonValue::Null => Ok(Vec::new()),
        JsonValue::Array(items) => {
            let mut entries: Vec<TransparencyLogEntry> = Vec::new();
            let mut i: usize = 0;
            while i < items.len()
                invariant
                    *v == JsonValue::Array(*items),
                    i <= items@.len(),
                    entries@.len() == i,
                    forall|j: int|
                        0 <= j < i ==> #[trigger] transparency_log_entry_is(items@[j], entries@[j]),
                decreases items@.len() - i,
            {
                match decode_transparency_log_entry(&items[i]) {
                    Ok(entry) => entries.push(entry),
                    Err(error) => {
                        assert(!transparency_log_entry_ok(items@[i as int]));
                        assert(match *v { JsonValue::Array(its) => its@ == items@, _ => false });
                        return Err(error);
                    },
                }
                i = i + 1;
            }
            proof {
                assert forall|j: int| 0 <= j < items@.len() implies transparency_log_entry_ok(
                    #[trigger] items@[j],
                ) by {
                    lemma_transparency_log_entry_is_ok(items@[j], entries@[j]);
                }
            }
            Ok(entries)
        },
        _ => Err(String::from_str("invalid type: expected a list of transparency log entries")),
    }
}

proof fn lemma_transparency_log_entry_is_ok(v: JsonValue, e: TransparencyLogEntry)
    requires
        transparency_log_entry_is(v, e),
    ensures
        transparency_log_entry_ok(v),
{
    let fs = message_fields(transparency_log_entry_names(), v)->0;
    if let Some(m) = e.inclusion_proof {
        let p = message_fields(inclusion_proof_names(), fs[5])->0;
        if let Some(c) = m.checkpoint {
            assert(checkpoint_is(p[4], c));
        }
        match p[3] {
            JsonValue::Array(items) => {
                assert forall|i: int| 0 <= i < items@.len() implies #[trigger] bytes_of(
                    items@[i],
                ) is Some by {
                    assert(bytes_of(items@[i]) == Some(m.hashes@[i]@));
                }
            },
            _ => {},
        }
    }
}

pub open spec fn x509_certificate_names() -> Seq<(Seq<char>, Seq<char>)> {
    seq![("rawBytes"@, "raw_bytes"@)]
}

fn x509_certificate_fields() -> (fields: Vec<FieldName>)
    ensures
        names_of(fields@) == x509_certificate_names(),
{
    let mut fields = Vec::new();
    fields.push(field("rawBytes", "raw_bytes"));
    assert(names_of(fields@) =~= x509_certificate_names());
    fields
}

/// Whether a value reads as an `X509Certificate`.
pub open spec fn x509_certificate_ok(v: JsonValue) -> bool {
    match message_fields(x509_certificate_names(), v) {
        Some(fs) => bytes_of(fs[0]) is Some,
        None => false,
    }
}

/// Whether `c` is what a value reads as, as an `X509Certificate`.
pub open spec fn x509_certificate_is(v: JsonValue, c: X509Certificate) -> bool {
    match message_fields(x509_certificate_names(), v) {
        Some(fs) => bytes_of(fs[0]) == Some(c.raw_bytes@),
        None => false,
    }
}

/// Reads an `X509Certificate`.
pub fn decode_x509_certificate(v: &JsonValue) -> (decoded: Result<X509Certificate, String>)
    ensures
        decoded is Ok <==> x509_certificate_ok(*v),
        decoded matches Ok(c) ==> x509_certificate_is(*v, c),
{
    let null = JsonValue::Null;
    let fields = read_message_fields(v, &x509_certificate_fields(), &null)?;
    let raw_bytes = decode_bytes(fields[0])?;
    Ok(X509Certificate { raw_bytes })
}

pub open spec fn rfc3161_signed_timestamp_names() -> Seq<(Seq<char>, Seq<char>)> {
    seq![("signedTimestamp"@, "signed_timestamp"@)]
}

fn rfc3161_signed_timestamp_fields() -> (fields: Vec<FieldName>)
    ensures
        names_of(fields@) == rfc3161_signed_timestamp_names(),
{
    let mut fields = Vec::new();
    fields.push(field("signedTimestamp", "signed_timestamp"));
    assert(names_of(fields@) =~= rfc3161_signed_timestamp_names());
    fields
}

/// Whether a value reads as an `RFC3161SignedTimestamp`.
pub open spec fn rfc3161_signed_timestamp_ok(v: JsonValue) -> bool {
    match message_fields(rfc3161_signed_timestamp_names(), v) {
        Some(fs) => bytes_of(fs[0]) is Some,
        None => false,
    }
}

/// Whether `t` is what a value reads as, as an `RFC3161SignedTimestamp`.
pub open spec fn rfc3161_signed_timestamp_is(v: JsonValue, t: Rfc3161SignedTimestamp) -> bool {
    match message_fields(rfc3161_signed_timestamp_names(), v) {
        Some(fs) => bytes_of(fs[0]) == Some(t.signed_timestamp@),
        None => false,
    }
}

/// Reads an `RFC3161SignedTimestamp`.
pub fn decode_rfc3161_signed_timestamp(v: &JsonValue) -> (decoded: Result<
    Rfc3161SignedTimestamp,
    String,
>)
    ensures
        decoded is Ok <==> rfc3161_signed_timestamp_ok(*v),
        decoded matches Ok(t) ==> rfc3161_signed_timestamp_is(*v, t),
{
    let null = JsonValue::Null;
    let fields = read_message_fields(v, &rfc3161_signed_timestamp_fields(), &null)?;
    let signed_timestamp = decode_bytes(fields[0])?;
    Ok(Rfc3161SignedTimestamp { signed_timestamp })
}

pub open spec fn timestamp_verification_data_names() -> Seq<(Seq<char>, Seq<char>)> {
    seq![("rfc3161Timestamps"@, "rfc3161_timestamps"@)]
}

fn timestamp_verification_data_fields() -> (fields: Vec<FieldName>)
    ensures
        names_of(fields@) == timestamp_verification_data_names(),
{
    let mut fields = Vec::new();
    fields.push(field("rfc3161Timestamps", "rfc3161_timestamps"));
    assert(names_of(fields@) =~= timestamp_verification_data_names());
    fields
}

/// Whether a repeated `RFC3161SignedTimestamp` field value can be read.
pub open spec fn rfc3161_signed_timestamps_ok(v: JsonValue) -> bool {
    match v {
        JsonValue::Null => true,
        JsonValue::Array(items) => forall|i: int|
            0 <= i < items@.len() ==> #[trigger] rfc3161_signed_timestamp_ok(items@[i]),
        _ => false,
    }
}

/// Whether `stamps` is what a repeated `RFC3161SignedTimestamp` field value
/// reads as.
pub open spec fn rfc3161_signed_timestamps_is(v: JsonValue, stamps: Seq<Rfc3161SignedTimestamp>) -> bool {
    match v {
        JsonValue::Null => stamps.len() == 0,
        JsonValue::Array(items) => stamps.len() == items@.len() && forall|i: int|
            0 <= i < items@.len() ==> #[trigger] rfc3161_signed_timestamp_is(items@[i], stamps[i]),
        _ => false,
    }
}

/// Reads a repeated `RFC3161SignedTimestamp` field value.
pub fn decode_rfc3161_signed_timestamps(v: &JsonValue) -> (decoded: Result<
    Vec<Rfc3161SignedTimestamp>,
    String,
>)
    ensures
        decoded is Ok <==> rfc3161_signed_timestamps_ok(*v),
        decoded matches Ok(stamps) ==> rfc3161_signed_timestamps_is(*v, stamps@),
{
    match v {
        JsonValue::Null => Ok(Vec::new()),
        JsonValue::Array(items) => {
            let mut stamps: Vec<Rfc3161SignedTimestamp> = Vec::new();
            let mut i: usize = 0;
            while i < items.len()
                invariant
                    *v == JsonValue::Array(*items),
                    i <= items@.len(),
                    stamps@.len() == i,
                    forall|j: int|
                        0 <= j < i ==> #[trigger] rfc3161_signed_timestamp_is(items@[j], stamps@[j]),
                decreases items@.len() - i,
            {
                match decode_rfc3161_signed_timestamp(&items[i]) {
                    Ok(stamp) => stamps.push(stamp),
                    Err(error) => {
                        assert(!rfc3161_signed_timestamp_ok(items@[i as int]));
                        assert(match *v { JsonValue::Array(its) => its@ == items@, _ => false });
                        return Err(error);
                    },
                }
                i = i + 1;
            }
            assert(match *v { JsonValue::Array(its) => its@ == items@, _ => false });
            assert forall|j: int| 0 <= j < items@.len() implies #[trigger] rfc3161_signed_timestamp_ok(
                items@[j],
            ) by {
                assert(rfc3161_signed_timestamp_is(items@[j], stamps@[j]));
            }
            Ok(stamps)
        },
        _ => Err(String::from_str("invalid type: expected a list of RFC 3161 timestamps")),
    }
}

/// Whether a value reads as a `TimestampVerificationData`.
pub open spec fn timestamp_verification_data_ok(v: JsonValue) -> bool {
    match message_fields(timestamp_verification_data_names(), v) {
        Some(fs) => rfc3161_signed_timestamps_ok(fs[0]),
        None => false,
    }
}

/// Whether `d` is what a value reads as, as a `TimestampVerificationData`.
pub open spec fn timestamp_verification_data_is(v: JsonValue, d: TimestampVerificationData) -> bool {
    match message_fields(timestamp_verification_data_names(), v) {
        Some(fs) => rfc3161_signed_timestamps_is(fs[0], d.rfc3161_timestamps@),
        None => false,
    }
}

/// Reads a `TimestampVerificationData`.
pub fn decode_timestamp_verification_data(v: &JsonValue) -> (decoded: Result<
    TimestampVerificationData,
    String,
>)
    ensures
        decoded is Ok <==> timestamp_verification_data_ok(*v),
        decoded matches Ok(d) ==> timestamp_verification_data_is(*v, d),
{
    let null = JsonValue::Null;
    let fields = read_message_fields(v, &timestamp_verification_data_fields(), &null)?;
    let rfc3161_timestamps = decode_rfc3161_signed_timestamps(fields[0])?;
    Ok(TimestampVerificationData { rfc3161_timestamps })
}

pub open spec fn hash_output_names() -> Seq<(Seq<char>, Seq<char>)> {
    seq![("algorithm"@, "algorithm"@), ("digest"@, "digest"@)]
}

fn hash_output_fields() -> (fields: Vec<FieldName>)
    ensures
        names_of(fields@) == hash_output_names(),
{
    let mut fields = Vec::new();
    fields.push(field("algorithm", "algorithm"));
    fields.push(field("digest", "digest"));
    assert(names_of(fields@) =~= hash_output_names());
    fields
}

/// Whether a value reads as a `HashOutput`.
pub open spec fn hash_output_ok(v: JsonValue) -> bool {
    match message_fields(hash_output_names(), v) {
        Some(fs) => hash_algorithm_of(fs[0]) is Some && bytes_of(fs[1]) is Some,
        None => false,
    }
}

/// Whether `h` is what a value reads as, as a `HashOutput`.
pub open spec fn hash_output_is(v: JsonValue, h: HashOutput) -> bool {
    match message_fields(hash_output_names(), v) {
        Some(fs) => hash_algorithm_of(fs[0]) == Some(h.algorithm) && bytes_of(fs[1]) == Some(
            h.digest@,
        ),
        None => false,
    }
}

/// Reads a `HashOutput`.
pub fn decode_hash_output(v: &JsonValue) -> (decoded: Result<HashOutput, String>)
    ensures
        decoded is Ok <==> hash_output_ok(*v),
        decoded matches Ok(h) ==> hash_output_is(*v, h),
{
    let null = JsonValue::Null;
    let fields = read_message_fields(v, &hash_output_fields(), &null)?;
    let algorithm = decode_hash_algorithm(fields[0])?;
    let digest = decode_bytes(fields[1])?;
    Ok(HashOutput { algorithm, digest })
}

pub open spec fn message_signature_names() -> Seq<(Seq<char>, Seq<char>)> {
    seq![("messageDigest"@, "message_digest"@), ("signature"@, "signature"@)]
}

fn message_signature_fields() -> (fields: Vec<FieldName>)
    ensures
        names_of(fields@) == message_signature_names(),
{
    let mut fields = Vec::new();
    fields.push(field("messageDigest", "message_digest"));
    fields.push(field("signature", "signature"));
    assert(names_of(fields@) =~= message_signature_names());
    fields
}

/// Whether a value reads as a `MessageSignature`.
pub open spec fn message_signature_ok(v: JsonValue) -> bool {
    match message_fields(message_signature_names(), v) {
        Some(fs) => optional_ok(fs[0], |x: JsonValue| hash_output_ok(x)) && bytes_of(fs[1]) is Some,
        None => false,
    }
}

/// Whether `m` is what a value reads as, as a `MessageSignature`.
pub open spec fn message_signature_is(v: JsonValue, m: MessageSignature) -> bool {
    match message_fields(message_signature_names(), v) {
        Some(fs) => optional_is(fs[0], m.message_digest, |x: JsonValue, h: HashOutput| hash_output_is(x, h))
            && bytes_of(fs[1]) == Some(m.signature@),
        None => false,
    }
}

/// Reads a `MessageSignature`.
pub fn decode_message_signature(v: &JsonValue) -> (decoded: Result<MessageSignature, String>)
    ensures
        decoded is Ok <==> message_signature_ok(*v),
        decoded matches Ok(m) ==> message_signature_is(*v, m),
{
    let null = JsonValue::Null;
    let fields = read_message_fields(v, &message_signature_fields(), &null)?;
    let message_digest = if decode_presence(fields[0]) {
        Some(decode_hash_output(fields[0])?)
    } else {
        None
    };
    let signature = decode_bytes(fields[1])?;
    Ok(MessageSignature { message_digest, signature })
}

pub open spec fn verification_material_names() -> Seq<(Seq<char>, Seq<char>)> {
    seq![
        ("certificate"@, "certificate"@),
        ("publicKey"@, "public_key"@),
        ("x509CertificateChain"@, "x509_certificate_chain"@),
        ("tlogEntries"@, "tlog_entries"@),
        ("timestampVerificationData"@, "timestamp_verification_data"@),
    ]
}

fn verification_material_fields() -> (fields: Vec<FieldName>)
    ensures
        names_of(fields@) == verification_material_names(),
{
    let mut fields = Vec::new();
    fields.push(field("certificate", "certificate"));
    fields.push(field("publicKey", "public_key"));
    fields.push(field("x509CertificateChain", "x509_certificate_chain"));
    fields.push(field("tlogEntries", "tlog_entries"));
    fields.push(field("timestampVerificationData", "timestamp_verification_data"));
    assert(names_of(fields@) =~= verification_material_names());
    fields
}

/// Whether a value reads as a `VerificationMaterial`.
pub open spec fn verification_material_ok(v: JsonValue) -> bool {
    match message_fields(verification_material_names(), v) {
        Some(fs) => {
            &&& optional_ok(fs[0], |x: JsonValue| x509_certificate_ok(x))
            &&& transparency_log_entries_ok(fs[3])
            &&& optional_ok(fs[4], |x: JsonValue| timestamp_verification_data_ok(x))
        },
        None => false,
    }
}

/// Whether `m` is what a value reads as, as a `VerificationMaterial`.
pub open spec fn verification_material_is(v: JsonValue, m: VerificationMaterial) -> bool {
    match message_fields(verification_material_names(), v) {
        Some(fs) => {
            &&& optional_is(fs[0], m.certificate, |x: JsonValue, c: X509Certificate| x509_certificate_is(x, c))
            &&& m.public_key is Some == is_set(fs[1])
            &&& m.x509_certificate_chain is Some == is_set(fs[2])
            &&& transparency_log_entries_is(fs[3], m.tlog_entries@)
            &&& optional_is(
                fs[4],
                m.timestamp_verification_data,
                |x: JsonValue, d: TimestampVerificationData| timestamp_verification_data_is(x, d),
            )
        },
        None => false,
    }
}

fn presence(v: &JsonValue) -> (ignored: Option<IgnoredValue>)
    ensures
        ignored is Some == is_set(*v),
{
    if decode_presence(v) {
        Some(IgnoredValue)
    } else {
        None
    }
}

/// Reads a `VerificationMaterial`.
pub fn decode_verification_material(v: &JsonValue) -> (decoded: Result<VerificationMaterial, String>)
    ensures
        decoded is Ok <==> verification_material_ok(*v),
        decoded matches Ok(m) ==> verification_material_is(*v, m),
{
    let null = JsonValue::Null;
    let fields = read_message_fields(v, &verification_material_fields(), &null)?;
    let certificate = if decode_presence(fields[0]) {
        Some(decode_x509_certificate(fields[0])?)
    } else {
        None
    };
    let public_key = presence(fields[1]);
    let x509_certificate_chain = presence(fields[2]);
    let tlog_entries = decode_transparency_log_entries(fields[3])?;
    let timestamp_verification_data = if decode_presence(fields[4]) {
        Some(decode_timestamp_verification_data(fields[4])?)
    } else {
        None
    };
    Ok(
        VerificationMaterial {
            certificate,
            public_key,
            x509_certificate_chain,
            tlog_entries,
            timestamp_verification_data,
        },
    )
}

pub open spec fn bundle_names() -> Seq<(Seq<char>, Seq<char>)> {
    seq![
        ("mediaType"@, "media_type"@),
        ("verificationMaterial"@, "verification_material"@),
        ("messageSignature"@, "message_signature"@),
        ("dsseEnvelope"@, "dsse_envelope"@),
    ]
}

fn bundle_fields() -> (fields: Vec<FieldName>)
    ensures
        names_of(fields@) == bundle_names(),
{
    let mut fields = Vec::new();
    fields.push(field("mediaType", "media_type"));
    fields.push(field("verificationMaterial", "verification_material"));
    fields.push(field("messageSignature", "message_signature"));
    fields.push(field("dsseEnvelope", "dsse_envelope"));
    assert(names_of(fields@) =~= bundle_names());
    fields
}

/// Whether a value reads as a `Bundle` message, before its oneof rules.
pub open spec fn bundle_message_ok(v: JsonValue) -> bool {
    match message_fields(bundle_names(), v) {
        Some(fs) => {
            &&& string_of(fs[0]) is Some
            &&& optional_ok(fs[1], |x: JsonValue| verification_material_ok(x))
            &&& optional_ok(fs[2], |x: JsonValue| message_signature_ok(x))
        },
        None => false,
    }
}

/// Whether `b` is what a value reads as, as a `Bundle`.
pub open spec fn bundle_is(v: JsonValue, b: Bundle) -> bool {
    match message_fields(bundle_names(), v) {
        Some(fs) => {
            &&& string_of(fs[0]) == Some(b.media_type@)
            &&& optional_is(
                fs[1],
                b.verification_material,
                |x: JsonValue, m: VerificationMaterial| verification_material_is(x, m),
            )
            &&& optional_is(
                fs[2],
                b.message_signature,
                |x: JsonValue, m: MessageSignature| message_signature_is(x, m),
            )
            &&& b.dsse_envelope is Some == is_set(fs[3])
        },
        None => false,
    }
}

/// The number of arms of the verification material's `content` oneof that a
/// value sets.
pub open spec fn verification_material_arms(v: JsonValue) -> int {
    match message_fields(verification_material_names(), v) {
        Some(fs) => (if is_set(fs[0]) { 1int } else { 0int }) + (if is_set(fs[1]) {
            1int
        } else {
            0int
        }) + (if is_set(fs[2]) {
            1int
        } else {
            0int
        }),
        None => 0,
    }
}

/// Whether a bundle value sets at most one arm of each `content` oneof: of
/// the bundle (message signature, DSSE envelope) and of its verification
/// material (certificate, public key, certificate chain).
pub open spec fn bundle_oneofs_ok(v: JsonValue) -> bool {
    match message_fields(bundle_names(), v) {
        Some(fs) => {
            &&& !(is_set(fs[2]) && is_set(fs[3]))
            &&& verification_material_arms(fs[1]) <= 1
        },
        None => false,
    }
}

/// The error a bundle that reads as the message is refused with for its
/// oneofs, if it breaks one.
pub open spec fn bundle_oneof_error(v: JsonValue) -> Option<Seq<char>> {
    match message_fields(bundle_names(), v) {
        Some(fs) => if is_set(fs[2]) && is_set(fs[3]) {
            Some("bundle sets more than one content field"@)
        } else if verification_material_arms(fs[1]) > 1 {
            Some("verification material sets more than one content field"@)
        } else {
            None
        },
        None => None,
    }
}

/// Whether a value reads as a `Bundle`: as the message, with its oneofs.
pub open spec fn bundle_ok(v: JsonValue) -> bool {
    bundle_message_ok(v) && bundle_oneofs_ok(v)
}

/// The number of arms of a verification material's `content` oneof it holds.
pub open spec fn content_arms(m: VerificationMaterial) -> int {
    (if m.certificate is Some { 1int } else { 0int }) + (if m.public_key is Some {
        1int
    } else {
        0int
    }) + (if m.x509_certificate_chain is Some {
        1int
    } else {
        0int
    })
}

impl Bundle {
    /// Reads a bundle document. A oneof may carry at most one arm.
    pub fn from_json_value(v: &JsonValue) -> (read: Result<Bundle, String>)
        ensures
            read is Ok <==> bundle_ok(*v),
            read matches Ok(b) ==> bundle_is(*v, b),
            read matches Ok(b) ==> !(b.message_signature is Some && b.dsse_envelope is Some),
            read matches Ok(b) ==> (b.verification_material matches Some(m) ==> content_arms(m)
                <= 1),
            bundle_message_ok(*v) ==> (bundle_oneof_error(*v) matches Some(text) ==> (
            read matches Err(message) && message@ == text)),
            !(*v is Object) ==> read is Err,
    {
        let null = JsonValue::Null;
        let fields = read_message_fields(v, &bundle_fields(), &null)?;
        let media_type = decode_string(fields[0])?;
        let verification_material = if decode_presence(fields[1]) {
            Some(decode_verification_material(fields[1])?)
        } else {
            None
        };
        let message_signature = if decode_presence(fields[2]) {
            Some(decode_message_signature(fields[2])?)
        } else {
            None
        };
        let dsse_envelope = presence(fields[3]);
        let bundle = Bundle { media_type, verification_material, message_signature, dsse_envelope };
        if bundle.message_signature.is_some() && bundle.dsse_envelope.is_some() {
            return Err(String::from_str("bundle sets more than one content field"));
        }
        if let Some(material) = &bundle.verification_material {
            let arms = (if material.certificate.is_some() { 1usize } else { 0usize }) + (
            if material.public_key.is_some() {
                1usize
            } else {
                0usize
            }) + (if material.x509_certificate_chain.is_some() {
                1usize
            } else {
                0usize
            });
            if arms > 1 {
                return Err(
                    String::from_str("verification material sets more than one content field"),
                );
            }
        }
        Ok(bundle)
    }
}

// ---------------------------------------------------------------------------
// Laws
// ---------------------------------------------------------------------------

/// A `HashAlgorithm` reads alike by enum name and by enum number:
/// `HASH_ALGORITHM_UNSPECIFIED` is 0, `SHA2_256` 1, `SHA2_384` 2, `SHA2_512` 3,
/// `SHA3_256` 4 and `SHA3_384` 5.
pub proof fn law_hash_algorithm_name_and_number_agree()
    ensures
        hash_algorithm_of_name("HASH_ALGORITHM_UNSPECIFIED"@) == Some(hash_algorithm_of_number(0)),
        hash_algorithm_of_name("SHA2_256"@) == Some(hash_algorithm_of_number(1)),
        hash_algorithm_of_name("SHA2_384"@) == Some(hash_algorithm_of_number(2)),
        hash_algorithm_of_name("SHA2_512"@) == Some(hash_algorithm_of_number(3)),
        hash_algorithm_of_name("SHA3_256"@) == Some(hash_algorithm_of_number(4)),
        hash_algorithm_of_name("SHA3_384"@) == Some(hash_algorithm_of_number(5)),
{
    reveal_strlit("HASH_ALGORITHM_UNSPECIFIED");
    reveal_strlit("SHA2_256");
    reveal_strlit("SHA2_384");
    reveal_strlit("SHA2_512");
    reveal_strlit("SHA3_256");
    reveal_strlit("SHA3_384");
    assert("SHA2_384"@[5] != "SHA2_256"@[5]);
    assert("SHA2_512"@[5] != "SHA2_256"@[5]);
    assert("SHA3_256"@[3] != "SHA2_256"@[3]);
    assert("SHA3_384"@[3] != "SHA2_256"@[3]);
}

/// Every message is read through its field values alone: two documents with
/// the same field values for a message read alike as that message. With the
/// laws of `proto_json`, this makes every message read alike under either
/// name of each of its fields, and with a `null` field as without it.
pub proof fn law_messages_read_their_field_values_alone(v1: JsonValue, v2: JsonValue)
    ensures
        message_fields(checkpoint_names(), v1) == message_fields(checkpoint_names(), v2) ==> {
            &&& checkpoint_ok(v1) == checkpoint_ok(v2)
            &&& forall|m: Checkpoint| #[trigger] checkpoint_is(v1, m) == checkpoint_is(v2, m)
        },
        message_fields(log_id_names(), v1) == message_fields(log_id_names(), v2) ==> {
            &&& log_id_ok(v1) == log_id_ok(v2)
            &&& forall|m: LogId| #[trigger] log_id_is(v1, m) == log_id_is(v2, m)
        },
        message_fields(kind_version_names(), v1) == message_fields(kind_version_names(), v2) ==> {
            &&& kind_version_ok(v1) == kind_version_ok(v2)
            &&& forall|m: KindVersion| #[trigger] kind_version_is(v1, m) == kind_version_is(v2, m)
        },
        message_fields(inclusion_promise_names(), v1) == message_fields(inclusion_promise_names(), v2) ==> {
            &&& inclusion_promise_ok(v1) == inclusion_promise_ok(v2)
            &&& forall|m: InclusionPromise| #[trigger] inclusion_promise_is(v1, m) == inclusion_promise_is(v2, m)
        },
        message_fields(inclusion_proof_names(), v1) == message_fields(inclusion_proof_names(), v2) ==> {
            &&& inclusion_proof_ok(v1) == inclusion_proof_ok(v2)
            &&& forall|m: InclusionProof| #[trigger] inclusion_proof_is(v1, m) == inclusion_proof_is(v2, m)
        },
        message_fields(transparency_log_entry_names(), v1) == message_fields(transparency_log_entry_names(), v2) ==> {
            &&& transparency_log_entry_ok(v1) == transparency_log_entry_ok(v2)
            &&& forall|m: TransparencyLogEntry| #[trigger] transparency_log_entry_is(v1, m) == transparency_log_entry_is(v2, m)
        },
        message_fields(x509_certificate_names(), v1) == message_fields(x509_certificate_names(), v2) ==> {
            &&& x509_certificate_ok(v1) == x509_certificate_ok(v2)
            &&& forall|m: X509Certificate| #[trigger] x509_certificate_is(v1, m) == x509_certificate_is(v2, m)
        },
        message_fields(rfc3161_signed_timestamp_names(), v1) == message_fields(rfc3161_signed_timestamp_names(), v2) ==> {
            &&& rfc3161_signed_timestamp_ok(v1) == rfc3161_signed_timestamp_ok(v2)
            &&& forall|m: Rfc3161SignedTimestamp| #[trigger] rfc3161_signed_timestamp_is(v1, m) == rfc3161_signed_timestamp_is(v2, m)
        },
        message_fields(timestamp_verification_data_names(), v1) == message_fields(timestamp_verification_data_names(), v2) ==> {
            &&& timestamp_verification_data_ok(v1) == timestamp_verification_data_ok(v2)
            &&& forall|m: TimestampVerificationData| #[trigger] timestamp_verification_data_is(v1, m) == timestamp_verification_data_is(v2, m)
        },
        message_fields(hash_output_names(), v1) == message_fields(hash_output_names(), v2) ==> {
            &&& hash_output_ok(v1) == hash_output_ok(v2)
            &&& forall|m: HashOutput| #[trigger] hash_output_is(v1, m) == hash_output_is(v2, m)
        },
        message_fields(message_signature_names(), v1) == message_fields(message_signature_names(), v2) ==> {
            &&& message_signature_ok(v1) == message_signature_ok(v2)
            &&& forall|m: MessageSignature| #[trigger] message_signature_is(v1, m) == message_signature_is(v2, m)
        },
        message_fields(verification_material_names(), v1) == message_fields(verification_material_names(), v2) ==> {
            &&& verification_material_ok(v1) == verification_material_ok(v2)
            &&& forall|m: VerificationMaterial| #[trigger] verification_material_is(v1, m) == verification_material_is(v2, m)
        },
        message_fields(bundle_names(), v1) == message_fields(bundle_names(), v2) ==> {
            &&& bundle_ok(v1) == bundle_ok(v2)
            &&& forall|m: Bundle| #[trigger] bundle_is(v1, m) == bundle_is(v2, m)
        },
{
}

/// A bundle object with a key that names none of the bundle's fields is
/// refused.
pub proof fn law_bundle_unknown_field_is_refused(v: JsonValue, i: int)
    requires
        v is Object,
        0 <= i < v->Object_0@.len(),
        crate::proto_json::field_index(bundle_names(), v->Object_0@[i].0@) is None,
    ensures
        !bundle_ok(v),
{
    crate::proto_json::law_unknown_field_is_refused(bundle_names(), v, i);
}

// ---------------------------------------------------------------------------
// Renamed documents
// ---------------------------------------------------------------------------

/// The messages of the bundle schema.
pub enum MessageKind {
    Bundle,
    VerificationMaterial,
    X509Certificate,
    TimestampVerificationData,
    Rfc3161SignedTimestamp,
    MessageSignature,
    HashOutput,
    TransparencyLogEntry,
    LogId,
    KindVersion,
    InclusionPromise,
    InclusionProof,
    Checkpoint,
}

/// What a message field holds: a scalar, a value that is only recognised
/// (its presence is all that is read), one message, or a list of messages.
pub enum FieldKind {
    Scalar,
    Recognised,
    Message(MessageKind),
    Messages(MessageKind),
}

/// The field names of a message.
pub open spec fn message_names(kind: MessageKind) -> Seq<(Seq<char>, Seq<char>)> {
    match kind {
        MessageKind::Bundle => bundle_names(),
        MessageKind::VerificationMaterial => verification_material_names(),
        MessageKind::X509Certificate => x509_certificate_names(),
        MessageKind::TimestampVerificationData => timestamp_verification_data_names(),
        MessageKind::Rfc3161SignedTimestamp => rfc3161_signed_timestamp_names(),
        MessageKind::MessageSignature => message_signature_names(),
        MessageKind::HashOutput => hash_output_names(),
        MessageKind::TransparencyLogEntry => transparency_log_entry_names(),
        MessageKind::LogId => log_id_names(),
        MessageKind::KindVersion => kind_version_names(),
        MessageKind::InclusionPromise => inclusion_promise_names(),
        MessageKind::InclusionProof => inclusion_proof_names(),
        MessageKind::Checkpoint => checkpoint_names(),
    }
}

/// What field `f` of a message holds.
pub open spec fn field_kind(kind: MessageKind, f: int) -> FieldKind {
    match kind {
        MessageKind::Bundle => if f == 1 {
            FieldKind::Message(MessageKind::VerificationMaterial)
        } else if f == 2 {
            FieldKind::Message(MessageKind::MessageSignature)
        } else if f == 3 {
            FieldKind::Recognised
        } else {
            FieldKind::Scalar
        },
        MessageKind::VerificationMaterial => if f == 0 {
            FieldKind::Message(MessageKind::X509Certificate)
        } else if f == 1 || f == 2 {
            FieldKind::Recognised
        } else if f == 3 {
            FieldKind::Messages(MessageKind::TransparencyLogEntry)
        } else if f == 4 {
            FieldKind::Message(MessageKind::TimestampVerificationData)
        } else {
            FieldKind::Scalar
        },
        MessageKind::TimestampVerificationData => if f == 0 {
            FieldKind::Messages(MessageKind::Rfc3161SignedTimestamp)
        } else {
            FieldKind::Scalar
        },
        MessageKind::MessageSignature => if f == 0 {
            FieldKind::Message(MessageKind::HashOutput)
        } else {
            FieldKind::Scalar
        },
        MessageKind::TransparencyLogEntry => if f == 1 {
            FieldKind::Message(MessageKind::LogId)
        } else if f == 2 {
            FieldKind::Message(MessageKind::KindVersion)
        } else if f == 4 {
            FieldKind::Message(MessageKind::InclusionPromise)
        } else if f == 5 {
            FieldKind::Message(MessageKind::InclusionProof)
        } else {
            FieldKind::Scalar
        },
        MessageKind::InclusionProof => if f == 4 {
            FieldKind::Message(MessageKind::Checkpoint)
        } else {
            FieldKind::Scalar
        },
        _ => FieldKind::Scalar,
    }
}

/// Whether two documents are the same message up to the names its fields
/// are given under, at every depth, and up to the contents of the fields
/// that are only recognised: two objects with the same number of members
/// where each pair of members names the same field (or the same unknown key)
/// and holds alike values; any other pair of values equal. A recognised-only
/// field's two values are alike when both or neither are `null`.
pub open spec fn reads_alike(kind: MessageKind, v1: JsonValue, v2: JsonValue) -> bool
    decreases v1, 0int,
{
    match v1 {
        JsonValue::Object(a) => match v2 {
            JsonValue::Object(b) => a@.len() == b@.len() && forall|j: int|
                #![trigger a@[j]]
                0 <= j < a@.len() ==> {
                    &&& field_index(message_names(kind), a@[j].0@) == field_index(
                        message_names(kind),
                        b@[j].0@,
                    )
                    &&& match field_index(message_names(kind), a@[j].0@) {
                        Some(f) => values_alike(field_kind(kind, f), a@[j].1, b@[j].1),
                        None => a@[j].1 == b@[j].1,
                    }
                },
            _ => false,
        },
        _ => v1 == v2,
    }
}

/// Whether two field values are alike for what the field holds.
pub open spec fn values_alike(field: FieldKind, x: JsonValue, y: JsonValue) -> bool
    decreases x, 1int,
{
    match field {
        FieldKind::Scalar => x == y,
        FieldKind::Recognised => (x is Null) == (y is Null),
        FieldKind::Message(kind) => reads_alike(kind, x, y),
        FieldKind::Messages(kind) => match x {
            JsonValue::Array(p) => match y {
                JsonValue::Array(q) => p@.len() == q@.len() && forall|i: int|
                    0 <= i < p@.len() ==> reads_alike(kind, #[trigger] p@[i], q@[i]),
                _ => false,
            },
            _ => x == y,
        },
    }
}

proof fn lemma_null_values_alike(field: FieldKind)
    ensures
        values_alike(field, JsonValue::Null, JsonValue::Null),
{
    match field {
        FieldKind::Message(kind) => {
            assert(reads_alike(kind, JsonValue::Null, JsonValue::Null));
        },
        _ => {},
    }
}

proof fn lemma_alike_nulls(kind: MessageKind, x: JsonValue, y: JsonValue)
    requires
        reads_alike(kind, x, y),
    ensures
        x is Null <==> y is Null,
{
}

/// Alike messages have alike field values, field by field.
proof fn lemma_alike_fields(kind: MessageKind, v1: JsonValue, v2: JsonValue)
    requires
        reads_alike(kind, v1, v2),
    ensures
        message_fields(message_names(kind), v1) is Some == message_fields(message_names(kind), v2) is Some,
        message_fields(message_names(kind), v1) is Some ==> {
            let fs1 = message_fields(message_names(kind), v1)->0;
            let fs2 = message_fields(message_names(kind), v2)->0;
            &&& fs1.len() == message_names(kind).len()
            &&& fs2.len() == fs1.len()
            &&& forall|f: int|
                0 <= f < fs1.len() ==> values_alike(field_kind(kind, f), #[trigger] fs1[f], fs2[f])
        },
{
    let names = message_names(kind);
    if let JsonValue::Object(a) = v1 {
        if let JsonValue::Object(b) = v2 {
            assert forall|j: int| 0 <= j < a@.len() implies field_index(names, #[trigger] a@[j].0@)
                == field_index(names, b@[j].0@) by {
                assert(a@[j] == a@[j]);
            }
            lemma_object_slots_prefix(names, a@, b@, a@.len() as int);
            lemma_object_slots_sound(names, a@, a@.len() as int);
            if let Some(slots) = message_slots(names, v1) {
                assert forall|f: int| 0 <= f < names.len() implies values_alike(
                    field_kind(kind, f),
                    #[trigger] slot_value(v1, slots[f]),
                    slot_value(v2, slots[f]),
                ) by {
                    if slots[f] is Some {
                        let i = slots[f]->0;
                        assert(a@[i] == a@[i]);
                    } else {
                        lemma_null_values_alike(field_kind(kind, f));
                    }
                }
                let fs1 = message_fields(names, v1)->0;
                let fs2 = message_fields(names, v2)->0;
                assert forall|f: int| 0 <= f < fs1.len() implies values_alike(
                    field_kind(kind, f),
                    #[trigger] fs1[f],
                    fs2[f],
                ) by {
                    assert(fs1[f] == slot_value(v1, slots[f]));
                    assert(fs2[f] == slot_value(v2, slots[f]));
                }
            }
        }
    }
}

/// Alike messages whose fields are all scalars have equal field values.
proof fn lemma_alike_leaf(kind: MessageKind, v1: JsonValue, v2: JsonValue)
    requires
        reads_alike(kind, v1, v2),
        forall|f: int| #[trigger] field_kind(kind, f) == FieldKind::Scalar,
    ensures
        message_fields(message_names(kind), v1) == message_fields(message_names(kind), v2),
{
    lemma_alike_fields(kind, v1, v2);
    if message_fields(message_names(kind), v1) is Some {
        let fs1 = message_fields(message_names(kind), v1)->0;
        let fs2 = message_fields(message_names(kind), v2)->0;
        assert forall|f: int| 0 <= f < fs1.len() implies fs1[f] == fs2[f] by {
            assert(field_kind(kind, f) == FieldKind::Scalar);
            assert(values_alike(field_kind(kind, f), fs1[f], fs2[f]));
        }
        assert(fs1 =~= fs2);
    }
}

proof fn lemma_alike_checkpoint(v1: JsonValue, v2: JsonValue)
    requires
        reads_alike(MessageKind::Checkpoint, v1, v2),
    ensures
        checkpoint_ok(v1) == checkpoint_ok(v2),
        forall|m: Checkpoint| #[trigger] checkpoint_is(v1, m) == checkpoint_is(v2, m),
{
    lemma_alike_leaf(MessageKind::Checkpoint, v1, v2);
}

proof fn lemma_alike_log_id(v1: JsonValue, v2: JsonValue)
    requires
        reads_alike(MessageKind::LogId, v1, v2),
    ensures
        log_id_ok(v1) == log_id_ok(v2),
        forall|m: LogId| #[trigger] log_id_is(v1, m) == log_id_is(v2, m),
{
    lemma_alike_leaf(MessageKind::LogId, v1, v2);
}

proof fn lemma_alike_kind_version(v1: JsonValue, v2: JsonValue)
    requires
        reads_alike(MessageKind::KindVersion, v1, v2),
    ensures
        kind_version_ok(v1) == kind_version_ok(v2),
        forall|m: KindVersion| #[trigger] kind_version_is(v1, m) == kind_version_is(v2, m),
{
    lemma_alike_leaf(MessageKind::KindVersion, v1, v2);
}

proof fn lemma_alike_inclusion_promise(v1: JsonValue, v2: JsonValue)
    requires
        reads_alike(MessageKind::InclusionPromise, v1, v2),
    ensures
        inclusion_promise_ok(v1) == inclusion_promise_ok(v2),
        forall|m: InclusionPromise| #[trigger] inclusion_promise_is(v1, m) == inclusion_promise_is(v2, m),
{
    lemma_alike_leaf(MessageKind::InclusionPromise, v1, v2);
}

proof fn lemma_alike_x509_certificate(v1: JsonValue, v2: JsonValue)
    requires
        reads_alike(MessageKind::X509Certificate, v1, v2),
    ensures
        x509_certificate_ok(v1) == x509_certificate_ok(v2),
        forall|m: X509Certificate| #[trigger] x509_certificate_is(v1, m) == x509_certificate_is(v2, m),
{
    lemma_alike_leaf(MessageKind::X509Certificate, v1, v2);
}

proof fn lemma_alike_rfc3161_signed_timestamp(v1: JsonValue, v2: JsonValue)
    requires
        reads_alike(MessageKind::Rfc3161SignedTimestamp, v1, v2),
    ensures
        rfc3161_signed_timestamp_ok(v1) == rfc3161_signed_timestamp_ok(v2),
        forall|m: Rfc3161SignedTimestamp| #[trigger] rfc3161_signed_timestamp_is(v1, m)
            == rfc3161_signed_timestamp_is(v2, m),
{
    lemma_alike_leaf(MessageKind::Rfc3161SignedTimestamp, v1, v2);
}

proof fn lemma_alike_hash_output(v1: JsonValue, v2: JsonValue)
    requires
        reads_alike(MessageKind::HashOutput, v1, v2),
    ensures
        hash_output_ok(v1) == hash_output_ok(v2),
        forall|m: HashOutput| #[trigger] hash_output_is(v1, m) == hash_output_is(v2, m),
{
    lemma_alike_leaf(MessageKind::HashOutput, v1, v2);
}

proof fn lemma_alike_inclusion_proof(v1: JsonValue, v2: JsonValue)
    requires
        reads_alike(MessageKind::InclusionProof, v1, v2),
    ensures
        inclusion_proof_ok(v1) == inclusion_proof_ok(v2),
        forall|m: InclusionProof| #[trigger] inclusion_proof_is(v1, m) == inclusion_proof_is(v2, m),
{
    let kind = MessageKind::InclusionProof;
    lemma_alike_fields(kind, v1, v2);
    if message_fields(message_names(kind), v1) is Some {
        let fs1 = message_fields(message_names(kind), v1)->0;
        let fs2 = message_fields(message_names(kind), v2)->0;
        assert(values_alike(field_kind(kind, 0), fs1[0], fs2[0]));
        assert(values_alike(field_kind(kind, 1), fs1[1], fs2[1]));
        assert(values_alike(field_kind(kind, 2), fs1[2], fs2[2]));
        assert(values_alike(field_kind(kind, 3), fs1[3], fs2[3]));
        assert(values_alike(field_kind(kind, 4), fs1[4], fs2[4]));
        lemma_alike_checkpoint(fs1[4], fs2[4]);
        lemma_alike_nulls(MessageKind::Checkpoint, fs1[4], fs2[4]);
    }
}

proof fn lemma_alike_transparency_log_entry(v1: JsonValue, v2: JsonValue)
    requires
        reads_alike(MessageKind::TransparencyLogEntry, v1, v2),
    ensures
        transparency_log_entry_ok(v1) == transparency_log_entry_ok(v2),
        forall|m: TransparencyLogEntry| #[trigger] transparency_log_entry_is(v1, m)
            == transparency_log_entry_is(v2, m),
{
    let kind = MessageKind::TransparencyLogEntry;
    lemma_alike_fields(kind, v1, v2);
    if message_fields(message_names(kind), v1) is Some {
        let fs1 = message_fields(message_names(kind), v1)->0;
        let fs2 = message_fields(message_names(kind), v2)->0;
        assert(values_alike(field_kind(kind, 0), fs1[0], fs2[0]));
        assert(values_alike(field_kind(kind, 1), fs1[1], fs2[1]));
        assert(values_alike(field_kind(kind, 2), fs1[2], fs2[2]));
        assert(values_alike(field_kind(kind, 3), fs1[3], fs2[3]));
        assert(values_alike(field_kind(kind, 4), fs1[4], fs2[4]));
        assert(values_alike(field_kind(kind, 5), fs1[5], fs2[5]));
        assert(values_alike(field_kind(kind, 6), fs1[6], fs2[6]));
        lemma_alike_log_id(fs1[1], fs2[1]);
        lemma_alike_nulls(MessageKind::LogId, fs1[1], fs2[1]);
        lemma_alike_kind_version(fs1[2], fs2[2]);
        lemma_alike_nulls(MessageKind::KindVersion, fs1[2], fs2[2]);
        lemma_alike_inclusion_promise(fs1[4], fs2[4]);
        lemma_alike_nulls(MessageKind::InclusionPromise, fs1[4], fs2[4]);
        lemma_alike_inclusion_proof(fs1[5], fs2[5]);
        lemma_alike_nulls(MessageKind::InclusionProof, fs1[5], fs2[5]);
    }
}

proof fn lemma_alike_transparency_log_entries(x: JsonValue, y: JsonValue)
    requires
        values_alike(FieldKind::Messages(MessageKind::TransparencyLogEntry), x, y),
    ensures
        transparency_log_entries_ok(x) == transparency_log_entries_ok(y),
        forall|es: Seq<TransparencyLogEntry>| #[trigger] transparency_log_entries_is(x, es)
            == transparency_log_entries_is(y, es),
{
    if let JsonValue::Array(p) = x {
        if let JsonValue::Array(q) = y {
            assert forall|i: int|
                #![trigger transparency_log_entry_ok(p@[i])]
                #![trigger transparency_log_entry_ok(q@[i])]
                0 <= i < p@.len() implies {
                &&& transparency_log_entry_ok(p@[i]) == transparency_log_entry_ok(q@[i])
                &&& forall|m: TransparencyLogEntry| transparency_log_entry_is(p@[i], m)
                    == transparency_log_entry_is(q@[i], m)
            } by {
                lemma_alike_transparency_log_entry(p@[i], q@[i]);
            }
            assert forall|es: Seq<TransparencyLogEntry>| #[trigger] transparency_log_entries_is(x, es)
                == transparency_log_entries_is(y, es) by {
                if es.len() == p@.len() {
                    assert forall|i: int|
                        #![trigger transparency_log_entry_is(p@[i], es[i])]
                        #![trigger transparency_log_entry_is(q@[i], es[i])]
                        0 <= i < p@.len() implies transparency_log_entry_is(p@[i], es[i]) == transparency_log_entry_is(q@[i], es[i]) by {
                        lemma_alike_transparency_log_entry(p@[i], q@[i]);
                    }
                }
            }
            assert(transparency_log_entries_ok(x) == transparency_log_entries_ok(y));
        }
    }
}

proof fn lemma_alike_rfc3161_signed_timestamps(x: JsonValue, y: JsonValue)
    requires
        values_alike(FieldKind::Messages(MessageKind::Rfc3161SignedTimestamp), x, y),
    ensures
        rfc3161_signed_timestamps_ok(x) == rfc3161_signed_timestamps_ok(y),
        forall|ts: Seq<Rfc3161SignedTimestamp>| #[trigger] rfc3161_signed_timestamps_is(x, ts)
            == rfc3161_signed_timestamps_is(y, ts),
{
    if let JsonValue::Array(p) = x {
        if let JsonValue::Array(q) = y {
            assert forall|i: int|
                #![trigger rfc3161_signed_timestamp_ok(p@[i])]
                #![trigger rfc3161_signed_timestamp_ok(q@[i])]
                0 <= i < p@.len() implies {
                &&& rfc3161_signed_timestamp_ok(p@[i]) == rfc3161_signed_timestamp_ok(q@[i])
                &&& forall|m: Rfc3161SignedTimestamp| rfc3161_signed_timestamp_is(p@[i], m)
                    == rfc3161_signed_timestamp_is(q@[i], m)
            } by {
                lemma_alike_rfc3161_signed_timestamp(p@[i], q@[i]);
            }
            assert forall|ts: Seq<Rfc3161SignedTimestamp>| #[trigger] rfc3161_signed_timestamps_is(x, ts)
                == rfc3161_signed_timestamps_is(y, ts) by {
                if ts.len() == p@.len() {
                    assert forall|i: int|
                        #![trigger rfc3161_signed_timestamp_is(p@[i], ts[i])]
                        #![trigger rfc3161_signed_timestamp_is(q@[i], ts[i])]
                        0 <= i < p@.len() implies rfc3161_signed_timestamp_is(p@[i], ts[i]) == rfc3161_signed_timestamp_is(q@[i], ts[i]) by {
                        lemma_alike_rfc3161_signed_timestamp(p@[i], q@[i]);
                    }
                }
            }
            assert(rfc3161_signed_timestamps_ok(x) == rfc3161_signed_timestamps_ok(y));
        }
    }
}

proof fn lemma_alike_timestamp_verification_data(v1: JsonValue, v2: JsonValue)
    requires
        reads_alike(MessageKind::TimestampVerificationData, v1, v2),
    ensures
        timestamp_verification_data_ok(v1) == timestamp_verification_data_ok(v2),
        forall|m: TimestampVerificationData| #[trigger] timestamp_verification_data_is(v1, m)
            == timestamp_verification_data_is(v2, m),
{
    let kind = MessageKind::TimestampVerificationData;
    lemma_alike_fields(kind, v1, v2);
    if message_fields(message_names(kind), v1) is Some {
        let fs1 = message_fields(message_names(kind), v1)->0;
        let fs2 = message_fields(message_names(kind), v2)->0;
        assert(values_alike(field_kind(kind, 0), fs1[0], fs2[0]));
        lemma_alike_rfc3161_signed_timestamps(fs1[0], fs2[0]);
    }
}

proof fn lemma_alike_message_signature(v1: JsonValue, v2: JsonValue)
    requires
        reads_alike(MessageKind::MessageSignature, v1, v2),
    ensures
        message_signature_ok(v1) == message_signature_ok(v2),
        forall|m: MessageSignature| #[trigger] message_signature_is(v1, m) == message_signature_is(v2, m),
{
    let kind = MessageKind::MessageSignature;
    lemma_alike_fields(kind, v1, v2);
    if message_fields(message_names(kind), v1) is Some {
        let fs1 = message_fields(message_names(kind), v1)->0;
        let fs2 = message_fields(message_names(kind), v2)->0;
        assert(values_alike(field_kind(kind, 0), fs1[0], fs2[0]));
        assert(values_alike(field_kind(kind, 1), fs1[1], fs2[1]));
        lemma_alike_hash_output(fs1[0], fs2[0]);
        lemma_alike_nulls(MessageKind::HashOutput, fs1[0], fs2[0]);
    }
}

proof fn lemma_alike_verification_material(v1: JsonValue, v2: JsonValue)
    requires
        reads_alike(MessageKind::VerificationMaterial, v1, v2),
    ensures
        verification_material_ok(v1) == verification_material_ok(v2),
        forall|m: VerificationMaterial| #[trigger] verification_material_is(v1, m)
            == verification_material_is(v2, m),
        verification_material_arms(v1) == verification_material_arms(v2),
{
    let kind = MessageKind::VerificationMaterial;
    lemma_alike_fields(kind, v1, v2);
    if message_fields(message_names(kind), v1) is Some {
        let fs1 = message_fields(message_names(kind), v1)->0;
        let fs2 = message_fields(message_names(kind), v2)->0;
        assert(values_alike(field_kind(kind, 0), fs1[0], fs2[0]));
        assert(values_alike(field_kind(kind, 1), fs1[1], fs2[1]));
        assert(values_alike(field_kind(kind, 2), fs1[2], fs2[2]));
        assert(values_alike(field_kind(kind, 3), fs1[3], fs2[3]));
        assert(values_alike(field_kind(kind, 4), fs1[4], fs2[4]));
        lemma_alike_x509_certificate(fs1[0], fs2[0]);
        lemma_alike_nulls(MessageKind::X509Certificate, fs1[0], fs2[0]);
        lemma_alike_transparency_log_entries(fs1[3], fs2[3]);
        lemma_alike_timestamp_verification_data(fs1[4], fs2[4]);
        lemma_alike_nulls(MessageKind::TimestampVerificationData, fs1[4], fs2[4]);
    }
}

/// A bundle reads alike however the names of its fields are chosen, at
/// every depth, and whatever the recognised-only fields (DSSE envelope,
/// public key, certificate chain) hold besides being set: two documents that
/// `reads_alike` relates, such as a document and a copy with any keys
/// switched between a field's JSON name and its proto name, are both refused,
/// or both read, with the same messages and the same oneof error.
pub proof fn law_renamed_bundles_read_alike(v1: JsonValue, v2: JsonValue)
    requires
        reads_alike(MessageKind::Bundle, v1, v2),
    ensures
        bundle_ok(v1) == bundle_ok(v2),
        forall|b: Bundle| #[trigger] bundle_is(v1, b) == bundle_is(v2, b),
        bundle_oneof_error(v1) == bundle_oneof_error(v2),
{
    let kind = MessageKind::Bundle;
    lemma_alike_fields(kind, v1, v2);
    if message_fields(message_names(kind), v1) is Some {
        let fs1 = message_fields(message_names(kind), v1)->0;
        let fs2 = message_fields(message_names(kind), v2)->0;
        assert(values_alike(field_kind(kind, 0), fs1[0], fs2[0]));
        assert(values_alike(field_kind(kind, 1), fs1[1], fs2[1]));
        assert(values_alike(field_kind(kind, 2), fs1[2], fs2[2]));
        assert(values_alike(field_kind(kind, 3), fs1[3], fs2[3]));
        lemma_alike_verification_material(fs1[1], fs2[1]);
        lemma_alike_nulls(MessageKind::VerificationMaterial, fs1[1], fs2[1]);
        lemma_alike_message_signature(fs1[2], fs2[2]);
        lemma_alike_nulls(MessageKind::MessageSignature, fs1[2], fs2[2]);
    }
}


// ---------------------------------------------------------------------------
// Field names
// ---------------------------------------------------------------------------

/// The fields of `Bundle` are named, in order, `mediaType` or `media_type`, `verificationMaterial` or `verification_material`, `messageSignature` or `message_signature`, `dsseEnvelope` or `dsse_envelope`: each field
/// answers to its JSON name and to its proto name, and to no other key.
pub proof fn law_bundle_field_names(key: Seq<char>)
    ensures
        field_index(bundle_names(), "mediaType"@) == Some(0int),
        field_index(bundle_names(), "media_type"@) == Some(0int),
        field_index(bundle_names(), "verificationMaterial"@) == Some(1int),
        field_index(bundle_names(), "verification_material"@) == Some(1int),
        field_index(bundle_names(), "messageSignature"@) == Some(2int),
        field_index(bundle_names(), "message_signature"@) == Some(2int),
        field_index(bundle_names(), "dsseEnvelope"@) == Some(3int),
        field_index(bundle_names(), "dsse_envelope"@) == Some(3int),
        field_index(bundle_names(), key) is Some ==> (key == "mediaType"@ || key == "media_type"@ || key == "verificationMaterial"@ || key == "verification_material"@ || key == "messageSignature"@ || key == "message_signature"@ || key == "dsseEnvelope"@ || key == "dsse_envelope"@),
{
    let names = bundle_names();
    reveal_strlit("mediaType");
    reveal_strlit("media_type");
    reveal_strlit("verificationMaterial");
    reveal_strlit("verification_material");
    reveal_strlit("messageSignature");
    reveal_strlit("message_signature");
    reveal_strlit("dsseEnvelope");
    reveal_strlit("dsse_envelope");
    lemma_field_index_is(names, "mediaType"@, 0);
    lemma_field_index_is(names, "media_type"@, 0);
    assert forall|g: int| 0 <= g < 1 implies #[trigger] names[g].0 != "verificationMaterial"@ && names[g].1
        != "verificationMaterial"@ by {
        if g == 0 { assert("mediaType"@.len() != "verificationMaterial"@.len()); assert("media_type"@.len() != "verificationMaterial"@.len()); }
    }
    lemma_field_index_is(names, "verificationMaterial"@, 1);
    assert forall|g: int| 0 <= g < 1 implies #[trigger] names[g].0 != "verification_material"@ && names[g].1
        != "verification_material"@ by {
        if g == 0 { assert("mediaType"@.len() != "verification_material"@.len()); assert("media_type"@.len() != "verification_material"@.len()); }
    }
    lemma_field_index_is(names, "verification_material"@, 1);
    assert forall|g: int| 0 <= g < 2 implies #[trigger] names[g].0 != "messageSignature"@ && names[g].1
        != "messageSignature"@ by {
        if g == 0 { assert("mediaType"@.len() != "messageSignature"@.len()); assert("media_type"@.len() != "messageSignature"@.len()); } else if g == 1 { assert("verificationMaterial"@.len() != "messageSignature"@.len()); assert("verification_material"@.len() != "messageSignature"@.len()); }
    }
    lemma_field_index_is(names, "messageSignature"@, 2);
    assert forall|g: int| 0 <= g < 2 implies #[trigger] names[g].0 != "message_signature"@ && names[g].1
        != "message_signature"@ by {
        if g == 0 { assert("mediaType"@.len() != "message_signature"@.len()); assert("media_type"@.len() != "message_signature"@.len()); } else if g == 1 { assert("verificationMaterial"@.len() != "message_signature"@.len()); assert("verification_material"@.len() != "message_signature"@.len()); }
    }
    lemma_field_index_is(names, "message_signature"@, 2);
    assert forall|g: int| 0 <= g < 3 implies #[trigger] names[g].0 != "dsseEnvelope"@ && names[g].1
        != "dsseEnvelope"@ by {
        if g == 0 { assert("mediaType"@.len() != "dsseEnvelope"@.len()); assert("media_type"@.len() != "dsseEnvelope"@.len()); } else if g == 1 { assert("verificationMaterial"@.len() != "dsseEnvelope"@.len()); assert("verification_material"@.len() != "dsseEnvelope"@.len()); } else if g == 2 { assert("messageSignature"@.len() != "dsseEnvelope"@.len()); assert("message_signature"@.len() != "dsseEnvelope"@.len()); }
    }
    lemma_field_index_is(names, "dsseEnvelope"@, 3);
    assert forall|g: int| 0 <= g < 3 implies #[trigger] names[g].0 != "dsse_envelope"@ && names[g].1
        != "dsse_envelope"@ by {
        if g == 0 { assert("mediaType"@.len() != "dsse_envelope"@.len()); assert("media_type"@.len() != "dsse_envelope"@.len()); } else if g == 1 { assert("verificationMaterial"@.len() != "dsse_envelope"@.len()); assert("verification_material"@.len() != "dsse_envelope"@.len()); } else if g == 2 { assert("messageSignature"@.len() != "dsse_envelope"@.len()); assert("message_signature"@.len() != "dsse_envelope"@.len()); }
    }
    lemma_field_index_is(names, "dsse_envelope"@, 3);
    lemma_field_index_names(names, key);
}

/// The fields of `VerificationMaterial` are named, in order, `certificate`, `publicKey` or `public_key`, `x509CertificateChain` or `x509_certificate_chain`, `tlogEntries` or `tlog_entries`, `timestampVerificationData` or `timestamp_verification_data`: each field
/// answers to its JSON name and to its proto name, and to no other key.
pub proof fn law_verification_material_field_names(key: Seq<char>)
    ensures
        field_index(verification_material_names(), "certificate"@) == Some(0int),
        field_index(verification_material_names(), "publicKey"@) == Some(1int),
        field_index(verification_material_names(), "public_key"@) == Some(1int),
        field_index(verification_material_names(), "x509CertificateChain"@) == Some(2int),
        field_index(verification_material_names(), "x509_certificate_chain"@) == Some(2int),
        field_index(verification_material_names(), "tlogEntries"@) == Some(3int),
        field_index(verification_material_names(), "tlog_entries"@) == Some(3int),
        field_index(verification_material_names(), "timestampVerificationData"@) == Some(4int),
        field_index(verification_material_names(), "timestamp_verification_data"@) == Some(4int),
        field_index(verification_material_names(), key) is Some ==> (key == "certificate"@ || key == "publicKey"@ || key == "public_key"@ || key == "x509CertificateChain"@ || key == "x509_certificate_chain"@ || key == "tlogEntries"@ || key == "tlog_entries"@ || key == "timestampVerificationData"@ || key == "timestamp_verification_data"@),
{
    let names = verification_material_names();
    reveal_strlit("certificate");
    reveal_strlit("publicKey");
    reveal_strlit("public_key");
    reveal_strlit("x509CertificateChain");
    reveal_strlit("x509_certificate_chain");
    reveal_strlit("tlogEntries");
    reveal_strlit("tlog_entries");
    reveal_strlit("timestampVerificationData");
    reveal_strlit("timestamp_verification_data");
    lemma_field_index_is(names, "certificate"@, 0);
    assert forall|g: int| 0 <= g < 1 implies #[trigger] names[g].0 != "publicKey"@ && names[g].1
        != "publicKey"@ by {
        if g == 0 { assert("certificate"@.len() != "publicKey"@.len()); }
    }
    lemma_field_index_is(names, "publicKey"@, 1);
    assert forall|g: int| 0 <= g < 1 implies #[trigger] names[g].0 != "public_key"@ && names[g].1
        != "public_key"@ by {
        if g == 0 { assert("certificate"@.len() != "public_key"@.len()); }
    }
    lemma_field_index_is(names, "public_key"@, 1);
    assert forall|g: int| 0 <= g < 2 implies #[trigger] names[g].0 != "x509CertificateChain"@ && names[g].1
        != "x509CertificateChain"@ by {
        if g == 0 { assert("certificate"@.len() != "x509CertificateChain"@.len()); } else if g == 1 { assert("publicKey"@.len() != "x509CertificateChain"@.len()); assert("public_key"@.len() != "x509CertificateChain"@.len()); }
    }
    lemma_field_index_is(names, "x509CertificateChain"@, 2);
    assert forall|g: int| 0 <= g < 2 implies #[trigger] names[g].0 != "x509_certificate_chain"@ && names[g].1
        != "x509_certificate_chain"@ by {
        if g == 0 { assert("certificate"@.len() != "x509_certificate_chain"@.len()); } else if g == 1 { assert("publicKey"@.len() != "x509_certificate_chain"@.len()); assert("public_key"@.len() != "x509_certificate_chain"@.len()); }
    }
    lemma_field_index_is(names, "x509_certificate_chain"@, 2);
    assert forall|g: int| 0 <= g < 3 implies #[trigger] names[g].0 != "tlogEntries"@ && names[g].1
        != "tlogEntries"@ by {
        if g == 0 { assert("certificate"@[0] != "tlogEntries"@[0]); } else if g == 1 { assert("publicKey"@.len() != "tlogEntries"@.len()); assert("public_key"@.len() != "tlogEntries"@.len()); } else if g == 2 { assert("x509CertificateChain"@.len() != "tlogEntries"@.len()); assert("x509_certificate_chain"@.len() != "tlogEntries"@.len()); }
    }
    lemma_field_index_is(names, "tlogEntries"@, 3);
    assert forall|g: int| 0 <= g < 3 implies #[trigger] names[g].0 != "tlog_entries"@ && names[g].1
        != "tlog_entries"@ by {
        if g == 0 { assert("certificate"@.len() != "tlog_entries"@.len()); } else if g == 1 { assert("publicKey"@.len() != "tlog_entries"@.len()); assert("public_key"@.len() != "tlog_entries"@.len()); } else if g == 2 { assert("x509CertificateChain"@.len() != "tlog_entries"@.len()); assert("x509_certificate_chain"@.len() != "tlog_entries"@.len()); }
    }
    lemma_field_index_is(names, "tlog_entries"@, 3);
    assert forall|g: int| 0 <= g < 4 implies #[trigger] names[g].0 != "timestampVerificationData"@ && names[g].1
        != "timestampVerificationData"@ by {
        if g == 0 { assert("certificate"@.len() != "timestampVerificationData"@.len()); } else if g == 1 { assert("publicKey"@.len() != "timestampVerificationData"@.len()); assert("public_key"@.len() != "timestampVerificationData"@.len()); } else if g == 2 { assert("x509CertificateChain"@.len() != "timestampVerificationData"@.len()); assert("x509_certificate_chain"@.len() != "timestampVerificationData"@.len()); } else if g == 3 { assert("tlogEntries"@.len() != "timestampVerificationData"@.len()); assert("tlog_entries"@.len() != "timestampVerificationData"@.len()); }
    }
    lemma_field_index_is(names, "timestampVerificationData"@, 4);
    assert forall|g: int| 0 <= g < 4 implies #[trigger] names[g].0 != "timestamp_verification_data"@ && names[g].1
        != "timestamp_verification_data"@ by {
        if g == 0 { assert("certificate"@.len() != "timestamp_verification_data"@.len()); } else if g == 1 { assert("publicKey"@.len() != "timestamp_verification_data"@.len()); assert("public_key"@.len() != "timestamp_verification_data"@.len()); } else if g == 2 { assert("x509CertificateChain"@.len() != "timestamp_verification_data"@.len()); assert("x509_certificate_chain"@.len() != "timestamp_verification_data"@.len()); } else if g == 3 { assert("tlogEntries"@.len() != "timestamp_verification_data"@.len()); assert("tlog_entries"@.len() != "timestamp_verification_data"@.len()); }
    }
    lemma_field_index_is(names, "timestamp_verification_data"@, 4);
    lemma_field_index_names(names, key);
}

/// The fields of `X509Certificate` are named, in order, `rawBytes` or `raw_bytes`: each field
/// answers to its JSON name and to its proto name, and to no other key.
pub proof fn law_x509_certificate_field_names(key: Seq<char>)
    ensures
        field_index(x509_certificate_names(), "rawBytes"@) == Some(0int),
        field_index(x509_certificate_names(), "raw_bytes"@) == Some(0int),
        field_index(x509_certificate_names(), key) is Some ==> (key == "rawBytes"@ || key == "raw_bytes"@),
{
    let names = x509_certificate_names();
    reveal_strlit("rawBytes");
    reveal_strlit("raw_bytes");
    lemma_field_index_is(names, "rawBytes"@, 0);
    lemma_field_index_is(names, "raw_bytes"@, 0);
    lemma_field_index_names(names, key);
}

/// The fields of `TimestampVerificationData` are named, in order, `rfc3161Timestamps` or `rfc3161_timestamps`: each field
/// answers to its JSON name and to its proto name, and to no other key.
pub proof fn law_timestamp_verification_data_field_names(key: Seq<char>)
    ensures
        field_index(timestamp_verification_data_names(), "rfc3161Timestamps"@) == Some(0int),
        field_index(timestamp_verification_data_names(), "rfc3161_timestamps"@) == Some(0int),
        field_index(timestamp_verification_data_names(), key) is Some ==> (key == "rfc3161Timestamps"@ || key == "rfc3161_timestamps"@),
{
    let names = timestamp_verification_data_names();
    reveal_strlit("rfc3161Timestamps");
    reveal_strlit("rfc3161_timestamps");
    lemma_field_index_is(names, "rfc3161Timestamps"@, 0);
    lemma_field_index_is(names, "rfc3161_timestamps"@, 0);
    lemma_field_index_names(names, key);
}

/// The fields of `RFC3161SignedTimestamp` are named, in order, `signedTimestamp` or `signed_timestamp`: each field
/// answers to its JSON name and to its proto name, and to no other key.
pub proof fn law_rfc3161_signed_timestamp_field_names(key: Seq<char>)
    ensures
        field_index(rfc3161_signed_timestamp_names(), "signedTimestamp"@) == Some(0int),
        field_index(rfc3161_signed_timestamp_names(), "signed_timestamp"@) == Some(0int),
        field_index(rfc3161_signed_timestamp_names(), key) is Some ==> (key == "signedTimestamp"@ || key == "signed_timestamp"@),
{
    let names = rfc3161_signed_timestamp_names();
    reveal_strlit("signedTimestamp");
    reveal_strlit("signed_timestamp");
    lemma_field_index_is(names, "signedTimestamp"@, 0);
    lemma_field_index_is(names, "signed_timestamp"@, 0);
    lemma_field_index_names(names, key);
}

/// The fields of `MessageSignature` are named, in order, `messageDigest` or `message_digest`, `signature`: each field
/// answers to its JSON name and to its proto name, and to no other key.
pub proof fn law_message_signature_field_names(key: Seq<char>)
    ensures
        field_index(message_signature_names(), "messageDigest"@) == Some(0int),
        field_index(message_signature_names(), "message_digest"@) == Some(0int),
        field_index(message_signature_names(), "signature"@) == Some(1int),
        field_index(message_signature_names(), key) is Some ==> (key == "messageDigest"@ || key == "message_digest"@ || key == "signature"@),
{
    let names = message_signature_names();
    reveal_strlit("messageDigest");
    reveal_strlit("message_digest");
    reveal_strlit("signature");
    lemma_field_index_is(names, "messageDigest"@, 0);
    lemma_field_index_is(names, "message_digest"@, 0);
    assert forall|g: int| 0 <= g < 1 implies #[trigger] names[g].0 != "signature"@ && names[g].1
        != "signature"@ by {
        if g == 0 { assert("messageDigest"@.len() != "signature"@.len()); assert("message_digest"@.len() != "signature"@.len()); }
    }
    lemma_field_index_is(names, "signature"@, 1);
    lemma_field_index_names(names, key);
}

/// The fields of `HashOutput` are named, in order, `algorithm`, `digest`: each field
/// answers to its JSON name and to its proto name, and to no other key.
pub proof fn law_hash_output_field_names(key: Seq<char>)
    ensures
        field_index(hash_output_names(), "algorithm"@) == Some(0int),
        field_index(hash_output_names(), "digest"@) == Some(1int),
        field_index(hash_output_names(), key) is Some ==> (key == "algorithm"@ || key == "digest"@),
{
    let names = hash_output_names();
    reveal_strlit("algorithm");
    reveal_strlit("digest");
    lemma_field_index_is(names, "algorithm"@, 0);
    assert forall|g: int| 0 <= g < 1 implies #[trigger] names[g].0 != "digest"@ && names[g].1
        != "digest"@ by {
        if g == 0 { assert("algorithm"@.len() != "digest"@.len()); }
    }
    lemma_field_index_is(names, "digest"@, 1);
    lemma_field_index_names(names, key);
}

/// The fields of `TransparencyLogEntry` are named, in order, `logIndex` or `log_index`, `logId` or `log_id`, `kindVersion` or `kind_version`, `integratedTime` or `integrated_time`, `inclusionPromise` or `inclusion_promise`, `inclusionProof` or `inclusion_proof`, `canonicalizedBody` or `canonicalized_body`: each field
/// answers to its JSON name and to its proto name, and to no other key.
pub proof fn law_transparency_log_entry_field_names(key: Seq<char>)
    ensures
        field_index(transparency_log_entry_names(), "logIndex"@) == Some(0int),
        field_index(transparency_log_entry_names(), "log_index"@) == Some(0int),
        field_index(transparency_log_entry_names(), "logId"@) == Some(1int),
        field_index(transparency_log_entry_names(), "log_id"@) == Some(1int),
        field_index(transparency_log_entry_names(), "kindVersion"@) == Some(2int),
        field_index(transparency_log_entry_names(), "kind_version"@) == Some(2int),
        field_index(transparency_log_entry_names(), "integratedTime"@) == Some(3int),
        field_index(transparency_log_entry_names(), "integrated_time"@) == Some(3int),
        field_index(transparency_log_entry_names(), "inclusionPromise"@) == Some(4int),
        field_index(transparency_log_entry_names(), "inclusion_promise"@) == Some(4int),
        field_index(transparency_log_entry_names(), "inclusionProof"@) == Some(5int),
        field_index(transparency_log_entry_names(), "inclusion_proof"@) == Some(5int),
        field_index(transparency_log_entry_names(), "canonicalizedBody"@) == Some(6int),
        field_index(transparency_log_entry_names(), "canonicalized_body"@) == Some(6int),
        field_index(transparency_log_entry_names(), key) is Some ==> (key == "logIndex"@ || key == "log_index"@ || key == "logId"@ || key == "log_id"@ || key == "kindVersion"@ || key == "kind_version"@ || key == "integratedTime"@ || key == "integrated_time"@ || key == "inclusionPromise"@ || key == "inclusion_promise"@ || key == "inclusionProof"@ || key == "inclusion_proof"@ || key == "canonicalizedBody"@ || key == "canonicalized_body"@),
{
    let names = transparency_log_entry_names();
    reveal_strlit("logIndex");
    reveal_strlit("log_index");
    reveal_strlit("logId");
    reveal_strlit("log_id");
    reveal_strlit("kindVersion");
    reveal_strlit("kind_version");
    reveal_strlit("integratedTime");
    reveal_strlit("integrated_time");
    reveal_strlit("inclusionPromise");
    reveal_strlit("inclusion_promise");
    reveal_strlit("inclusionProof");
    reveal_strlit("inclusion_proof");
    reveal_strlit("canonicalizedBody");
    reveal_strlit("canonicalized_body");
    lemma_field_index_is(names, "logIndex"@, 0);
    lemma_field_index_is(names, "log_index"@, 0);
    assert forall|g: int| 0 <= g < 1 implies #[trigger] names[g].0 != "logId"@ && names[g].1
        != "logId"@ by {
        if g == 0 { assert("logIndex"@.len() != "logId"@.len()); assert("log_index"@.len() != "logId"@.len()); }
    }
    lemma_field_index_is(names, "logId"@, 1);
    assert forall|g: int| 0 <= g < 1 implies #[trigger] names[g].0 != "log_id"@ && names[g].1
        != "log_id"@ by {
        if g == 0 { assert("logIndex"@.len() != "log_id"@.len()); assert("log_index"@.len() != "log_id"@.len()); }
    }
    lemma_field_index_is(names, "log_id"@, 1);
    assert forall|g: int| 0 <= g < 2 implies #[trigger] names[g].0 != "kindVersion"@ && names[g].1
        != "kindVersion"@ by {
        if g == 0 { assert("logIndex"@.len() != "kindVersion"@.len()); assert("log_index"@.len() != "kindVersion"@.len()); } else if g == 1 { assert("logId"@.len() != "kindVersion"@.len()); assert("log_id"@.len() != "kindVersion"@.len()); }
    }
    lemma_field_index_is(names, "kindVersion"@, 2);
    assert forall|g: int| 0 <= g < 2 implies #[trigger] names[g].0 != "kind_version"@ && names[g].1
        != "kind_version"@ by {
        if g == 0 { assert("logIndex"@.len() != "kind_version"@.len()); assert("log_index"@.len() != "kind_version"@.len()); } else if g == 1 { assert("logId"@.len() != "kind_version"@.len()); assert("log_id"@.len() != "kind_version"@.len()); }
    }
    lemma_field_index_is(names, "kind_version"@, 2);
    assert forall|g: int| 0 <= g < 3 implies #[trigger] names[g].0 != "integratedTime"@ && names[g].1
        != "integratedTime"@ by {
        if g == 0 { assert("logIndex"@.len() != "integratedTime"@.len()); assert("log_index"@.len() != "integratedTime"@.len()); } else if g == 1 { assert("logId"@.len() != "integratedTime"@.len()); assert("log_id"@.len() != "integratedTime"@.len()); } else if g == 2 { assert("kindVersion"@.len() != "integratedTime"@.len()); assert("kind_version"@.len() != "integratedTime"@.len()); }
    }
    lemma_field_index_is(names, "integratedTime"@, 3);
    assert forall|g: int| 0 <= g < 3 implies #[trigger] names[g].0 != "integrated_time"@ && names[g].1
        != "integrated_time"@ by {
        if g == 0 { assert("logIndex"@.len() != "integrated_time"@.len()); assert("log_index"@.len() != "integrated_time"@.len()); } else if g == 1 { assert("logId"@.len() != "integrated_time"@.len()); assert("log_id"@.len() != "integrated_time"@.len()); } else if g == 2 { assert("kindVersion"@.len() != "integrated_time"@.len()); assert("kind_version"@.len() != "integrated_time"@.len()); }
    }
    lemma_field_index_is(names, "integrated_time"@, 3);
    assert forall|g: int| 0 <= g < 4 implies #[trigger] names[g].0 != "inclusionPromise"@ && names[g].1
        != "inclusionPromise"@ by {
        if g == 0 { assert("logIndex"@.len() != "inclusionPromise"@.len()); assert("log_index"@.len() != "inclusionPromise"@.len()); } else if g == 1 { assert("logId"@.len() != "inclusionPromise"@.len()); assert("log_id"@.len() != "inclusionPromise"@.len()); } else if g == 2 { assert("kindVersion"@.len() != "inclusionPromise"@.len()); assert("kind_version"@.len() != "inclusionPromise"@.len()); } else if g == 3 { assert("integratedTime"@.len() != "inclusionPromise"@.len()); assert("integrated_time"@.len() != "inclusionPromise"@.len()); }
    }
    lemma_field_index_is(names, "inclusionPromise"@, 4);
    assert forall|g: int| 0 <= g < 4 implies #[trigger] names[g].0 != "inclusion_promise"@ && names[g].1
        != "inclusion_promise"@ by {
        if g == 0 { assert("logIndex"@.len() != "inclusion_promise"@.len()); assert("log_index"@.len() != "inclusion_promise"@.len()); } else if g == 1 { assert("logId"@.len() != "inclusion_promise"@.len()); assert("log_id"@.len() != "inclusion_promise"@.len()); } else if g == 2 { assert("kindVersion"@.len() != "inclusion_promise"@.len()); assert("kind_version"@.len() != "inclusion_promise"@.len()); } else if g == 3 { assert("integratedTime"@.len() != "inclusion_promise"@.len()); assert("integrated_time"@.len() != "inclusion_promise"@.len()); }
    }
    lemma_field_index_is(names, "inclusion_promise"@, 4);
    assert forall|g: int| 0 <= g < 5 implies #[trigger] names[g].0 != "inclusionProof"@ && names[g].1
        != "inclusionProof"@ by {
        if g == 0 { assert("logIndex"@.len() != "inclusionProof"@.len()); assert("log_index"@.len() != "inclusionProof"@.len()); } else if g == 1 { assert("logId"@.len() != "inclusionProof"@.len()); assert("log_id"@.len() != "inclusionProof"@.len()); } else if g == 2 { assert("kindVersion"@.len() != "inclusionProof"@.len()); assert("kind_version"@.len() != "inclusionProof"@.len()); } else if g == 3 { assert("integratedTime"@[2] != "inclusionProof"@[2]); assert("integrated_time"@.len() != "inclusionProof"@.len()); } else if g == 4 { assert("inclusionPromise"@.len() != "inclusionProof"@.len()); assert("inclusion_promise"@.len() != "inclusionProof"@.len()); }
    }
    lemma_field_index_is(names, "inclusionProof"@, 5);
    assert forall|g: int| 0 <= g < 5 implies #[trigger] names[g].0 != "inclusion_proof"@ && names[g].1
        != "inclusion_proof"@ by {
        if g == 0 { assert("logIndex"@.len() != "inclusion_proof"@.len()); assert("log_index"@.len() != "inclusion_proof"@.len()); } else if g == 1 { assert("logId"@.len() != "inclusion_proof"@.len()); assert("log_id"@.len() != "inclusion_proof"@.len()); } else if g == 2 { assert("kindVersion"@.len() != "inclusion_proof"@.len()); assert("kind_version"@.len() != "inclusion_proof"@.len()); } else if g == 3 { assert("integratedTime"@.len() != "inclusion_proof"@.len()); assert("integrated_time"@[2] != "inclusion_proof"@[2]); } else if g == 4 { assert("inclusionPromise"@.len() != "inclusion_proof"@.len()); assert("inclusion_promise"@.len() != "inclusion_proof"@.len()); }
    }
    lemma_field_index_is(names, "inclusion_proof"@, 5);
    assert forall|g: int| 0 <= g < 6 implies #[trigger] names[g].0 != "canonicalizedBody"@ && names[g].1
        != "canonicalizedBody"@ by {
        if g == 0 { assert("logIndex"@.len() != "canonicalizedBody"@.len()); assert("log_index"@.len() != "canonicalizedBody"@.len()); } else if g == 1 { assert("logId"@.len() != "canonicalizedBody"@.len()); assert("log_id"@.len() != "canonicalizedBody"@.len()); } else if g == 2 { assert("kindVersion"@.len() != "canonicalizedBody"@.len()); assert("kind_version"@.len() != "canonicalizedBody"@.len()); } else if g == 3 { assert("integratedTime"@.len() != "canonicalizedBody"@.len()); assert("integrated_time"@.len() != "canonicalizedBody"@.len()); } else if g == 4 { assert("inclusionPromise"@.len() != "canonicalizedBody"@.len()); assert("inclusion_promise"@[0] != "canonicalizedBody"@[0]); } else if g == 5 { assert("inclusionProof"@.len() != "canonicalizedBody"@.len()); assert("inclusion_proof"@.len() != "canonicalizedBody"@.len()); }
    }
    lemma_field_index_is(names, "canonicalizedBody"@, 6);
    assert forall|g: int| 0 <= g < 6 implies #[trigger] names[g].0 != "canonicalized_body"@ && names[g].1
        != "canonicalized_body"@ by {
        if g == 0 { assert("logIndex"@.len() != "canonicalized_body"@.len()); assert("log_index"@.len() != "canonicalized_body"@.len()); } else if g == 1 { assert("logId"@.len() != "canonicalized_body"@.len()); assert("log_id"@.len() != "canonicalized_body"@.len()); } else if g == 2 { assert("kindVersion"@.len() != "canonicalized_body"@.len()); assert("kind_version"@.len() != "canonicalized_body"@.len()); } else if g == 3 { assert("integratedTime"@.len() != "canonicalized_body"@.len()); assert("integrated_time"@.len() != "canonicalized_body"@.len()); } else if g == 4 { assert("inclusionPromise"@.len() != "canonicalized_body"@.len()); assert("inclusion_promise"@.len() != "canonicalized_body"@.len()); } else if g == 5 { assert("inclusionProof"@.len() != "canonicalized_body"@.len()); assert("inclusion_proof"@.len() != "canonicalized_body"@.len()); }
    }
    lemma_field_index_is(names, "canonicalized_body"@, 6);
    lemma_field_index_names(names, key);
}

/// The fields of `LogId` are named, in order, `keyId` or `key_id`: each field
/// answers to its JSON name and to its proto name, and to no other key.
pub proof fn law_log_id_field_names(key: Seq<char>)
    ensures
        field_index(log_id_names(), "keyId"@) == Some(0int),
        field_index(log_id_names(), "key_id"@) == Some(0int),
        field_index(log_id_names(), key) is Some ==> (key == "keyId"@ || key == "key_id"@),
{
    let names = log_id_names();
    reveal_strlit("keyId");
    reveal_strlit("key_id");
    lemma_field_index_is(names, "keyId"@, 0);
    lemma_field_index_is(names, "key_id"@, 0);
    lemma_field_index_names(names, key);
}

/// The fields of `KindVersion` are named, in order, `kind`, `version`: each field
/// answers to its JSON name and to its proto name, and to no other key.
pub proof fn law_kind_version_field_names(key: Seq<char>)
    ensures
        field_index(kind_version_names(), "kind"@) == Some(0int),
        field_index(kind_version_names(), "version"@) == Some(1int),
        field_index(kind_version_names(), key) is Some ==> (key == "kind"@ || key == "version"@),
{
    let names = kind_version_names();
    reveal_strlit("kind");
    reveal_strlit("version");
    lemma_field_index_is(names, "kind"@, 0);
    assert forall|g: int| 0 <= g < 1 implies #[trigger] names[g].0 != "version"@ && names[g].1
        != "version"@ by {
        if g == 0 { assert("kind"@.len() != "version"@.len()); }
    }
    lemma_field_index_is(names, "version"@, 1);
    lemma_field_index_names(names, key);
}

/// The fields of `InclusionPromise` are named, in order, `signedEntryTimestamp` or `signed_entry_timestamp`: each field
/// answers to its JSON name and to its proto name, and to no other key.
pub proof fn law_inclusion_promise_field_names(key: Seq<char>)
    ensures
        field_index(inclusion_promise_names(), "signedEntryTimestamp"@) == Some(0int),
        field_index(inclusion_promise_names(), "signed_entry_timestamp"@) == Some(0int),
        field_index(inclusion_promise_names(), key) is Some ==> (key == "signedEntryTimestamp"@ || key == "signed_entry_timestamp"@),
{
    let names = inclusion_promise_names();
    reveal_strlit("signedEntryTimestamp");
    reveal_strlit("signed_entry_timestamp");
    lemma_field_index_is(names, "signedEntryTimestamp"@, 0);
    lemma_field_index_is(names, "signed_entry_timestamp"@, 0);
    lemma_field_index_names(names, key);
}

/// The fields of `InclusionProof` are named, in order, `logIndex` or `log_index`, `rootHash` or `root_hash`, `treeSize` or `tree_size`, `hashes`, `checkpoint`: each field
/// answers to its JSON name and to its proto name, and to no other key.
pub proof fn law_inclusion_proof_field_names(key: Seq<char>)
    ensures
        field_index(inclusion_proof_names(), "logIndex"@) == Some(0int),
        field_index(inclusion_proof_names(), "log_index"@) == Some(0int),
        field_index(inclusion_proof_names(), "rootHash"@) == Some(1int),
        field_index(inclusion_proof_names(), "root_hash"@) == Some(1int),
        field_index(inclusion_proof_names(), "treeSize"@) == Some(2int),
        field_index(inclusion_proof_names(), "tree_size"@) == Some(2int),
        field_index(inclusion_proof_names(), "hashes"@) == Some(3int),
        field_index(inclusion_proof_names(), "checkpoint"@) == Some(4int),
        field_index(inclusion_proof_names(), key) is Some ==> (key == "logIndex"@ || key == "log_index"@ || key == "rootHash"@ || key == "root_hash"@ || key == "treeSize"@ || key == "tree_size"@ || key == "hashes"@ || key == "checkpoint"@),
{
    let names = inclusion_proof_names();
    reveal_strlit("logIndex");
    reveal_strlit("log_index");
    reveal_strlit("rootHash");
    reveal_strlit("root_hash");
    reveal_strlit("treeSize");
    reveal_strlit("tree_size");
    reveal_strlit("hashes");
    reveal_strlit("checkpoint");
    lemma_field_index_is(names, "logIndex"@, 0);
    lemma_field_index_is(names, "log_index"@, 0);
    assert forall|g: int| 0 <= g < 1 implies #[trigger] names[g].0 != "rootHash"@ && names[g].1
        != "rootHash"@ by {
        if g == 0 { assert("logIndex"@[0] != "rootHash"@[0]); assert("log_index"@.len() != "rootHash"@.len()); }
    }
    lemma_field_index_is(names, "rootHash"@, 1);
    assert forall|g: int| 0 <= g < 1 implies #[trigger] names[g].0 != "root_hash"@ && names[g].1
        != "root_hash"@ by {
        if g == 0 { assert("logIndex"@.len() != "root_hash"@.len()); assert("log_index"@[0] != "root_hash"@[0]); }
    }
    lemma_field_index_is(names, "root_hash"@, 1);
    assert forall|g: int| 0 <= g < 2 implies #[trigger] names[g].0 != "treeSize"@ && names[g].1
        != "treeSize"@ by {
        if g == 0 { assert("logIndex"@[0] != "treeSize"@[0]); assert("log_index"@.len() != "treeSize"@.len()); } else if g == 1 { assert("rootHash"@[0] != "treeSize"@[0]); assert("root_hash"@.len() != "treeSize"@.len()); }
    }
    lemma_field_index_is(names, "treeSize"@, 2);
    assert forall|g: int| 0 <= g < 2 implies #[trigger] names[g].0 != "tree_size"@ && names[g].1
        != "tree_size"@ by {
        if g == 0 { assert("logIndex"@.len() != "tree_size"@.len()); assert("log_index"@[0] != "tree_size"@[0]); } else if g == 1 { assert("rootHash"@.len() != "tree_size"@.len()); assert("root_hash"@[0] != "tree_size"@[0]); }
    }
    lemma_field_index_is(names, "tree_size"@, 2);
    assert forall|g: int| 0 <= g < 3 implies #[trigger] names[g].0 != "hashes"@ && names[g].1
        != "hashes"@ by {
        if g == 0 { assert("logIndex"@.len() != "hashes"@.len()); assert("log_index"@.len() != "hashes"@.len()); } else if g == 1 { assert("rootHash"@.len() != "hashes"@.len()); assert("root_hash"@.len() != "hashes"@.len()); } else if g == 2 { assert("treeSize"@.len() != "hashes"@.len()); assert("tree_size"@.len() != "hashes"@.len()); }
    }
    lemma_field_index_is(names, "hashes"@, 3);
    assert forall|g: int| 0 <= g < 4 implies #[trigger] names[g].0 != "checkpoint"@ && names[g].1
        != "checkpoint"@ by {
        if g == 0 { assert("logIndex"@.len() != "checkpoint"@.len()); assert("log_index"@.len() != "checkpoint"@.len()); } else if g == 1 { assert("rootHash"@.len() != "checkpoint"@.len()); assert("root_hash"@.len() != "checkpoint"@.len()); } else if g == 2 { assert("treeSize"@.len() != "checkpoint"@.len()); assert("tree_size"@.len() != "checkpoint"@.len()); } else if g == 3 { assert("hashes"@.len() != "checkpoint"@.len()); }
    }
    lemma_field_index_is(names, "checkpoint"@, 4);
    lemma_field_index_names(names, key);
}

/// The fields of `Checkpoint` are named, in order, `envelope`: each field
/// answers to its JSON name and to its proto name, and to no other key.
pub proof fn law_checkpoint_field_names(key: Seq<char>)
    ensures
        field_index(checkpoint_names(), "envelope"@) == Some(0int),
        field_index(checkpoint_names(), key) is Some ==> (key == "envelope"@),
{
    let names = checkpoint_names();
    reveal_strlit("envelope");
    lemma_field_index_is(names, "envelope"@, 0);
    lemma_field_index_names(names, key);
}

/// What a `Checkpoint` read from a document holds is what the document's
/// members give under either name of each field, with the field's default
/// where neither name is a key.
/// Its envelope is the member's whole text, verbatim.
pub proof fn law_checkpoint_reads_its_members(v: JsonValue, c: Checkpoint)
    requires
        checkpoint_is(v, c),
    ensures
        string_of(member_named(v, "envelope"@, "envelope"@)) == Some(c.envelope@),
        member_named(v, "envelope"@, "envelope"@) matches JsonValue::String(text) ==> c.envelope@ == text@,
{
    let names = checkpoint_names();
    assert forall|key: Seq<char>| #[trigger] field_index(names, key) == Some(0int) <==> (key == "envelope"@) by {
        law_checkpoint_field_names(key);
    }
    lemma_member_named_is_field(names, v, "envelope"@, "envelope"@, 0);
}

/// What a `LogId` read from a document holds is what the document's
/// members give under either name of each field, with the field's default
/// where neither name is a key.
pub proof fn law_log_id_reads_its_members(v: JsonValue, l: LogId)
    requires
        log_id_is(v, l),
    ensures
        bytes_of(member_named(v, "keyId"@, "key_id"@)) == Some(l.key_id@),
{
    let names = log_id_names();
    assert forall|key: Seq<char>| #[trigger] field_index(names, key) == Some(0int) <==> (key == "keyId"@ || key == "key_id"@) by {
        law_log_id_field_names(key);
    }
    lemma_member_named_is_field(names, v, "keyId"@, "key_id"@, 0);
}

/// What a `KindVersion` read from a document holds is what the document's
/// members give under either name of each field, with the field's default
/// where neither name is a key.
pub proof fn law_kind_version_reads_its_members(v: JsonValue, k: KindVersion)
    requires
        kind_version_is(v, k),
    ensures
        string_of(member_named(v, "kind"@, "kind"@)) == Some(k.kind@),
        string_of(member_named(v, "version"@, "version"@)) == Some(k.version@),
{
    let names = kind_version_names();
    assert forall|key: Seq<char>| #[trigger] field_index(names, key) == Some(0int) <==> (key == "kind"@) by {
        law_kind_version_field_names(key);
    }
    lemma_member_named_is_field(names, v, "kind"@, "kind"@, 0);
    assert forall|key: Seq<char>| #[trigger] field_index(names, key) == Some(1int) <==> (key == "version"@) by {
        law_kind_version_field_names(key);
    }
    lemma_member_named_is_field(names, v, "version"@, "version"@, 1);
}

/// What an `InclusionPromise` read from a document holds is what the document's
/// members give under either name of each field, with the field's default
/// where neither name is a key.
pub proof fn law_inclusion_promise_reads_its_members(v: JsonValue, p: InclusionPromise)
    requires
        inclusion_promise_is(v, p),
    ensures
        bytes_of(member_named(v, "signedEntryTimestamp"@, "signed_entry_timestamp"@)) == Some(p.signed_entry_timestamp@),
{
    let names = inclusion_promise_names();
    assert forall|key: Seq<char>| #[trigger] field_index(names, key) == Some(0int) <==> (key == "signedEntryTimestamp"@ || key == "signed_entry_timestamp"@) by {
        law_inclusion_promise_field_names(key);
    }
    lemma_member_named_is_field(names, v, "signedEntryTimestamp"@, "signed_entry_timestamp"@, 0);
}

/// What an `InclusionProof` read from a document holds is what the document's
/// members give under either name of each field, with the field's default
/// where neither name is a key.
pub proof fn law_inclusion_proof_reads_its_members(v: JsonValue, p: InclusionProof)
    requires
        inclusion_proof_is(v, p),
    ensures
        int64_of(member_named(v, "logIndex"@, "log_index"@)) == Some(p.log_index),
        bytes_of(member_named(v, "rootHash"@, "root_hash"@)) == Some(p.root_hash@),
        int64_of(member_named(v, "treeSize"@, "tree_size"@)) == Some(p.tree_size),
        bytes_list_is(member_named(v, "hashes"@, "hashes"@), p.hashes@),
        optional_is(member_named(v, "checkpoint"@, "checkpoint"@), p.checkpoint, |x: JsonValue, c: Checkpoint| checkpoint_is(x, c)),
{
    let names = inclusion_proof_names();
    assert forall|key: Seq<char>| #[trigger] field_index(names, key) == Some(0int) <==> (key == "logIndex"@ || key == "log_index"@) by {
        law_inclusion_proof_field_names(key);
    }
    lemma_member_named_is_field(names, v, "logIndex"@, "log_index"@, 0);
    assert forall|key: Seq<char>| #[trigger] field_index(names, key) == Some(1int) <==> (key == "rootHash"@ || key == "root_hash"@) by {
        law_inclusion_proof_field_names(key);
    }
    lemma_member_named_is_field(names, v, "rootHash"@, "root_hash"@, 1);
    assert forall|key: Seq<char>| #[trigger] field_index(names, key) == Some(2int) <==> (key == "treeSize"@ || key == "tree_size"@) by {
        law_inclusion_proof_field_names(key);
    }
    lemma_member_named_is_field(names, v, "treeSize"@, "tree_size"@, 2);
    assert forall|key: Seq<char>| #[trigger] field_index(names, key) == Some(3int) <==> (key == "hashes"@) by {
        law_inclusion_proof_field_names(key);
    }
    lemma_member_named_is_field(names, v, "hashes"@, "hashes"@, 3);
    assert forall|key: Seq<char>| #[trigger] field_index(names, key) == Some(4int) <==> (key == "checkpoint"@) by {
        law_inclusion_proof_field_names(key);
    }
    lemma_member_named_is_field(names, v, "checkpoint"@, "checkpoint"@, 4);
}

/// What a `TransparencyLogEntry` read from a document holds is what the document's
/// members give under either name of each field, with the field's default
/// where neither name is a key.
pub proof fn law_transparency_log_entry_reads_its_members(v: JsonValue, e: TransparencyLogEntry)
    requires
        transparency_log_entry_is(v, e),
    ensures
        int64_of(member_named(v, "logIndex"@, "log_index"@)) == Some(e.log_index),
        optional_is(member_named(v, "logId"@, "log_id"@), e.log_id, |x: JsonValue, l: LogId| log_id_is(x, l)),
        optional_is(member_named(v, "kindVersion"@, "kind_version"@), e.kind_version, |x: JsonValue, k: KindVersion| kind_version_is(x, k)),
        int64_of(member_named(v, "integratedTime"@, "integrated_time"@)) == Some(e.integrated_time),
        optional_is(member_named(v, "inclusionPromise"@, "inclusion_promise"@), e.inclusion_promise, |x: JsonValue, p: InclusionPromise| inclusion_promise_is(x, p)),
        optional_is(member_named(v, "inclusionProof"@, "inclusion_proof"@), e.inclusion_proof, |x: JsonValue, p: InclusionProof| inclusion_proof_is(x, p)),
        bytes_of(member_named(v, "canonicalizedBody"@, "canonicalized_body"@)) == Some(e.canonicalized_body@),
{
    let names = transparency_log_entry_names();
    assert forall|key: Seq<char>| #[trigger] field_index(names, key) == Some(0int) <==> (key == "logIndex"@ || key == "log_index"@) by {
        law_transparency_log_entry_field_names(key);
    }
    lemma_member_named_is_field(names, v, "logIndex"@, "log_index"@, 0);
    assert forall|key: Seq<char>| #[trigger] field_index(names, key) == Some(1int) <==> (key == "logId"@ || key == "log_id"@) by {
        law_transparency_log_entry_field_names(key);
    }
    lemma_member_named_is_field(names, v, "logId"@, "log_id"@, 1);
    assert forall|key: Seq<char>| #[trigger] field_index(names, key) == Some(2int) <==> (key == "kindVersion"@ || key == "kind_version"@) by {
        law_transparency_log_entry_field_names(key);
    }
    lemma_member_named_is_field(names, v, "kindVersion"@, "kind_version"@, 2);
    assert forall|key: Seq<char>| #[trigger] field_index(names, key) == Some(3int) <==> (key == "integratedTime"@ || key == "integrated_time"@) by {
        law_transparency_log_entry_field_names(key);
    }
    lemma_member_named_is_field(names, v, "integratedTime"@, "integrated_time"@, 3);
    assert forall|key: Seq<char>| #[trigger] field_index(names, key) == Some(4int) <==> (key == "inclusionPromise"@ || key == "inclusion_promise"@) by {
        law_transparency_log_entry_field_names(key);
    }
    lemma_member_named_is_field(names, v, "inclusionPromise"@, "inclusion_promise"@, 4);
    assert forall|key: Seq<char>| #[trigger] field_index(names, key) == Some(5int) <==> (key == "inclusionProof"@ || key == "inclusion_proof"@) by {
        law_transparency_log_entry_field_names(key);
    }
    lemma_member_named_is_field(names, v, "inclusionProof"@, "inclusion_proof"@, 5);
    assert forall|key: Seq<char>| #[trigger] field_index(names, key) == Some(6int) <==> (key == "canonicalizedBody"@ || key == "canonicalized_body"@) by {
        law_transparency_log_entry_field_names(key);
    }
    lemma_member_named_is_field(names, v, "canonicalizedBody"@, "canonicalized_body"@, 6);
}

/// What an `X509Certificate` read from a document holds is what the document's
/// members give under either name of each field, with the field's default
/// where neither name is a key.
pub proof fn law_x509_certificate_reads_its_members(v: JsonValue, c: X509Certificate)
    requires
        x509_certificate_is(v, c),
    ensures
        bytes_of(member_named(v, "rawBytes"@, "raw_bytes"@)) == Some(c.raw_bytes@),
{
    let names = x509_certificate_names();
    assert forall|key: Seq<char>| #[trigger] field_index(names, key) == Some(0int) <==> (key == "rawBytes"@ || key == "raw_bytes"@) by {
        law_x509_certificate_field_names(key);
    }
    lemma_member_named_is_field(names, v, "rawBytes"@, "raw_bytes"@, 0);
}

/// What a `Rfc3161SignedTimestamp` read from a document holds is what the document's
/// members give under either name of each field, with the field's default
/// where neither name is a key.
pub proof fn law_rfc3161_signed_timestamp_reads_its_members(v: JsonValue, t: Rfc3161SignedTimestamp)
    requires
        rfc3161_signed_timestamp_is(v, t),
    ensures
        bytes_of(member_named(v, "signedTimestamp"@, "signed_timestamp"@)) == Some(t.signed_timestamp@),
{
    let names = rfc3161_signed_timestamp_names();
    assert forall|key: Seq<char>| #[trigger] field_index(names, key) == Some(0int) <==> (key == "signedTimestamp"@ || key == "signed_timestamp"@) by {
        law_rfc3161_signed_timestamp_field_names(key);
    }
    lemma_member_named_is_field(names, v, "signedTimestamp"@, "signed_timestamp"@, 0);
}

/// What a `TimestampVerificationData` read from a document holds is what the document's
/// members give under either name of each field, with the field's default
/// where neither name is a key.
pub proof fn law_timestamp_verification_data_reads_its_members(v: JsonValue, d: TimestampVerificationData)
    requires
        timestamp_verification_data_is(v, d),
    ensures
        rfc3161_signed_timestamps_is(member_named(v, "rfc3161Timestamps"@, "rfc3161_timestamps"@), d.rfc3161_timestamps@),
{
    let names = timestamp_verification_data_names();
    assert forall|key: Seq<char>| #[trigger] field_index(names, key) == Some(0int) <==> (key == "rfc3161Timestamps"@ || key == "rfc3161_timestamps"@) by {
        law_timestamp_verification_data_field_names(key);
    }
    lemma_member_named_is_field(names, v, "rfc3161Timestamps"@, "rfc3161_timestamps"@, 0);
}

/// What a `HashOutput` read from a document holds is what the document's
/// members give under either name of each field, with the field's default
/// where neither name is a key.
pub proof fn law_hash_output_reads_its_members(v: JsonValue, h: HashOutput)
    requires
        hash_output_is(v, h),
    ensures
        hash_algorithm_of(member_named(v, "algorithm"@, "algorithm"@)) == Some(h.algorithm),
        bytes_of(member_named(v, "digest"@, "digest"@)) == Some(h.digest@),
{
    let names = hash_output_names();
    assert forall|key: Seq<char>| #[trigger] field_index(names, key) == Some(0int) <==> (key == "algorithm"@) by {
        law_hash_output_field_names(key);
    }
    lemma_member_named_is_field(names, v, "algorithm"@, "algorithm"@, 0);
    assert forall|key: Seq<char>| #[trigger] field_index(names, key) == Some(1int) <==> (key == "digest"@) by {
        law_hash_output_field_names(key);
    }
    lemma_member_named_is_field(names, v, "digest"@, "digest"@, 1);
}

/// What a `MessageSignature` read from a document holds is what the document's
/// members give under either name of each field, with the field's default
/// where neither name is a key.
pub proof fn law_message_signature_reads_its_members(v: JsonValue, s: MessageSignature)
    requires
        message_signature_is(v, s),
    ensures
        optional_is(member_named(v, "messageDigest"@, "message_digest"@), s.message_digest, |x: JsonValue, h: HashOutput| hash_output_is(x, h)),
        bytes_of(member_named(v, "signature"@, "signature"@)) == Some(s.signature@),
{
    let names = message_signature_names();
    assert forall|key: Seq<char>| #[trigger] field_index(names, key) == Some(0int) <==> (key == "messageDigest"@ || key == "message_digest"@) by {
        law_message_signature_field_names(key);
    }
    lemma_member_named_is_field(names, v, "messageDigest"@, "message_digest"@, 0);
    assert forall|key: Seq<char>| #[trigger] field_index(names, key) == Some(1int) <==> (key == "signature"@) by {
        law_message_signature_field_names(key);
    }
    lemma_member_named_is_field(names, v, "signature"@, "signature"@, 1);
}

/// What a `VerificationMaterial` read from a document holds is what the document's
/// members give under either name of each field, with the field's default
/// where neither name is a key.
pub proof fn law_verification_material_reads_its_members(v: JsonValue, m: VerificationMaterial)
    requires
        verification_material_is(v, m),
    ensures
        optional_is(member_named(v, "certificate"@, "certificate"@), m.certificate, |x: JsonValue, c: X509Certificate| x509_certificate_is(x, c)),
        m.public_key is Some == is_set(member_named(v, "publicKey"@, "public_key"@)),
        m.x509_certificate_chain is Some == is_set(member_named(v, "x509CertificateChain"@, "x509_certificate_chain"@)),
        transparency_log_entries_is(member_named(v, "tlogEntries"@, "tlog_entries"@), m.tlog_entries@),
        optional_is(member_named(v, "timestampVerificationData"@, "timestamp_verification_data"@), m.timestamp_verification_data, |x: JsonValue, d: TimestampVerificationData| timestamp_verification_data_is(x, d)),
{
    let names = verification_material_names();
    assert forall|key: Seq<char>| #[trigger] field_index(names, key) == Some(0int) <==> (key == "certificate"@) by {
        law_verification_material_field_names(key);
    }
    lemma_member_named_is_field(names, v, "certificate"@, "certificate"@, 0);
    assert forall|key: Seq<char>| #[trigger] field_index(names, key) == Some(1int) <==> (key == "publicKey"@ || key == "public_key"@) by {
        law_verification_material_field_names(key);
    }
    lemma_member_named_is_field(names, v, "publicKey"@, "public_key"@, 1);
    assert forall|key: Seq<char>| #[trigger] field_index(names, key) == Some(2int) <==> (key == "x509CertificateChain"@ || key == "x509_certificate_chain"@) by {
        law_verification_material_field_names(key);
    }
    lemma_member_named_is_field(names, v, "x509CertificateChain"@, "x509_certificate_chain"@, 2);
    assert forall|key: Seq<char>| #[trigger] field_index(names, key) == Some(3int) <==> (key == "tlogEntries"@ || key == "tlog_entries"@) by {
        law_verification_material_field_names(key);
    }
    lemma_member_named_is_field(names, v, "tlogEntries"@, "tlog_entries"@, 3);
    assert forall|key: Seq<char>| #[trigger] field_index(names, key) == Some(4int) <==> (key == "timestampVerificationData"@ || key == "timestamp_verification_data"@) by {
        law_verification_material_field_names(key);
    }
    lemma_member_named_is_field(names, v, "timestampVerificationData"@, "timestamp_verification_data"@, 4);
}

/// What a `Bundle` read from a document holds is what the document's
/// members give under either name of each field, with the field's default
/// where neither name is a key.
pub proof fn law_bundle_reads_its_members(v: JsonValue, b: Bundle)
    requires
        bundle_is(v, b),
    ensures
        string_of(member_named(v, "mediaType"@, "media_type"@)) == Some(b.media_type@),
        optional_is(member_named(v, "verificationMaterial"@, "verification_material"@), b.verification_material, |x: JsonValue, m: VerificationMaterial| verification_material_is(x, m)),
        optional_is(member_named(v, "messageSignature"@, "message_signature"@), b.message_signature, |x: JsonValue, s: MessageSignature| message_signature_is(x, s)),
        b.dsse_envelope is Some == is_set(member_named(v, "dsseEnvelope"@, "dsse_envelope"@)),
{
    let names = bundle_names();
    assert forall|key: Seq<char>| #[trigger] field_index(names, key) == Some(0int) <==> (key == "mediaType"@ || key == "media_type"@) by {
        law_bundle_field_names(key);
    }
    lemma_member_named_is_field(names, v, "mediaType"@, "media_type"@, 0);
    assert forall|key: Seq<char>| #[trigger] field_index(names, key) == Some(1int) <==> (key == "verificationMaterial"@ || key == "verification_material"@) by {
        law_bundle_field_names(key);
    }
    lemma_member_named_is_field(names, v, "verificationMaterial"@, "verification_material"@, 1);
    assert forall|key: Seq<char>| #[trigger] field_index(names, key) == Some(2int) <==> (key == "messageSignature"@ || key == "message_signature"@) by {
        law_bundle_field_names(key);
    }
    lemma_member_named_is_field(names, v, "messageSignature"@, "message_signature"@, 2);
    assert forall|key: Seq<char>| #[trigger] field_index(names, key) == Some(3int) <==> (key == "dsseEnvelope"@ || key == "dsse_envelope"@) by {
        law_bundle_field_names(key);
    }
    lemma_member_named_is_field(names, v, "dsseEnvelope"@, "dsse_envelope"@, 3);
}

} // verus!
