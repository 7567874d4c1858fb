//! Verification of signed artifact bytes against explicit GitHub signer requirements.
//!
//! The library holds the decisions of Sigstore verification: how a bundle
//! document is read under the proto3 JSON mapping, how a public key fixes its
//! signature algorithm, and which transport responses a trust refresh accepts.
use vstd::prelude::*;

pub mod base64_codec;
pub mod json;
pub mod proto_json;
pub mod sigstore_bundle;
pub mod tuf_refresh;
pub mod verification_key;

verus! {

/// The signer an artifact must come from: a GitHub repository and, where
/// given, the workflow path and the git ref that built it.
#[derive(Clone, Debug)]
pub struct RequiredSigner {
    pub github_repository: String,
    pub github_workflow: Option<String>,
    pub github_ref: Option<String>,
}

/// The errors the library reports to its host.
#[derive(Debug)]
pub enum Error {
    /// The artifact or its bundle did not verify.
    Validation(String),
    /// The trust repository could not be read or refreshed.
    Repository(String),
}

impl Error {
    /// The text of the error: its kind, a colon and a space, then its detail.
    pub open spec fn spec_message(&self) -> Seq<char> {
        match self {
            Error::Validation(detail) => "validation: "@ + detail@,
            Error::Repository(detail) => "repository: "@ + detail@,
        }
    }

    /// Renders the error as text.
    pub fn message(&self) -> (text: String)
        ensures
            text@ == self.spec_message(),
    {
        match self {
            Error::Validation(detail) => String::from_str("validation: ").concat(detail.as_str()),
            Error::Repository(detail) => String::from_str("repository: ").concat(detail.as_str()),
        }
    }
}

} // verus!
