//! The decisions of the refresh of `trusted_root.json` from the Sigstore
//! public-good TUF repository: where it is fetched from, which URLs the
//! transport refuses, and how a failed HTTP response is reported to TUF.
use vstd::prelude::*;

verus! {

/// The base URL of the Sigstore TUF metadata.
pub open spec fn metadata_base_text() -> Seq<char> {
    "https://tuf-repo-cdn.sigstore.dev"@
}

/// The base URL of the Sigstore TUF targets.
pub open spec fn target_base_text() -> Seq<char> {
    "https://tuf-repo-cdn.sigstore.dev/targets"@
}

/// The base URL of the Sigstore TUF metadata.
pub fn sigstore_tuf_metadata_base() -> (url: &'static str)
    ensures
        url@ == metadata_base_text(),
{
    "https://tuf-repo-cdn.sigstore.dev"
}

/// The base URL of the Sigstore TUF targets.
pub fn sigstore_tuf_target_base() -> (url: &'static str)
    ensures
        url@ == target_base_text(),
{
    "https://tuf-repo-cdn.sigstore.dev/targets"
}

/// The TUF target that holds the Sigstore trusted root.
pub fn trusted_root_target() -> (name: &'static str)
    ensures
        name@ == "trusted_root.json"@,
{
    "trusted_root.json"
}

/// How a transport failure is reported to TUF.
#[derive(Clone, Copy, Debug, PartialEq, Eq, Structural)]
pub enum TransportFailureKind {
    /// The URL's scheme is one the transport does not fetch.
    UnsupportedUrlScheme,
    /// The file does not exist; TUF reads this as the end of the root chain.
    FileNotFound,
    /// Any other failure.
    Other,
}

/// Whether the transport refuses a URL by its scheme: it fetches over
/// `https` only.
pub fn scheme_refusal(scheme: &str) -> (refusal: Option<TransportFailureKind>)
    ensures
        refusal == (if scheme@ == "https"@ {
            None
        } else {
            Some(TransportFailureKind::UnsupportedUrlScheme)
        }),
{
    if crate::json::str_equal(scheme, "https") {
        None
    } else {
        Some(TransportFailureKind::UnsupportedUrlScheme)
    }
}

/// How a failed request is reported: a 404, 403 or 410 status means the file
/// is not there; any other status, or none, is another failure.
pub fn status_failure_kind(status: Option<u16>) -> (kind: TransportFailureKind)
    ensures
        kind == (match status {
            Some(code) => if code == 404 || code == 403 || code == 410 {
                TransportFailureKind::FileNotFound
            } else {
                TransportFailureKind::Other
            },
            None => TransportFailureKind::Other,
        }),
{
    match status {
        Some(code) => if code == 404 || code == 403 || code == 410 {
            TransportFailureKind::FileNotFound
        } else {
            TransportFailureKind::Other
        },
        None => TransportFailureKind::Other,
    }
}

/// Every base URL the refresh fetches from is an `https` URL.
pub proof fn law_refresh_fetches_over_https()
    ensures
        "https://"@.is_prefix_of(metadata_base_text()),
        "https://"@.is_prefix_of(target_base_text()),
{
    reveal_strlit("https://");
    reveal_strlit("https://tuf-repo-cdn.sigstore.dev");
    reveal_strlit("https://tuf-repo-cdn.sigstore.dev/targets");
    assert("https://"@ =~= metadata_base_text().take(8));
    assert("https://"@ =~= target_base_text().take(8));
}

} // verus!
