use artifact_trust::tuf_refresh::{
    scheme_refusal, sigstore_tuf_metadata_base, sigstore_tuf_target_base, status_failure_kind,
    trusted_root_target, TransportFailureKind,
};
use url::Url;

#[test]
fn transport_refuses_plain_http() {
    let url = Url::parse("http://tuf-repo-cdn.sigstore.dev/1.root.json").expect("url");
    let error = scheme_refusal(url.scheme()).expect("plain http must be refused");
    assert_eq!(error, TransportFailureKind::UnsupportedUrlScheme);
}

#[test]
fn transport_fetches_https() {
    let url = Url::parse("https://tuf-repo-cdn.sigstore.dev/1.root.json").expect("url");
    assert_eq!(scheme_refusal(url.scheme()), None);
    assert_eq!(scheme_refusal("HTTPS"), Some(TransportFailureKind::UnsupportedUrlScheme));
    assert_eq!(scheme_refusal("file"), Some(TransportFailureKind::UnsupportedUrlScheme));
}

#[test]
fn missing_files_end_the_root_chain() {
    for status in [404, 403, 410] {
        assert_eq!(status_failure_kind(Some(status)), TransportFailureKind::FileNotFound);
    }
    for status in [None, Some(500), Some(401), Some(200)] {
        assert_eq!(status_failure_kind(status), TransportFailureKind::Other);
    }
}

#[test]
fn the_refresh_reads_the_sigstore_repository_over_https() {
    for base in [sigstore_tuf_metadata_base(), sigstore_tuf_target_base()] {
        assert_eq!(Url::parse(base).expect("base url").scheme(), "https");
    }
    assert_eq!(sigstore_tuf_metadata_base(), "https://tuf-repo-cdn.sigstore.dev");
    assert_eq!(sigstore_tuf_target_base(), "https://tuf-repo-cdn.sigstore.dev/targets");
    assert_eq!(trusted_root_target(), "trusted_root.json");
}
