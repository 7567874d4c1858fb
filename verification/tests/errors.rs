use artifact_trust::{Error, RequiredSigner};

#[test]
fn errors_name_their_kind() {
    assert_eq!(Error::Validation("bad signature".to_string()).message(), "validation: bad signature");
    assert_eq!(Error::Repository("offline".to_string()).message(), "repository: offline");
}

#[test]
fn a_signer_names_repository_workflow_and_ref() {
    let signer = RequiredSigner {
        github_repository: "example/application".to_string(),
        github_workflow: Some(".github/workflows/build.yml".to_string()),
        github_ref: None,
    };
    assert_eq!(signer.github_repository, "example/application");
    assert!(signer.github_ref.is_none());
}
