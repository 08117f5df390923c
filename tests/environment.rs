use webbed_hook::envelope::{CertificateNonce, Metadata, PushSignatureStatus};
use webbed_hook::gitlab::{get_gitlab_metadata, GitlabId, GitlabMetadata, GitlabParseError, GitlabProtocol, GitlabRepository};
use webbed_hook::text::strip_prefix;
use webbed_hook::webhook::{get_certificate_nonce, get_metadata, get_push_signature};

fn s(t: &str) -> String {
    t.to_string()
}

#[test]
fn test_metadata_gathering() {
    let expected = GitlabMetadata {
        id: GitlabId::Key { id: 123123 },
        project_path: "some-group/some-project".to_string(),
        protocol: GitlabProtocol::SSH,
        repository: GitlabRepository::ProjectId { id: 456456 },
        username: "some-user".to_string(),
    };
    let actual = get_gitlab_metadata(
        Some(s("key-123123")),
        Some(s("some-group/some-project")),
        Some(s("ssh")),
        Some(s("project-456456")),
        Some(s("some-user")),
    );
    assert_eq!(actual, Some(expected));
}

#[test]
fn metadata_needs_every_value() {
    assert_eq!(get_gitlab_metadata(None, Some(s("p")), Some(s("ssh")), Some(s("project-1")), Some(s("u"))), None);
    assert_eq!(get_gitlab_metadata(Some(s("user-1")), Some(s("p")), Some(s("ftp")), Some(s("project-1")), Some(s("u"))), None);
    assert!(matches!(get_metadata(None), Metadata::Unknown));
}

#[test]
fn gitlab_values_parse() {
    assert_eq!(GitlabId::from_str("user-7"), Ok(GitlabId::User { id: 7 }));
    assert_eq!(GitlabId::from_str("key-+8"), Ok(GitlabId::Key { id: 8 }));
    assert_eq!(GitlabId::from_str("user-x"), Err(GitlabParseError::ParseIntError(s("x"))));
    assert_eq!(GitlabId::from_str("group-1"), Err(GitlabParseError::UnsupportedInput(s("group-1"))));
    assert_eq!(GitlabProtocol::from_str("web"), Ok(GitlabProtocol::WEB));
    assert_eq!(GitlabProtocol::from_str("http"), Ok(GitlabProtocol::HTTP));
    assert_eq!(GitlabProtocol::from_str("HTTP"), Err(GitlabParseError::UnsupportedInput(s("HTTP"))));
    assert_eq!(GitlabRepository::from_str("project-99"), Ok(GitlabRepository::ProjectId { id: 99 }));
    assert_eq!(
        GitlabRepository::from_str("project-18446744073709551616"),
        Err(GitlabParseError::ParseIntError(s("18446744073709551616")))
    );
}

#[test]
fn numbers_and_prefixes() {
    assert_eq!(GitlabId::from_str("user-18446744073709551615"), Ok(GitlabId::User { id: u64::MAX }));
    assert_eq!(GitlabId::from_str("user-"), Err(GitlabParseError::ParseIntError(s(""))));
    assert_eq!(
        get_certificate_nonce(Some(s("SLOP")), Some(s("n")), Some(s("4294967296"))),
        CertificateNonce::Slop { nonce: s("n"), stale_seconds: 0 }
    );
    assert_eq!(
        get_certificate_nonce(Some(s("SLOP")), Some(s("n")), Some(s("+12"))),
        CertificateNonce::Slop { nonce: s("n"), stale_seconds: 12 }
    );
    assert_eq!(strip_prefix("key-12", "key-"), Some(s("12")));
    assert_eq!(strip_prefix("ke", "key-"), None);
}

#[test]
fn signature_status_codes() {
    let codes = ["G", "B", "U", "X", "Y", "R", "E", "N"];
    let expected = [
        PushSignatureStatus::Good,
        PushSignatureStatus::Bad,
        PushSignatureStatus::UnknownValidity,
        PushSignatureStatus::Expired,
        PushSignatureStatus::ExpiredKey,
        PushSignatureStatus::RevokedKey,
        PushSignatureStatus::CannotCheck,
        PushSignatureStatus::NoSignature,
    ];
    for (c, e) in codes.iter().zip(expected.iter()) {
        assert_eq!(PushSignatureStatus::from_str(c), Ok(*e));
    }
    assert!(PushSignatureStatus::from_str("GG").is_err());
}

#[test]
fn certificate_nonce_states() {
    let n = || Some(s("n1"));
    assert_eq!(get_certificate_nonce(None, n(), None), CertificateNonce::Missing);
    assert_eq!(get_certificate_nonce(Some(s("OK")), n(), None), CertificateNonce::Valid { nonce: s("n1") });
    assert_eq!(get_certificate_nonce(Some(s("BAD")), n(), None), CertificateNonce::Bad { nonce: s("n1") });
    assert_eq!(get_certificate_nonce(Some(s("UNSOLICITED")), n(), None), CertificateNonce::Unsolicited { nonce: s("n1") });
    assert_eq!(get_certificate_nonce(Some(s("MISSING")), n(), None), CertificateNonce::Missing);
    assert_eq!(get_certificate_nonce(Some(s("OK")), None, None), CertificateNonce::Missing);
    assert_eq!(
        get_certificate_nonce(Some(s("SLOP")), n(), Some(s("42"))),
        CertificateNonce::Slop { nonce: s("n1"), stale_seconds: 42 }
    );
    assert_eq!(
        get_certificate_nonce(Some(s("SLOP")), n(), Some(s("lots"))),
        CertificateNonce::Slop { nonce: s("n1"), stale_seconds: 0 }
    );
}

#[test]
fn push_signature_needs_all_values() {
    let sig = get_push_signature(Some(s("cert")), Some(s("me")), Some(s("K")), Some(s("G")), None, None, None).unwrap();
    assert_eq!(sig.certificate, "cert");
    assert_eq!(sig.signer, "me");
    assert_eq!(sig.key, "K");
    assert_eq!(sig.status, PushSignatureStatus::Good);
    assert_eq!(sig.nonce, CertificateNonce::Missing);
    assert!(get_push_signature(Some(s("cert")), Some(s("me")), Some(s("K")), Some(s("Q")), None, None, None).is_none());
    assert!(get_push_signature(None, Some(s("me")), Some(s("K")), Some(s("G")), None, None, None).is_none());
}
