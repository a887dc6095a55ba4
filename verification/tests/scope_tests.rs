use memocap::scope::identity::{
    canonicalize_remote, canonicalize_remote_parts, canonicalize_scp_remote,
    canonicalize_url_remote, classify_config, config_value, derived_scope, directory_scope,
    is_legacy_scope_id, remote_url, remove_terminal_newline, repository_from_bytes,
    repository_from_identity, resolve, ConfigRepository, ConfigValue, IdentityError, ResolveStep,
};
use memocap::scope::{
    resolved_repository, DomainId, OperationId, PlacementId, RepositoryId, ResolutionSource,
    ScopeId,
};
use sha2::{Digest, Sha256};

const REPO: &str = "repository:0123456789abcdef0123456789abcdef0123456789abcdef0123456789abcdef";
const LEGACY: &str = "scope:v1:0123456789abcdef0123456789abcdef0123456789abcdef0123456789abcdef";

fn hex(bytes: &[u8]) -> String {
    bytes.iter().map(|b| format!("{b:02x}")).collect()
}

fn expected_repository(kind: &str, identity: &[u8]) -> String {
    let mut digest = Sha256::new();
    digest.update(b"memocap\0repository\0v1\0");
    digest.update(kind.as_bytes());
    digest.update(b"\0");
    digest.update(identity);
    format!("repository:{}", hex(&digest.finalize()))
}

fn repo() -> RepositoryId {
    RepositoryId::parse(REPO).expect("fixture repository ID is valid")
}

#[test]
fn repository_id_is_prefix_and_sixty_four_lowercase_hex_digits() {
    assert_eq!(repo().as_str(), REPO);
    assert!(RepositoryId::parse(&REPO.to_uppercase()).is_err());
    assert!(RepositoryId::parse(&REPO[..74]).is_err());
    assert!(RepositoryId::parse(&format!("{REPO}0")).is_err());
    assert!(RepositoryId::parse(&REPO.replace("repository:", "repositorx:")).is_err());
    assert!(RepositoryId::parse(&REPO.replace('a', "g")).is_err());
}

#[test]
fn domain_ids_are_lowercase_segments_and_not_reserved() {
    for valid in ["team/beta", "engineering/rust", "a", "a.b_c-d/0x", "9lives"] {
        let domain = DomainId::parse(valid).expect("valid domain");
        assert_eq!(domain.as_str(), valid);
    }
    for invalid in [
        "", "Team", "team//beta", "/team", "team/", "-team", "team/.hidden", ".", "..", "global",
        "universal", "repository", "repository:abc", "scope:v1:abc", "team beta",
    ] {
        assert!(DomainId::parse(invalid).is_err(), "{invalid} should be refused");
    }
}

#[test]
fn placement_text_round_trips() {
    let texts = [REPO.to_owned(), "domain:team/beta".to_owned(), "universal".to_owned()];
    for text in texts {
        let placement = PlacementId::parse(&text).expect("valid placement");
        assert_eq!(placement.to_string(), text);
        let again = PlacementId::parse(&placement.to_string()).expect("round trip");
        assert!(again.same_as(&placement));
    }
    assert!(matches!(PlacementId::parse("universal"), Ok(PlacementId::Universal)));
    assert!(matches!(PlacementId::parse("domain:team/beta"), Ok(PlacementId::Domain(_))));
}

#[test]
fn placement_parse_refuses_other_texts() {
    for invalid in ["", "domain:", "domain:Team", "global", "Universal", "repository:abc", "team/beta"] {
        assert!(PlacementId::parse(invalid).is_err(), "{invalid} should be refused");
    }
}

#[test]
fn scope_ids_are_global_or_a_repository() {
    assert_eq!(ScopeId::global().as_str(), "global");
    assert!(ScopeId::global().is_global());
    let scope = ScopeId::from_repository(repo());
    assert_eq!(scope.as_str(), REPO);
    assert!(!scope.is_global());
    assert!(ScopeId::parse("global").expect("global parses").is_global());
    assert_eq!(ScopeId::parse(REPO).expect("repository parses").as_str(), REPO);
    assert!(ScopeId::parse("domain:team/beta").is_err());
}

#[test]
fn operation_id_is_the_fingerprint_digest_grouped_as_a_uuid() {
    let fingerprint = "f".repeat(64);
    let digest = Sha256::digest(fingerprint.as_bytes());
    let h = hex(&digest[..16]);
    let expected = format!("{}-{}-{}-{}-{}", &h[0..8], &h[8..12], &h[12..16], &h[16..20], &h[20..32]);
    let id = OperationId::from_request_fingerprint(&fingerprint);
    assert_eq!(id.as_str(), expected);
    assert!(OperationId::parse(id.as_str()).is_ok());
    assert_ne!(id.as_str(), OperationId::from_request_fingerprint("other").as_str());
}

#[test]
fn operation_id_parse_requires_a_canonical_uuid() {
    assert!(OperationId::parse("01234567-89ab-cdef-0123-456789abcdef").is_ok());
    assert!(OperationId::parse("01234567-89AB-cdef-0123-456789abcdef").is_err());
    assert!(OperationId::parse("0123456789abcdef0123456789abcdef0123").is_err());
    assert!(OperationId::parse("01234567-89ab-cdef-0123-456789abcde").is_err());
}

#[test]
fn derived_repository_ids_hash_domain_kind_and_identity() {
    let id = repository_from_identity("remote", "github.com/org/repo");
    assert_eq!(id.as_str(), expected_repository("remote", b"github.com/org/repo"));
    let from_path = repository_from_bytes("directory", b"same-\x80");
    assert_eq!(from_path.as_str(), expected_repository("directory", b"same-\x80"));
    assert_ne!(
        repository_from_bytes("directory", b"same-\x80").as_str(),
        repository_from_bytes("directory", b"same-\x81").as_str()
    );
    assert_ne!(
        repository_from_identity("remote", "x").as_str(),
        repository_from_identity("directory", "x").as_str()
    );
    assert!(RepositoryId::parse(id.as_str()).is_ok());
}

#[test]
fn remotes_canonicalize_to_host_and_path() {
    assert_eq!(
        canonicalize_remote("https://GitHub.com/Org/Repo.git"),
        Some("github.com/Org/Repo".to_owned())
    );
    assert_eq!(canonicalize_remote("git@github.com:org/repo.git"), Some("github.com/org/repo".to_owned()));
    assert_eq!(canonicalize_remote("ssh://git@example.com:22/org/repo"), Some("example.com/org/repo".to_owned()));
    assert_eq!(canonicalize_remote("https://example.com:443/org/repo"), Some("example.com/org/repo".to_owned()));
    assert_eq!(canonicalize_remote("https://example.com:8443/org/repo/"), Some("example.com:8443/org/repo".to_owned()));
    assert_eq!(canonicalize_remote("git://example.com:9418/org/repo"), Some("example.com/org/repo".to_owned()));
    assert_eq!(canonicalize_remote("ftp://example.com/org/repo"), None);
    assert_eq!(canonicalize_remote("https://example.com/"), None);
    assert_eq!(canonicalize_remote("host:a//b"), None);
    assert_eq!(canonicalize_remote("host:a/./b"), None);
    assert_eq!(canonicalize_remote("no-separator"), None);
}

#[test]
fn remote_forms_are_read_by_their_own_rules() {
    assert_eq!(canonicalize_scp_remote("https://example.com/org/repo"), None);
    assert_eq!(canonicalize_scp_remote("user@Host.Example:org/repo"), Some("host.example/org/repo".to_owned()));
    assert_eq!(canonicalize_scp_remote(":org/repo"), None);
    assert_eq!(canonicalize_scp_remote("a/b:org/repo"), None);
    assert_eq!(canonicalize_url_remote("git@github.com:org/repo"), None);
    assert_eq!(canonicalize_remote_parts("Example.COM", "/org/repo.git/", Some(2222)), Some("example.com:2222/org/repo".to_owned()));
    assert_eq!(canonicalize_remote_parts("example.com", "/.git", None), None);
    assert_eq!(canonicalize_remote_parts("example.com", "org/..", None), None);
}

#[test]
fn remote_url_reads_the_single_remote() {
    assert_eq!(
        remote_url(Some(0), true, "remote.origin.url https://example.com/org/repo\n"),
        Ok(Some("https://example.com/org/repo".to_owned()))
    );
    assert_eq!(remote_url(Some(1), false, ""), Ok(None));
    assert_eq!(remote_url(Some(2), false, ""), Err(IdentityError::RemotesUnreadable));
    assert_eq!(
        remote_url(Some(0), true, "remote.a.url x\nremote.b.url y\n"),
        Ok(None)
    );
    assert_eq!(remote_url(Some(0), true, "\n\nremote.a.url x\n\n"), Ok(Some("x".to_owned())));
    assert_eq!(remote_url(Some(0), true, "no-whitespace"), Ok(None));
}

#[test]
fn config_values_follow_git_exit_codes() {
    assert_eq!(config_value(Some(0), "value\r\n"), Ok(ConfigValue::Value("value".to_owned())));
    assert_eq!(config_value(Some(0), "value\n"), Ok(ConfigValue::Value("value".to_owned())));
    assert_eq!(config_value(Some(1), ""), Ok(ConfigValue::Unset));
    assert_eq!(config_value(Some(128), ""), Err(IdentityError::ConfigurationUnreadable));
    assert_eq!(config_value(None, ""), Err(IdentityError::ConfigurationUnreadable));
    assert_eq!(remove_terminal_newline("a\n\n"), "a\n");
    assert_eq!(remove_terminal_newline("a"), "a");
}

#[test]
fn stored_ids_and_legacy_scopes_combine() {
    assert!(is_legacy_scope_id(LEGACY));
    assert!(!is_legacy_scope_id(REPO));
    let value = |s: &str| ConfigValue::Value(s.to_owned());
    assert!(matches!(classify_config(ConfigValue::GitUnavailable, ConfigValue::Unset), Ok(ConfigRepository::GitUnavailable)));
    assert!(matches!(classify_config(ConfigValue::Unset, ConfigValue::Unset), Ok(ConfigRepository::Unset)));
    assert!(matches!(classify_config(ConfigValue::Unset, value(LEGACY)), Ok(ConfigRepository::LegacyScope)));
    assert!(matches!(classify_config(value(REPO), ConfigValue::Unset), Ok(ConfigRepository::Value(_))));
    assert!(matches!(classify_config(value(REPO), value(LEGACY)), Ok(ConfigRepository::ValueWithLegacyScope(_))));
    assert!(matches!(classify_config(value(REPO), value("scope:v1:short")), Ok(ConfigRepository::Value(_))));
    assert!(matches!(classify_config(value(REPO), ConfigValue::GitUnavailable), Ok(ConfigRepository::GitUnavailable)));
    assert_eq!(
        classify_config(value("repository:bad"), ConfigValue::Unset).err(),
        Some(IdentityError::InvalidRepositoryConfiguration)
    );
    assert_eq!(
        IdentityError::InvalidRepositoryConfiguration.message(),
        "local repository ID configuration is invalid"
    );
}

#[test]
fn resolution_decides_from_git_and_configuration() {
    assert!(matches!(resolve(None), ResolveStep::Directory));
    assert!(matches!(resolve(Some(ConfigRepository::GitUnavailable)), ResolveStep::Directory));
    assert!(matches!(resolve(Some(ConfigRepository::Unset)), ResolveStep::Derive { remove_legacy_scope: false }));
    assert!(matches!(resolve(Some(ConfigRepository::LegacyScope)), ResolveStep::Derive { remove_legacy_scope: true }));
    match resolve(Some(ConfigRepository::ValueWithLegacyScope(repo()))) {
        ResolveStep::Configured { repository, remove_legacy_scope } => {
            assert_eq!(repository.as_str(), REPO);
            assert!(remove_legacy_scope);
        }
        other => panic!("unexpected step {other:?}"),
    }
    match resolve(Some(ConfigRepository::Value(repo()))) {
        ResolveStep::Configured { remove_legacy_scope, .. } => assert!(!remove_legacy_scope),
        other => panic!("unexpected step {other:?}"),
    }
}

#[test]
fn derived_scopes_name_their_source() {
    let remote = derived_scope(Some("github.com/org/repo".to_owned()), b"/work/.git");
    assert_eq!(remote.source(), ResolutionSource::Remote);
    assert_eq!(remote.repository().as_str(), expected_repository("remote", b"github.com/org/repo"));
    assert_eq!(remote.scope().as_str(), remote.repository().as_str());
    let common = derived_scope(None, b"/work/.git");
    assert_eq!(common.source(), ResolutionSource::GitCommonDir);
    assert_eq!(common.repository().as_str(), expected_repository("git-common-dir", b"/work/.git"));
    let directory = directory_scope(b"/tmp/notes");
    assert_eq!(directory.source(), ResolutionSource::Directory);
    assert_eq!(directory.repository().as_str(), expected_repository("directory", b"/tmp/notes"));
    let configured = resolved_repository(repo(), ResolutionSource::GitConfig);
    assert_eq!(configured.scope().as_str(), REPO);
    assert_eq!(ResolutionSource::GitConfig.label(), "git-config");
    assert_eq!(ResolutionSource::GitCommonDir.label(), "git-common-dir");
    assert_eq!(ResolutionSource::Remote.label(), "remote");
    assert_eq!(ResolutionSource::Directory.label(), "directory");
}
