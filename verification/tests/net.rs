use gmacftp::model::{
    ConnectionId, ConnectionSpec, FtpDataMode, FtpFilenameEncoding, FtpTlsMode, Protocol, SftpAuth,
};
use gmacftp::net::proxy::validate_proxy_url;
use gmacftp::net::ssh_config::parse_config_text;
use gmacftp::net::ssh_resolve::{
    dedup, parse_jump_reference, resolve_with_config, ConnectionLimits, LocalIdentity,
};
use gmacftp::net::{
    normalize_remote_search_query, remote_search_matches, sanitize_local_rel, validate_ftp_path,
    IoFailure, IoKind, NetError, RemoteStagingPaths, MAX_REMOTE_SEARCH_QUERY_BYTES,
};

fn spec() -> ConnectionSpec {
    ConnectionSpec {
        id: ConnectionId(1),
        name: "alias".into(),
        protocol: Protocol::Sftp,
        host: "prod".into(),
        port: 22,
        user: "fallback".into(),
        initial_path: String::new(),
        group: String::new(),
        tags: Vec::new(),
        timeout_secs: None,
        keepalive_interval_secs: None,
        ftp_data_mode: FtpDataMode::Passive,
        ftp_filename_encoding: FtpFilenameEncoding::Auto,
        ftp_tls_mode: FtpTlsMode::default(),
        proxy_url: None,
        use_ssh_config: true,
        ssh_proxy_jump: None,
        allow_plaintext_ftp: false,
        accept_invalid_tls: false,
        tls_pinned_sha256: None,
        tls_client_cert: None,
        tls_client_key: None,
        sftp_auth: SftpAuth::Agent,
        sftp_private_key: None,
        transfer_concurrency: None,
    }
}

fn local() -> LocalIdentity {
    LocalIdentity { home: Some("/home/me".into()), user: "me".into() }
}

fn limits() -> ConnectionLimits {
    ConnectionLimits { min_timeout: 5, max_timeout: 300, min_keepalive: 5, max_keepalive: 3600 }
}

#[test]
fn retries_transient_transport_errors_only() {
    assert!(NetError::Io(IoFailure::new(IoKind::TimedOut, "timed out")).is_retryable());
    assert!(NetError::Ssh("connection reset by peer".into()).is_retryable());
    assert!(!NetError::Io(IoFailure::new(IoKind::PermissionDenied, "permission denied"))
        .is_retryable());
    assert!(!NetError::Ftp("530 Login incorrect".into()).is_retryable());
    assert!(!NetError::InvalidPath("../secret".into()).is_retryable());
    assert!(!NetError::UploadSourceChanged.is_retryable());
}

#[test]
fn remote_search_query_is_bounded_and_matches_every_term() {
    let query = normalize_remote_search_query("  FINAL budget  ").unwrap();
    assert_eq!(query, "final budget");
    assert!(remote_search_matches("/Reports/2026/Final-Budget.pdf", &query));
    assert!(!remote_search_matches("/Reports/2026/Final-Notes.pdf", &query));

    for invalid in ["", "x", "ok\nno"] {
        assert!(normalize_remote_search_query(invalid).is_err());
    }
    assert!(
        normalize_remote_search_query(&"x".repeat(MAX_REMOTE_SEARCH_QUERY_BYTES + 1)).is_err()
    );
}

#[test]
fn proxy_url_validation_rejects_credentials_paths_and_unsafe_schemes() {
    assert!(validate_proxy_url("http://proxy.example:8080").is_ok());
    assert!(validate_proxy_url("socks5://[::1]:1080").is_ok());
    let proxy_with_credentials = ["http://", "user", ":", "pass", "@proxy.example:8080"].concat();
    assert!(validate_proxy_url(&proxy_with_credentials).is_err());
    assert!(validate_proxy_url("https://proxy.example:443").is_err());
    assert!(validate_proxy_url("http://proxy.example:8080/path").is_err());
    assert!(validate_proxy_url("http://proxy.example:0").is_err());
    assert!(validate_proxy_url("http://proxy.example:8080\r\nInjected: yes").is_err());
}

#[test]
fn ftp_path_rejects_control_bytes() {
    assert!(validate_ftp_path("/pub/ok").is_ok());
    assert!(validate_ftp_path("legit\rMKD pwned").is_err());
    assert!(validate_ftp_path("a\nb").is_err());
    assert!(validate_ftp_path("a\0b").is_err());
}

#[test]
fn local_rel_strips_traversal_and_absolute() {
    assert_eq!(sanitize_local_rel("../etc/passwd").unwrap(), "etc/passwd");
    assert_eq!(sanitize_local_rel("../../a/b").unwrap(), "a/b");
    assert_eq!(sanitize_local_rel("/etc/passwd").unwrap(), "etc/passwd");
    assert_eq!(sanitize_local_rel("a/./b/../c").unwrap(), "a/c");
    assert_eq!(sanitize_local_rel("plain.txt").unwrap(), "plain.txt");
    assert!(sanitize_local_rel("../..").is_err());
    assert!(sanitize_local_rel("/").is_err());
}

#[test]
fn local_rel_rejects_control_and_long() {
    assert!(sanitize_local_rel("ok\revil").is_err());
    let long = "a".repeat(256);
    assert!(sanitize_local_rel(&long).is_err());
    assert_eq!(sanitize_local_rel(&"a".repeat(255)).unwrap(), "a".repeat(255));
}

#[test]
fn resolves_alias_and_single_jump_without_executing_any_command() {
    let config = parse_config_text(
        r#"
Host prod
    HostName internal.example
    User deploy
    Port 2222
    ConnectTimeout 12
    ServerAliveInterval 30
    ProxyJump bastion

Host bastion
    HostName gateway.example
    User jump
    Port 2200
    IdentityFile ~/.ssh/id_ed25519
"#,
    )
    .unwrap();
    let resolved = resolve_with_config(&spec(), Some(&config), &local(), &limits()).unwrap();
    assert_eq!(resolved.target.host, "internal.example");
    assert_eq!(resolved.target.user, "deploy");
    assert_eq!(resolved.target.port, 2222);
    assert_eq!(resolved.target.connect_timeout, 12);
    assert_eq!(resolved.target.keepalive_interval, Some(30));
    let jump = resolved.jump.unwrap();
    assert_eq!(jump.host, "gateway.example");
    assert_eq!(jump.user, "jump");
    assert_eq!(jump.port, 2200);
    assert_eq!(jump.identity_files.len(), 1);
}

#[test]
fn rejects_commands_match_includes_and_multi_hop_jumps() {
    for config in [
        "Host prod\n ProxyCommand nc %h %p\n",
        "Match exec true\n HostName bad.example\n",
        "Include config.d/*\n",
    ] {
        let parsed = parse_config_text(config);
        if config.contains("ProxyCommand") {
            let parsed = parsed.unwrap();
            assert!(resolve_with_config(&spec(), Some(&parsed), &local(), &limits()).is_err());
        } else {
            assert!(parsed.is_err());
        }
    }
    let config = parse_config_text("Host prod\n ProxyJump one,two\n").unwrap();
    assert!(resolve_with_config(&spec(), Some(&config), &local(), &limits()).is_err());
}

#[test]
fn explicit_jump_parser_rejects_credentials_and_ambiguous_ipv6() {
    assert!(parse_jump_reference("user@jump.example:2222").unwrap().is_some());
    assert!(parse_jump_reference("ssh://user@[::1]:2222").unwrap().is_some());
    assert!(parse_jump_reference("user:password@jump.example").is_err());
    assert!(parse_jump_reference("2001:db8::1").is_err());
    assert!(parse_jump_reference("one,two").is_err());
}

#[test]
fn staging_names_are_private_siblings() {
    let paths = RemoteStagingPaths::for_destination("/sites/app/index.html").unwrap();
    assert!(paths.temporary.starts_with("/sites/app/.gmacftp-upload-"));
    assert!(paths.backup.starts_with("/sites/app/.gmacftp-backup-"));
    assert_ne!(paths.temporary, paths.backup);
    assert!(paths.temporary.len() < 255 + "/sites/app/".len());

    let relative = RemoteStagingPaths::for_destination("index.html").unwrap();
    assert!(!relative.temporary.contains('/'));

    let resumable =
        RemoteStagingPaths::for_resumable_destination("/sites/app/index.html", 0x2a).unwrap();
    assert_eq!(resumable.temporary, "/sites/app/.gmacftp-upload-000000000000002a");
    assert!(RemoteStagingPaths::for_resumable_destination("index.html", 0).is_err());
}

#[test]
fn staging_names_reject_non_file_destinations_and_controls() {
    assert!(RemoteStagingPaths::for_destination("/").is_err());
    assert!(RemoteStagingPaths::for_destination("..").is_err());
    assert!(RemoteStagingPaths::for_destination("ok\r\nDELE file").is_err());
}

#[test]
fn further_lines_override_nothing() {
    let first = "Host prod\n    HostName one.example\n    Port 2222";
    let more = "Port 9\nHost prod\n    HostName two.example\n    User late\nHost *\n    Port 1";
    let short = parse_config_text(first).unwrap().query("prod");
    let long = parse_config_text(&format!("{first}\n{more}")).unwrap().query("prod");
    assert_eq!(short.host_name.as_deref(), Some("one.example"));
    assert_eq!(long.host_name, short.host_name);
    assert_eq!(long.port, short.port);
    assert_eq!(short.user, None);
    assert_eq!(long.user.as_deref(), Some("late"));
}

#[test]
fn identity_files_repeat_by_their_components() {
    let list = |paths: &[&str]| -> Vec<String> { paths.iter().map(|p| p.to_string()).collect() };
    assert_eq!(
        dedup(&list(&["/k/id", "/k//id", "/k/./id/", "/k/other", "/k/id"])),
        list(&["/k/id", "/k/other", "/k/id"])
    );
    assert_eq!(dedup(&list(&["./id", "id", "/id", "."])), list(&["./id", "id", "/id", "."]));
    assert_eq!(dedup(&list(&["/k/../id", "/id"])), list(&["/k/../id", "/id"]));
    assert_eq!(dedup(&list(&["", "id/.", "id"])), list(&["", "id/."]));
}
