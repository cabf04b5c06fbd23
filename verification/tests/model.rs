use gmacftp::controllers::{
    FileOperationMode, OverwriteDecision, PaneId, SortDirection, SortKey, SyncDirection,
    TransferRowState,
};
use gmacftp::model::{
    sort_entries, ConnectionId, ConnectionSpec, FtpDataMode, FtpFilenameEncoding, FtpTlsMode,
    Protocol, RemoteEntry, SftpAuth,
};
use gmacftp::net::ftp::allow_plaintext_ftp;

fn spec(port: u16, proto: Protocol) -> ConnectionSpec {
    ConnectionSpec {
        id: ConnectionId(0),
        name: "x".into(),
        protocol: proto,
        host: "host".into(),
        port,
        user: "u".into(),
        initial_path: String::new(),
        group: String::new(),
        tags: Vec::new(),
        timeout_secs: None,
        keepalive_interval_secs: None,
        ftp_data_mode: FtpDataMode::Passive,
        ftp_filename_encoding: FtpFilenameEncoding::Auto,
        ftp_tls_mode: FtpTlsMode::Explicit,
        proxy_url: None,
        use_ssh_config: false,
        ssh_proxy_jump: None,
        allow_plaintext_ftp: false,
        accept_invalid_tls: false,
        tls_pinned_sha256: None,
        tls_client_cert: None,
        tls_client_key: None,
        sftp_auth: SftpAuth::Password,
        sftp_private_key: None,
        transfer_concurrency: None,
    }
}

#[test]
fn ui_state_parsers_reject_unknown_values() {
    assert_eq!(PaneId::try_from("local").unwrap(), PaneId::Left);
    assert_eq!(PaneId::try_from("remote").unwrap().other(), PaneId::Left);
    assert!(PaneId::try_from("server").is_err());
    assert!(FileOperationMode::try_from("delete").is_err());
    assert!(SortKey::try_from("path").is_err());
    assert!(SortDirection::try_from("up").is_err());
    assert!(SyncDirection::try_from("both").is_err());
    assert!(OverwriteDecision::try_from(99).is_err());
    assert!(TransferRowState::try_from("waiting-ish").is_err());
}

#[test]
fn effective_port_falls_back() {
    assert_eq!(spec(0, Protocol::Ftp).effective_port(), 21);
    let mut implicit = spec(0, Protocol::Ftp);
    implicit.ftp_tls_mode = FtpTlsMode::Implicit;
    assert_eq!(implicit.effective_port(), 990);
    implicit.allow_plaintext_ftp = true;
    assert_eq!(implicit.effective_port(), 21);
    implicit.port = 2121;
    assert_eq!(implicit.effective_port(), 2121);
    assert_eq!(spec(0, Protocol::Sftp).effective_port(), 22);
    assert_eq!(spec(55000, Protocol::Sftp).effective_port(), 55000);
}

#[test]
fn labels_name_host_and_protocol() {
    assert_eq!(spec(0, Protocol::Ftp).display_label(), "host (FTP)");
    assert_eq!(spec(0, Protocol::Sftp).display_label(), "host (SFTP)");
}

fn entry(name: &str, is_dir: bool) -> RemoteEntry {
    RemoteEntry {
        name: name.into(),
        is_dir,
        size: if is_dir { 0 } else { 1 },
        mtime: None,
        permissions: None,
        owner: None,
        group: None,
    }
}

#[test]
fn dirs_first_then_alpha() {
    let mut e = vec![
        entry("zfile", false),
        entry("adir", true),
        entry("Bdir", true),
        entry("afile", false),
    ];
    sort_entries(&mut e);
    let names: Vec<_> = e.iter().map(|x| x.name.as_str()).collect();
    assert_eq!(names, vec!["adir", "Bdir", "afile", "zfile"]);
}

#[test]
fn parses_seed_protocols() {
    assert_eq!("ftp".parse::<Protocol>().unwrap(), Protocol::Ftp);
    assert_eq!("ftps".parse::<Protocol>().unwrap(), Protocol::Ftp);
    assert_eq!("SFTP".parse::<Protocol>().unwrap(), Protocol::Sftp);
    assert!("webdav".parse::<Protocol>().is_err());
}

#[test]
fn unknown_protocols_are_quoted() {
    assert_eq!(
        Protocol::parse(" Web\"dav ").unwrap_err(),
        "unknown protocol: \"web\\\"dav\""
    );
}

#[test]
fn plaintext_ftp_is_opt_in_for_each_connection() {
    let choose = |allow: bool| ConnectionSpec {
        allow_plaintext_ftp: allow,
        ..spec(21, Protocol::Ftp)
    };
    assert!(!allow_plaintext_ftp(&choose(false)));
    assert!(allow_plaintext_ftp(&choose(true)));
    // This is deliberately not global state: selecting plaintext for one legacy server cannot
    // change the transport used by another server in the same process.
    assert!(!allow_plaintext_ftp(&choose(false)));
}
