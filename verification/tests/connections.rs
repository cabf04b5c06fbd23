use gmacftp::controllers::connections::{
    apply_server_filter, conn_row_matches, connection_row, demo_protocol_label, import_format,
    import_message, merge_new, refresh_connections_model, test_message, ImportEnd, ImportFormat,
    ImportedConnection, SavedConnection,
};
use gmacftp::controllers::credentials::{
    begin_delete, begin_save, find_connection, needs_secret, same_key, CredentialKey,
    CredentialUse, DeleteRun, SaveEnd, SavePhase, SaveRun, StoreAnswer, StoreRequest,
};
use gmacftp::controllers::editor::{
    auth_text, data_mode_text, editor_connection_draft, encoding_text, parse_editor_keepalive,
    parse_editor_tags, parse_editor_timeout, tls_mode_text, EditorForm, EditorLimits,
};
use gmacftp::controllers::editor_form::{edit_form, new_form, reads_password};
use gmacftp::model::{
    ConnectionId, ConnectionSpec, FtpDataMode, FtpFilenameEncoding, FtpTlsMode, Protocol, SftpAuth,
};
use gmacftp::net::ssh_resolve::ConnectionLimits;
use gmacftp::net::{HostKeyChallenge, NetError, TlsCertificateChallenge};

fn limits() -> EditorLimits {
    EditorLimits {
        connection: ConnectionLimits {
            min_timeout: 5,
            max_timeout: 300,
            min_keepalive: 5,
            max_keepalive: 3600,
        },
        min_concurrency: 1,
        max_concurrency: 4,
    }
}

fn form() -> EditorForm {
    EditorForm {
        name: " Files ".into(),
        host: " files.example ".into(),
        port: "2121".into(),
        user: "alice".into(),
        password: "pw".into(),
        protocol: "sftp".into(),
        tags: "Work , home".into(),
        timeout_secs: "30".into(),
        ..new_form()
    }
}

fn draft(form: &EditorForm) -> Result<(ConnectionSpec, String), String> {
    editor_connection_draft(form, ConnectionId(7), &limits())
}

#[test]
fn drafts_hold_what_the_form_says() {
    let (spec, password) = draft(&form()).unwrap();
    assert_eq!(spec.id, ConnectionId(7));
    assert_eq!(spec.name, "Files");
    assert_eq!(spec.host, "files.example");
    assert_eq!(spec.port, 2121);
    assert_eq!(spec.protocol, Protocol::Sftp);
    assert_eq!(spec.tags, vec!["Work".to_string(), "home".to_string()]);
    assert_eq!(spec.timeout_secs, Some(30));
    assert_eq!(spec.keepalive_interval_secs, None);
    assert_eq!(password, "pw");
}

#[test]
fn drafts_are_refused_for_their_first_fault() {
    let cases = [
        EditorForm { host: "  ".into(), ..form() },
        EditorForm { port: "65536".into(), ..form() },
        EditorForm { protocol: "webdav".into(), ..form() },
        EditorForm { initial_path: "a\tb".into(), ..form() },
        EditorForm { group: "g".repeat(257), ..form() },
        EditorForm { tags: "a\tb".into(), ..form() },
        EditorForm { timeout_secs: "4".into(), ..form() },
        EditorForm { keepalive_secs: "4".into(), ..form() },
        EditorForm { proxy_url: "https://p:1".into(), ..form() },
        EditorForm { ssh_proxy_jump: "one,two".into(), ..form() },
        EditorForm { sftp_auth: "magic".into(), ..form() },
        EditorForm { sftp_auth: "private_key".into(), ..form() },
        EditorForm { transfer_concurrency: 9, ..form() },
    ];
    for case in cases {
        assert!(draft(&case).is_err(), "{case:?}");
    }
    assert_eq!(
        draft(&EditorForm { name: " ".into(), ..form() }).unwrap_err(),
        "name, host and user are required"
    );
    assert_eq!(
        draft(&EditorForm { protocol: "Web\"dav".into(), ..form() }).unwrap_err(),
        "invalid protocol: unknown protocol: \"web\\\"dav\""
    );
}

#[test]
fn plaintext_connections_keep_no_tls_state() {
    let plain = EditorForm {
        protocol: "ftp".into(),
        allow_plaintext_ftp: true,
        legacy_invalid_tls: true,
        tls_pin: "sha256:".to_string() + &"ab".repeat(32),
        ..form()
    };
    let (spec, _) = draft(&plain).unwrap();
    assert!(spec.allow_plaintext_ftp);
    assert!(!spec.accept_invalid_tls);
    assert_eq!(spec.tls_pinned_sha256, None);
    let secured = EditorForm { allow_plaintext_ftp: false, ..plain };
    let (spec, _) = draft(&secured).unwrap();
    assert!(spec.accept_invalid_tls);
    assert!(spec.tls_pinned_sha256.is_some());
}

#[test]
fn interactive_logins_store_no_password() {
    for auth in ["agent", "keyboard_interactive"] {
        let interactive = EditorForm { sftp_auth: auth.into(), ..form() };
        let (spec, password) = draft(&interactive).unwrap();
        assert_eq!(password, "");
        assert!(!needs_secret(&spec));
        assert!(!reads_password(&spec));
    }
    let (spec, _) = draft(&form()).unwrap();
    assert!(needs_secret(&spec));
}

#[test]
fn connections_survive_the_editor() {
    let (spec, password) = draft(&form()).unwrap();
    let shown = edit_form(&spec, password);
    let (again, password) = draft(&shown).unwrap();
    assert_eq!(again, spec);
    assert_eq!(password, "pw");
}

#[test]
fn fields_of_the_editor_are_read() {
    assert_eq!(parse_editor_tags("").unwrap(), Vec::<String>::new());
    assert!(parse_editor_tags(&"t".repeat(129)).is_err());
    let many: Vec<String> = (0..33).map(|i| format!("t{i}")).collect();
    assert!(parse_editor_tags(&many.join(",")).is_err());
    assert_eq!(parse_editor_tags("a, A").unwrap_err(), "duplicate tag: A");
    assert_eq!(parse_editor_timeout(" 0 ", &limits().connection), Ok(None));
    assert!(parse_editor_timeout(" ", &limits().connection).is_err());
    assert_eq!(parse_editor_timeout("300", &limits().connection), Ok(Some(300)));
    assert!(parse_editor_timeout("301", &limits().connection).is_err());
    assert_eq!(parse_editor_keepalive("", &limits().connection), Ok(None));
    assert!(parse_editor_keepalive("x", &limits().connection).is_err());
    assert_eq!(auth_text(SftpAuth::Agent), "agent");
    assert_eq!(data_mode_text(FtpDataMode::Active), "active");
    assert_eq!(encoding_text(FtpFilenameEncoding::Utf8), "utf8");
    assert_eq!(tls_mode_text(FtpTlsMode::Implicit), "implicit");
}

fn key(host: &str) -> CredentialKey {
    CredentialKey { endpoint: format!("sftp:{host}:22"), host: host.into(), user: "u".into() }
}

fn used(host: &str) -> CredentialUse {
    CredentialUse { key: Some(key(host)), needs_secret: true }
}

fn run_save(run: &mut SaveRun, answers: &[StoreAnswer]) -> Vec<StoreRequest> {
    let mut requests = Vec::new();
    for answer in answers {
        requests.push(run.request());
        run.handle(match answer {
            StoreAnswer::Found => StoreAnswer::Found,
            StoreAnswer::Missing => StoreAnswer::Missing,
            StoreAnswer::Succeeded => StoreAnswer::Succeeded,
            StoreAnswer::Failed(error) => StoreAnswer::Failed(error.clone()),
        });
    }
    requests
}

#[test]
fn saves_write_the_password_before_the_list() {
    let mut run = SaveRun::new(
        "Files".into(),
        true,
        true,
        Ok(key("new")),
        None,
        vec![used("new")],
    )
    .unwrap();
    let requests = run_save(
        &mut run,
        &[
            StoreAnswer::Missing,
            StoreAnswer::Succeeded,
            StoreAnswer::Succeeded,
            StoreAnswer::Succeeded,
        ],
    );
    assert_eq!(requests[0], StoreRequest::Read(key("new")));
    assert_eq!(requests[1], StoreRequest::Write(key("new")));
    assert_eq!(requests[2], StoreRequest::SaveList);
    assert!(matches!(requests[3], StoreRequest::Commit(_)));
    assert!(matches!(run.phase, SavePhase::Over(SaveEnd::Saved { .. })));
}

#[test]
fn a_list_that_is_not_saved_takes_the_password_back() {
    let mut run = SaveRun::new(
        "Files".into(),
        true,
        true,
        Ok(key("new")),
        None,
        vec![used("new")],
    )
    .unwrap();
    let requests = run_save(
        &mut run,
        &[
            StoreAnswer::Missing,
            StoreAnswer::Succeeded,
            StoreAnswer::Failed("disk full".into()),
            StoreAnswer::Succeeded,
        ],
    );
    assert_eq!(requests[3], StoreRequest::Remove(key("new")));
    assert!(matches!(&run.phase, SavePhase::Over(SaveEnd::Refused(text)) if text.contains("disk full")));
}

#[test]
fn moved_connections_drop_their_old_credential() {
    let mut run = SaveRun::new(
        "Files".into(),
        false,
        true,
        Ok(key("new")),
        Some(Ok(key("old"))),
        vec![used("new")],
    )
    .unwrap();
    let mut requests = Vec::new();
    for _ in 0..12 {
        let request = run.request();
        let answer = match &request {
            StoreRequest::Read(_) => StoreAnswer::Missing,
            _ => StoreAnswer::Succeeded,
        };
        requests.push(request);
        run.handle(answer);
    }
    assert!(requests.contains(&StoreRequest::Remove(key("old"))));
    assert!(!requests.contains(&StoreRequest::Remove(key("new"))));
}

#[test]
fn deletions_keep_a_shared_credential() {
    let mut requests = Vec::new();
    let mut run = DeleteRun::new("Files".into(), Ok(key("h")), vec![used("h")]).unwrap();
    for _ in 0..6 {
        requests.push(run.request());
        run.handle(StoreAnswer::Succeeded);
    }
    assert_eq!(requests[0], StoreRequest::SaveList);
    assert!(!requests.contains(&StoreRequest::Remove(key("h"))));

    let mut run = DeleteRun::new("Files".into(), Ok(key("h")), Vec::new()).unwrap();
    let mut requests = Vec::new();
    for _ in 0..6 {
        requests.push(run.request());
        run.handle(StoreAnswer::Succeeded);
    }
    assert!(requests.contains(&StoreRequest::Remove(key("h"))));
    assert!(same_key(&key("h"), &key("h")));
    assert!(!same_key(&key("h"), &key("i")));
    assert!(DeleteRun::new("x".into(), Err("no".into()), Vec::new()).is_err());
}

fn spec(id: usize, host: &str) -> ConnectionSpec {
    let (spec, _) = draft(&EditorForm { host: host.into(), ..form() }).unwrap();
    ConnectionSpec { id: ConnectionId(id), ..spec }
}

#[test]
fn saved_connections_keep_their_place() {
    let list = vec![spec(1, "a"), spec(2, "b")];
    assert_eq!(find_connection(&list, 2), Some(1));
    assert_eq!(find_connection(&list, 5), None);
    let changed = begin_save(list, 2, &form(), &limits(), 9).unwrap();
    assert_eq!(changed.position, 1);
    assert_eq!(changed.candidate[1].host, "files.example");
    assert_eq!(changed.candidate[1].id, ConnectionId(2));
    let added = begin_save(vec![spec(1, "a")], -1, &form(), &limits(), 9).unwrap();
    assert_eq!(added.candidate.len(), 2);
    assert_eq!(added.candidate[1].id, ConnectionId(9));
    assert_eq!(
        begin_save(Vec::new(), 3, &form(), &limits(), 9).unwrap_err(),
        "connection no longer exists"
    );
    let mut list = vec![spec(1, "a"), spec(2, "b")];
    assert_eq!(begin_delete(&mut list, 1).map(|gone| gone.host), Some("a".into()));
    assert_eq!(list.len(), 1);
    assert!(begin_delete(&mut list, 1).is_none());
}

#[test]
fn imports_add_no_endpoint_twice() {
    let list = vec![SavedConnection { spec: spec(1, "a"), key: Some(key("a")) }];
    let incoming = vec![
        ImportedConnection { spec: spec(0, "a"), key: Ok(key("a")) },
        ImportedConnection { spec: spec(0, "b"), key: Ok(key("b")) },
        ImportedConnection { spec: spec(0, "b"), key: Ok(key("b")) },
    ];
    let (merged, added) = merge_new(list, incoming, 5).unwrap();
    assert_eq!(added, 1);
    assert_eq!(merged.len(), 2);
    assert_eq!(merged[1].spec.id, ConnectionId(5));
    let broken = vec![ImportedConnection { spec: spec(0, "c"), key: Err("bad host".into()) }];
    assert_eq!(merge_new(Vec::new(), broken, 5).unwrap_err(), "bad host");
}

#[test]
fn import_formats_are_recognized() {
    assert_eq!(import_format(Some("JSON"), "<x>"), Some(ImportFormat::Json));
    assert_eq!(import_format(Some("xml"), ""), Some(ImportFormat::FileZilla));
    assert_eq!(import_format(None, " <FileZilla3>"), Some(ImportFormat::FileZilla));
    assert_eq!(import_format(None, "\n["), Some(ImportFormat::Json));
    assert_eq!(import_format(Some("txt"), "hello"), None);
    assert_eq!(
        import_message("f.json", &ImportEnd::Imported(2)),
        "imported 2 connection(s) from f.json"
    );
    assert_eq!(
        import_message("f.json", &ImportEnd::Imported(0)),
        "no new connections from f.json (all already present)"
    );
}

#[test]
fn rows_show_and_filter_connections() {
    let named = ConnectionSpec { group: "Prod".into(), ..spec(3, "ĄHost.example") };
    let row = connection_row(&named, 3, false);
    assert_eq!(row.sub, "alice@ĄHost.example:2121 · Prod · #Work #home");
    assert!(row.connected);
    assert_eq!(row.protocol, "SFTP");
    assert!(conn_row_matches(&row, " ąhost "));
    assert!(!conn_row_matches(&row, "other"));
    let rows = refresh_connections_model(&vec![named, spec(4, "b")], 4, false);
    assert_eq!(rows.len(), 2);
    assert_eq!(apply_server_filter(&rows, "prod").len(), 1);
    assert_eq!(apply_server_filter(&rows, "").len(), 2);
    let demo = ConnectionSpec { name: "Production".into(), ..spec(5, "c") };
    assert_eq!(demo_protocol_label(&demo, true), "FTPS");
}

#[test]
fn tests_of_connections_are_reported() {
    assert_eq!(
        test_message(&Ok((3, true))),
        "Connection successful — listed 3 item(s), but the session is plaintext FTP."
    );
    assert_eq!(
        test_message(&Ok((3, false))),
        "Connection successful — authentication and listing completed (3 item(s))."
    );
    let key = HostKeyChallenge::new("h:22".into(), "SHA256:x".into());
    assert!(test_message(&Err(NetError::HostKeyTrustRequired(key))).contains("SHA256:x"));
    let leaf = TlsCertificateChallenge::new("h:21".into(), "sha256:y".into(), None);
    assert!(test_message(&Err(NetError::TlsCertificateTrustRequired(leaf))).contains("sha256:y"));
    assert_eq!(
        test_message(&Err(NetError::Cancelled)),
        "Connection test failed: transfer cancelled"
    );
}
