use gmacftp::controllers::appearance::{
    effective_locale, effective_theme, restore_window_geometry, system_prefers_polish, translation,
    Monitor,
};
use gmacftp::controllers::menu::{
    dock_badge, pull_text, refresh_sync_title, sync_title, toggle_sync, SyncToggle,
};
use gmacftp::controllers::notices::Notice;
use gmacftp::controllers::settings::{
    folder_to_look_up, load_settings_form, not_saved_text, parse_settings_local_path,
    read_settings_form, settings_effects, FolderLookup, FormLookups, PaneRefresh, Settings,
    SettingsForm,
};
use gmacftp::controllers::settings_files::{
    backup_format, check_backup_document, check_backup_size, check_import_size, check_opened_file,
    check_read_bytes, check_selected_file, choose_sync_folder, clear_sync_folder,
    imported_settings, read_limit, redacted_diagnostics, removed_directories_text, Build,
    summarize_connections, FileFacts, BACKUP_VERSION,
};
use gmacftp::controllers::storage::{
    bounded_tree_size, compute_storage_stats, fragment_paths, is_temporary_name,
    storage_stats_summary, DirectorySize, RecoveredJob, SizeTexts, StorageFacts, StorageStats,
    TreeEntry, TreeRoot, TreeSize,
};
use gmacftp::model::{
    ConnectionId, ConnectionSpec, FtpDataMode, FtpFilenameEncoding, FtpTlsMode, Protocol, SftpAuth,
    TransferDirection, TransferId, TransferJob, TransferPriority,
};
use gmacftp::net::safe::{PathPart, PathParts};

fn settings() -> Settings {
    Settings {
        theme: "dark".into(),
        locale: "pl".into(),
        show_hidden_files: false,
        show_advanced_columns: false,
        background_folder_metadata: false,
        confirm_deletes: true,
        remote_quarantine_deletes: true,
        restore_workspace: true,
        open_connection_manager_on_launch: false,
        check_updates_automatically: true,
        last_left_local_path: Some("/home/me".into()),
        last_right_local_path: None,
        pane_split_px: 500,
        window_width_px: 1200,
        window_height_px: 800,
        window_x_px: Some(10),
        window_y_px: Some(20),
        transfer_concurrency: 3,
        per_server_transfer_concurrency: 2,
        transfer_retry_count: 2,
        transfer_retry_backoff_ms: 500,
        transfer_bandwidth_limit_kib: 0,
        existing_file_policy: "ask".into(),
        batch_error_policy: "pause".into(),
        queue_recovery_policy: "ask".into(),
        notify_transfer_completion: false,
        notify_transfer_failure: false,
        preserve_transfer_timestamps: false,
        preserve_transfer_permissions: false,
        sync_comparison: "size_mtime".into(),
        sync_mtime_tolerance_secs: 2,
        sync_exclusions: ".git".into(),
        sync_profiles: Vec::new(),
        editor_max_download_mib: 16,
        editor_auto_upload: true,
        editor_mappings: vec!["txt=TextEdit".into()],
        editor_conflict_action: "ask".into(),
        editor_temp_retention: "keep".into(),
        editor_retain_on_error: true,
        sync_via_icloud: true,
        sync_folder: Some("/private/sync".into()),
        sync_passphrase_set: true,
        keychain_migrated_v2: true,
        endpoint_credentials_migrated_v2: true,
    }
}

fn lookups() -> FormLookups {
    FormLookups {
        home: "/home/me".into(),
        mappings: Ok(vec!["txt=TextEdit".into()]),
        left: FolderLookup::Folder("/home/me".into()),
        right: FolderLookup::NotAFolder,
    }
}

fn form() -> SettingsForm {
    load_settings_form(&settings(), "txt=TextEdit".into())
}

#[test]
fn settings_survive_the_form() {
    let read = read_settings_form(&form(), &lookups(), settings()).unwrap();
    assert_eq!(read.theme, "dark");
    assert_eq!(read.transfer_retry_backoff_ms, 500);
    assert_eq!(read.last_left_local_path.as_deref(), Some("/home/me"));
    assert_eq!(read.last_right_local_path, None);
    assert_eq!(read.sync_folder.as_deref(), Some("/private/sync"));
    assert!(read.sync_via_icloud);
    assert_eq!(read.window_x_px, Some(10));
}

#[test]
fn numbers_of_the_form_are_checked() {
    let read = |form: SettingsForm| read_settings_form(&form, &lookups(), settings());
    assert_eq!(
        read(SettingsForm { retry_count: "x".into(), ..form() }).unwrap_err(),
        "Retries must be a whole non-negative number."
    );
    assert_eq!(
        read(SettingsForm { sync_tolerance: "-1".into(), ..form() }).unwrap_err(),
        "Sync tolerance must be a whole non-negative number."
    );
    assert!(read(SettingsForm { pane_split: "-1".into(), ..form() }).is_err());
    assert!(read(SettingsForm { left_path: "relative".into(), ..form() }).is_err());
    let mapped = FormLookups { mappings: Err("bad".into()), ..lookups() };
    assert_eq!(
        read_settings_form(&form(), &mapped, settings()).unwrap_err(),
        "Editor mappings: bad"
    );
}

#[test]
fn local_paths_are_absolute_folders() {
    assert_eq!(folder_to_look_up("~/x", "/home/me").as_deref(), Some("/home/me/x"));
    assert_eq!(folder_to_look_up(" ", "/home/me"), None);
    let read = |raw: &str, found: &FolderLookup| {
        parse_settings_local_path(raw, "Left pane path", "/home/me", found)
    };
    assert_eq!(read("", &FolderLookup::NotAFolder), Ok(None));
    assert_eq!(
        read("/tmp", &FolderLookup::Folder("/private/tmp".into())),
        Ok(Some("/private/tmp".into()))
    );
    assert!(read("/tmp", &FolderLookup::NotAFolder).is_err());
    assert!(read("/tmp", &FolderLookup::Unavailable("io".into())).is_err());
}

#[test]
fn saved_settings_take_effect() {
    let mut changed = settings();
    changed.notify_transfer_failure = true;
    changed.background_folder_metadata = true;
    let effects = settings_effects(&settings(), &changed, false, false);
    assert!(effects.request_notifications);
    assert_eq!(effects.panes, PaneRefresh::Reload);
    assert!(effects.resize_window);
    assert!(!settings_effects(&settings(), &settings(), true, false).resize_window);
    assert_eq!(not_saved_text("disk full"), "Could not save settings: disk full");
}

#[test]
fn windows_are_restored_where_they_can_be_seen() {
    let screen = Monitor { x: 0, y: 0, width: 2560, height: 1440 };
    let restored = restore_window_geometry(&settings(), &vec![screen]);
    assert_eq!(restored.size, Some((1200, 800)));
    assert_eq!(restored.position, Some((10, 20)));
    let mut lost = settings();
    lost.window_x_px = Some(9000);
    let screen = Monitor { x: 0, y: 0, width: 2560, height: 1440 };
    assert_eq!(restore_window_geometry(&lost, &vec![screen]).position, None);
}

#[test]
fn languages_and_themes_follow_the_system() {
    assert!(system_prefers_polish(Some("pl-PL"), &Vec::new()));
    assert!(!system_prefers_polish(Some("en-US"), &vec!["pl_PL".into()]));
    assert!(system_prefers_polish(None, &vec!["C".into(), "PL_pl".into()]));
    assert_eq!(effective_locale("system", true), "pl");
    assert_eq!(effective_locale("en", true), "en");
    assert_eq!(translation("en", true), "");
    assert_eq!(translation("pl", false), "pl");
    assert_eq!(effective_theme("light", Some(true)), "light");
    assert_ne!(effective_theme("system", Some(true)), effective_theme("system", Some(false)));
}

#[test]
fn imports_never_enable_synchronization() {
    let mut imported = settings();
    imported.sync_via_icloud = true;
    imported.sync_folder = Some("/elsewhere".into());
    imported.theme = "light".into();
    let mut current = settings();
    current.sync_via_icloud = false;
    current.sync_folder = None;
    let merged = imported_settings(imported, &current);
    assert!(!merged.sync_via_icloud);
    assert_eq!(merged.sync_folder, None);
    assert_eq!(merged.theme, "light");
}

#[test]
fn sync_folders_are_real_directories() {
    let mut changed = settings();
    assert_eq!(choose_sync_folder(&mut changed, "/new".into(), true, false), Ok(true));
    assert_eq!(changed.sync_folder.as_deref(), Some("/new"));
    assert!(choose_sync_folder(&mut changed, "/link".into(), true, true).is_err());
    assert_eq!(changed.sync_folder.as_deref(), Some("/new"));
    assert!(clear_sync_folder(&mut changed));
    assert_eq!(changed.sync_folder, None);
}

#[test]
fn selected_files_are_bounded() {
    let facts = FileFacts { is_file: true, is_symlink: false, len: 5, device: 1, inode: 2 };
    assert!(check_selected_file(&facts, 5).is_ok());
    assert!(check_selected_file(&facts, 4).is_err());
    let link = FileFacts { is_symlink: true, ..facts };
    assert!(check_selected_file(&link, 5).is_err());
    let before = FileFacts { is_file: true, is_symlink: false, len: 5, device: 1, inode: 2 };
    let swapped = FileFacts { is_file: true, is_symlink: false, len: 5, device: 1, inode: 3 };
    assert!(check_opened_file(&before, &before, 5).is_ok());
    assert!(check_opened_file(&before, &swapped, 5).is_err());
    assert_eq!(read_limit(5), 6);
    assert!(check_read_bytes(5, 5).is_ok());
    assert!(check_read_bytes(6, 5).is_err());
    assert!(check_backup_size(5, 5).is_ok());
    assert!(check_backup_size(6, 5).is_err());
    assert!(check_import_size(6, 5).is_err());
    assert!(check_backup_document(backup_format(), BACKUP_VERSION).is_ok());
    assert!(check_backup_document("other", BACKUP_VERSION).is_err());
    assert!(check_backup_document(backup_format(), BACKUP_VERSION + 1).is_err());
    assert!(removed_directories_text(1).contains("1 abandoned temporary directory;"));
    assert!(removed_directories_text(2).contains("2 abandoned temporary directories;"));
}

fn connection() -> ConnectionSpec {
    ConnectionSpec {
        id: ConnectionId(1),
        name: "secret name".into(),
        protocol: Protocol::Ftp,
        host: "secret.example".into(),
        port: 21,
        user: "secretuser".into(),
        initial_path: String::new(),
        group: String::new(),
        tags: Vec::new(),
        timeout_secs: None,
        keepalive_interval_secs: None,
        ftp_data_mode: FtpDataMode::Passive,
        ftp_filename_encoding: FtpFilenameEncoding::Auto,
        ftp_tls_mode: FtpTlsMode::Implicit,
        proxy_url: Some("http://secret.proxy:1".into()),
        use_ssh_config: false,
        ssh_proxy_jump: None,
        allow_plaintext_ftp: false,
        accept_invalid_tls: true,
        tls_pinned_sha256: None,
        tls_client_cert: None,
        tls_client_key: None,
        sftp_auth: SftpAuth::Password,
        sftp_private_key: None,
        transfer_concurrency: None,
    }
}

#[test]
fn diagnostics_are_redacted() {
    let connections = vec![connection()];
    let summary = summarize_connections(&connections);
    assert_eq!(summary.total, 1);
    assert_eq!(summary.ftp, 1);
    assert_eq!(summary.sftp, 0);
    assert_eq!(summary.implicit_ftps_endpoints, 1);
    assert_eq!(summary.proxy_endpoints, 1);
    assert_eq!(summary.legacy_tls_exceptions, 1);
    let mut odd = settings();
    odd.theme = "secret theme".into();
    let build = Build { app_version: "1.2.3", target_os: "macos", target_arch: "aarch64" };
    let report = redacted_diagnostics(&odd, &connections, StorageStats::default(), 4, build);
    assert_eq!(report.app_version, "1.2.3");
    assert_eq!(report.target_os, "macos");
    assert_eq!(report.target_arch, "aarch64");
    assert_eq!(report.recoverable_transfers, 4);
    assert_eq!(report.editor_mappings, 1);
    assert!(!format!("{report:?}").contains("secret"));
}

#[test]
fn measuring_is_bounded() {
    let mut tree = TreeSize::new(0, 3);
    assert_eq!(tree.next_directory(), Some(0));
    tree.listed(&vec![TreeEntry::File(5), TreeEntry::Directory(1)]);
    assert_eq!(tree.next_directory(), Some(1));
    tree.listed(&vec![TreeEntry::File(7), TreeEntry::File(100)]);
    assert_eq!(tree.next_directory(), None);
    assert_eq!(tree.bytes, 12);
    assert!(tree.truncated);
    let mut closed = TreeSize::new(0, 3);
    closed.next_directory();
    closed.unreadable();
    assert!(closed.truncated);
    assert_eq!(bounded_tree_size(TreeRoot::File(9)), Some((9, 1, false)));
    assert_eq!(bounded_tree_size(TreeRoot::Directory), None);
}

#[test]
fn storage_is_summed_up() {
    let facts = StorageFacts {
        config: Some(DirectorySize { bytes: 3, truncated: false }),
        caches: vec![(2, 100), (1, 50)],
        fragments: vec![7, 8],
        temporary: vec![DirectorySize { bytes: 4, truncated: true }],
    };
    let stats = compute_storage_stats(&facts);
    assert_eq!(stats.cache_entries, 3);
    assert_eq!(stats.cache_bytes_approx, 150);
    assert_eq!(stats.fragment_bytes, 15);
    assert_eq!(stats.temporary_directories, 1);
    assert!(stats.scan_truncated);
    let texts = SizeTexts {
        config: "3 B".into(),
        cache: "150 B".into(),
        fragments: "15 B".into(),
        temporary: "4 B".into(),
        logs: "0 B".into(),
    };
    assert_eq!(
        storage_stats_summary(&stats, &texts),
        "Config: 3 B  |  Metadata cache: ~150 B (3 entries)\nResume fragments: 15 B (2 files)  |  \
         Temporary edits/drags: 4 B (1 dirs)\nPersistent logs: 0 B  |  bounded scan truncated"
    );
    assert!(is_temporary_name("gmacftp-drag-1-2"));
    assert!(!is_temporary_name("other"));
}

#[test]
fn fragments_are_measured_once() {
    let job = |direction: TransferDirection, token: u64| RecoveredJob {
        job: TransferJob {
            id: TransferId(1),
            batch_id: 0,
            pause_on_error: false,
            priority: TransferPriority::Normal,
            direction,
            local_path: "/tmp/a".into(),
            remote_path: "/a".into(),
            bytes_total: None,
            source_modified_unix_nanos: None,
            resume_token: token,
        },
        destination: PathParts {
            absolute: true,
            parts: vec![PathPart::Normal(b"tmp".to_vec()), PathPart::Normal(b"a".to_vec())],
        },
    };
    let jobs = vec![
        job(TransferDirection::Download, 5),
        job(TransferDirection::Download, 5),
        job(TransferDirection::Download, 0),
        job(TransferDirection::Upload, 6),
    ];
    assert_eq!(fragment_paths(&jobs).len(), 1);
}

#[test]
fn menus_show_the_state_of_synchronization() {
    assert_eq!(sync_title(true), "iCloud Sync: ON  (click to turn off)");
    assert_eq!(refresh_sync_title(false, true), None);
    assert_eq!(refresh_sync_title(true, false), Some("iCloud Sync: OFF  (click to turn on)"));
    assert_eq!(toggle_sync(false, false), SyncToggle::AskForPassphrase);
    assert_eq!(toggle_sync(false, true), SyncToggle::Switch { on: true });
    assert_eq!(toggle_sync(true, false), SyncToggle::Switch { on: false });
    assert!(pull_text(true, Some("today")).contains("today"));
    assert_eq!(dock_badge(0), None);
    assert_eq!(dock_badge(7).as_deref(), Some("7"));
    assert_eq!(dock_badge(5000).as_deref(), Some("999"));
}

#[test]
fn windows_show_fixed_texts() {
    assert_eq!(Notice::SettingsSaved.text(), "Settings saved.");
    assert_eq!(
        Notice::NothingSelected.text(),
        "Nothing is selected. Select at least one copy or deletion action."
    );
    assert_eq!(Notice::SyncReportCancelled.text(), "Sync report export cancelled.");
}
