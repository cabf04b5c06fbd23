use gmacftp::controllers::sync_form::{opening_form, profile_form, reselected_profile};
use gmacftp::controllers::sync_mirror::{
    delete_local_mirror_target, run_mirror_deletions, sync_metadata_matches, LocalRemoval,
    LocalTarget, MirrorDeletionReport, MirrorRun, MirrorStep, SourceState,
};
use gmacftp::controllers::sync_plan::{
    checksum_inputs, folder_sync_context, folder_sync_context_is_current, join_remote,
    prepare_folder_sync, preview_sync, remote_digests, with_digests, FolderSyncDeletion,
    FolderSyncKey, PaneSummary, PreparedFolderSync,
};
use gmacftp::controllers::sync_profiles::{
    delete_sync_profile, deleted_profile_text, find_profile, load_sync_profile,
    loaded_profile_text, read_profile, refresh_sync_profile_model, save_sync_profile,
    saved_profile_text, sync_endpoint_fingerprint, SyncProfile,
};
use gmacftp::controllers::sync_report::{
    folder_sync_report, folder_sync_report_bytes, folder_sync_summary, show_folder_sync_preview,
    sync_reason_name,
};
use gmacftp::controllers::sync_scan::{
    local_inventory, parse_folder_sync_options, remote_inventory, remote_sync_relative, Inventory,
    LocalFacts, LocalScan,
};
use gmacftp::controllers::sync_session::{
    after_scan, carry_choices, copies_to_queue, deletions_to_run, queued_status, read_form,
    same_dry_run, scanning_text, start_folder_sync_scan, toggle_sync_row, ScanOutcome, SyncForm,
};
use gmacftp::folder_sync::{SyncFileMetadata, SyncMode, SyncOptions, SyncReason};
use gmacftp::model::{ConnectionId, TransferDirection};
use gmacftp::net::safe::{PathPart, PathParts};
use gmacftp::net::{NetError, RemoteFileMetadata};

fn path(parts: &[&str]) -> PathParts {
    PathParts {
        absolute: true,
        parts: parts.iter().map(|part| PathPart::Normal(part.as_bytes().to_vec())).collect(),
    }
}

fn panes() -> Vec<PaneSummary> {
    vec![
        PaneSummary {
            is_remote: false,
            local_directory: path(&["home", "site"]),
            remote_directory: String::new(),
            connection: None,
        },
        PaneSummary {
            is_remote: true,
            local_directory: path(&[]),
            remote_directory: "/www".into(),
            connection: Some(ConnectionId(3)),
        },
    ]
}

fn context() -> FolderSyncKey {
    folder_sync_context(&panes()).unwrap()
}

fn metadata(bytes: u64) -> SyncFileMetadata {
    SyncFileMetadata { bytes, modified: Some(100), sha256: None }
}

fn inventory(files: &[(&str, &str, u64)]) -> Inventory {
    let mut inventory = Inventory::new();
    for (relative, path, bytes) in files {
        assert!(inventory.insert_new(relative, path, metadata(*bytes)));
    }
    inventory
}

fn mirror() -> SyncOptions {
    SyncOptions { mode: SyncMode::Mirror, ..SyncOptions::default() }
}

/// An upload of one new file, with one file to delete on the server.
fn prepared(options: SyncOptions) -> PreparedFolderSync {
    let local = inventory(&[("new.txt", "/home/site/new.txt", 5), ("same.txt", "/home/site/same.txt", 1)]);
    let remote = inventory(&[("old.txt", "/www/old.txt", 7), ("same.txt", "/www/same.txt", 1)]);
    let preview = preview_sync(TransferDirection::Upload, &local, &remote, &Vec::new(), options);
    prepare_folder_sync(
        context(),
        TransferDirection::Upload,
        Vec::new(),
        options,
        &local,
        &remote,
        preview,
        &Vec::new(),
    )
    .unwrap()
}

#[test]
fn one_local_and_one_remote_pane_are_synchronized() {
    let key = context();
    assert_eq!(key.local_pane, 0);
    assert_eq!(key.remote_pane, 1);
    assert_eq!(key.remote_root, "/www");
    assert!(folder_sync_context_is_current(&panes(), &key));
    let mut moved = panes();
    moved[1].remote_directory = "/other".into();
    assert!(!folder_sync_context_is_current(&moved, &key));
    let mut both_local = panes();
    both_local[1].is_remote = false;
    assert!(folder_sync_context(&both_local).is_err());
}

#[test]
fn dry_runs_list_copies_and_deletions() {
    let prepared = prepared(mirror());
    assert_eq!(prepared.candidates.len(), 1);
    assert_eq!(prepared.candidates[0].local_path, "/home/site/new.txt");
    assert_eq!(prepared.candidates[0].remote_path, "/www/new.txt");
    assert_eq!(prepared.deletions.len(), 1);
    assert_eq!(prepared.deletions[0].remote_path, "/www/old.txt");
    assert_eq!(join_remote("/www/", "a"), "/www/a");

    let one_way = self::prepared(SyncOptions::default());
    assert!(one_way.deletions.is_empty());
}

#[test]
fn options_are_read_from_the_form() {
    let read = |comparison: &str, tolerance: &str, offset: &str, mode: &str| {
        parse_folder_sync_options(TransferDirection::Upload, comparison, tolerance, offset, mode)
    };
    let options = read("size_mtime", " 2 ", "-60", "mirror").unwrap();
    assert_eq!(options.mode, SyncMode::Mirror);
    assert_eq!(options.mtime_tolerance_seconds, 2);
    assert_eq!(options.source_time_adjustment_seconds, 0);
    assert_eq!(options.target_time_adjustment_seconds, 60);
    assert!(read("bytes", "2", "0", "mirror").is_err());
    assert!(read("checksum", "86401", "0", "mirror").is_err());
    assert!(read("checksum", "x", "0", "mirror").is_err());
    assert!(read("checksum", "2", "86401", "mirror").is_err());
    assert!(read("checksum", "2", "x", "mirror").is_err());
    assert!(read("checksum", "2", "0", "both").is_err());
}

#[test]
fn remote_paths_stay_within_their_folder() {
    assert_eq!(remote_sync_relative("/www/", "/www/a/b").unwrap(), "a/b");
    assert_eq!(remote_sync_relative("/", "/a").unwrap(), "a");
    assert!(remote_sync_relative("/www", "/other/a").is_err());
    assert!(remote_sync_relative("/www", "/www/").is_err());
}

fn scanned(relative: &str, bytes: u64, facts: Result<LocalFacts, String>) -> LocalScan {
    LocalScan { path: format!("/home/site/{relative}"), relative: relative.into(), bytes, facts }
}

fn steady(bytes: u64) -> Result<LocalFacts, String> {
    Ok(LocalFacts { regular: true, bytes, modified: Some(100) })
}

#[test]
fn scans_that_changed_are_not_trusted() {
    let found = local_inventory(&vec![scanned("a", 1, steady(1)), scanned("b", 2, steady(2))]);
    assert_eq!(found.unwrap().metadata.len(), 2);
    assert_eq!(
        local_inventory(&vec![scanned("a", 1, steady(2))]).err().unwrap(),
        "local file changed during sync scan: a"
    );
    assert!(local_inventory(&vec![scanned("a", 1, Err("gone".into()))]).is_err());
    assert!(local_inventory(&vec![scanned("a", 1, steady(1)), scanned("a", 1, steady(1))]).is_err());

    let file = |path: &str| RemoteFileMetadata { path: path.into(), size: 4, mtime: None };
    let found = remote_inventory("/www", &vec![file("/www/a")], "twice: ").unwrap();
    assert_eq!(found.metadata.get("a").map(|m| m.bytes), Some(4));
    assert_eq!(
        remote_inventory("/www", &vec![file("/www/a"), file("/www/./a")], "twice: ").err().unwrap(),
        "twice: a"
    );
    assert!(remote_inventory("/www", &vec![file("/etc/a")], "twice: ").is_err());
}

#[test]
fn checksums_are_taken_where_both_sides_have_the_file() {
    let local = inventory(&[("a", "/l/a", 1), ("b", "/l/b", 1)]);
    let remote = inventory(&[("a", "/r/a", 1), ("c", "/r/c", 1)]);
    let inputs = checksum_inputs(&local, &remote, &Vec::new(), 10).unwrap();
    assert_eq!(inputs.len(), 1);
    assert_eq!(inputs[0].remote_path, "/r/a");
    assert!(checksum_inputs(&local, &remote, &Vec::new(), 0).is_err());
    let known = with_digests(local, &inputs, &vec![[7; 32]]);
    assert_eq!(known.metadata.get("a").and_then(|m| m.sha256), Some([7; 32]));
    assert_eq!(known.metadata.get("b").and_then(|m| m.sha256), None);
    assert_eq!(remote_digests(&inputs, &vec![Some([1; 32])]).unwrap(), vec![[1; 32]]);
    assert!(remote_digests(&inputs, &vec![None]).is_err());
}

fn form() -> SyncForm {
    SyncForm {
        direction: "upload".into(),
        exclusions: ".git".into(),
        comparison: "size_mtime".into(),
        tolerance: "2".into(),
        server_clock_offset: "0".into(),
        mode: "mirror".into(),
        mirror_confirmed: false,
    }
}

#[test]
fn deletions_need_their_own_confirmation() {
    let shown = prepared(mirror());
    assert!(read_form(&form()).is_ok());
    assert!(read_form(&SyncForm { direction: "both".into(), ..form() }).is_err());
    assert!(read_form(&SyncForm { exclusions: "../x".into(), ..form() }).is_err());
    let start = |form: &SyncForm, expected: Option<&PreparedFolderSync>, apply: bool| {
        start_folder_sync_scan(form, &Ok(context()), expected, apply, true)
    };
    assert!(start(&form(), None, false).is_ok());
    assert_eq!(
        start(&form(), None, true).unwrap_err().summary,
        "Run a dry-run preview before applying."
    );
    assert!(start(&form(), Some(&shown), true).is_err());
    let confirmed = SyncForm { mirror_confirmed: true, ..form() };
    assert!(start(&confirmed, Some(&shown), true).is_ok());
    assert!(start_folder_sync_scan(&form(), &Err("no".into()), None, false, true).is_err());
    assert_ne!(scanning_text(true), scanning_text(false));
}

#[test]
fn only_what_was_shown_is_applied() {
    let shown = prepared(mirror());
    assert!(same_dry_run(&shown, &prepared(mirror())));
    assert!(matches!(
        after_scan(true, Ok(prepared(mirror())), true, Some(&shown), true),
        ScanOutcome::Apply(_)
    ));
    assert!(matches!(
        after_scan(true, Ok(prepared(mirror())), true, Some(&shown), false),
        ScanOutcome::Preview { .. }
    ));
    assert!(matches!(
        after_scan(true, Ok(prepared(mirror())), true, None, false),
        ScanOutcome::Preview { changed: false, .. }
    ));
    assert_eq!(
        after_scan(false, Ok(prepared(mirror())), true, Some(&shown), true),
        ScanOutcome::Superseded
    );
    assert!(matches!(
        after_scan(true, Ok(prepared(mirror())), false, Some(&shown), true),
        ScanOutcome::Failed(refusal) if refusal.error.is_none()
            && refusal.summary == "A pane changed during the scan; run the preview again."
    ));
    assert!(matches!(
        after_scan(true, Err("x".into()), true, None, false),
        ScanOutcome::Failed(refusal) if refusal.summary == "Sync preview failed: x"
            && refusal.error.as_deref() == Some("Sync preview failed: x")
    ));
    let mut other = prepared(mirror());
    other.candidates[0].bytes = 6;
    assert!(matches!(
        after_scan(true, Ok(other), true, Some(&shown), true),
        ScanOutcome::Preview { changed: true, .. }
    ));
}

#[test]
fn choices_are_carried_over() {
    let mut shown = prepared(mirror());
    assert!(toggle_sync_row(&mut shown, 0));
    assert!(!shown.candidates[0].included);
    let carried = carry_choices(prepared(mirror()), &shown);
    assert!(!carried.candidates[0].included);
    assert!(copies_to_queue(&carried.candidates).is_empty());
    assert_eq!(deletions_to_run(&carried.deletions).len(), 1);
    assert!(toggle_sync_row(&mut shown, 0));
    assert!(shown.candidates[0].included);
    assert!(!toggle_sync_row(&mut shown, 9));
    assert!(queued_status(2, false).contains('2'));
}

#[test]
fn reports_hold_relative_paths_alone() {
    let prepared = prepared(mirror());
    let rows = show_folder_sync_preview(&prepared, 10);
    assert_eq!(rows.len(), 2);
    assert_eq!(rows[0].path, "new.txt");
    let report = folder_sync_report(&prepared, 1);
    assert!(report.truncated);
    assert_eq!(report.total_actions, 2);
    assert_eq!(report.items.len(), 1);
    assert_eq!(report.exported_actions, 1);
    assert_eq!(report.format, "gmacftp-sync-dry-run");
    assert_eq!(report.format_version, 1);
    assert!(report.privacy.starts_with("relative paths only"));
    assert!(!format!("{report:?}").contains("/home/site"));
    assert!(!format!("{report:?}").contains("/www"));
    assert!(!folder_sync_summary(&prepared, false, 10).is_empty());
    assert_eq!(sync_reason_name(SyncReason::Missing), "missing");
    assert_eq!(folder_sync_report_bytes(vec![1, 2], 2).unwrap(), vec![1, 2]);
    assert!(folder_sync_report_bytes(vec![1, 2, 3], 2).is_err());
}

fn deletion() -> FolderSyncDeletion {
    FolderSyncDeletion {
        label: "old.txt".into(),
        local_path: "/home/site/old.txt".into(),
        remote_path: "/www/old.txt".into(),
        metadata: metadata(7),
        included: true,
    }
}

#[test]
fn deletions_are_checked_one_by_one() {
    let remote = inventory(&[("old.txt", "/www/old.txt", 7)]);
    let mut run = MirrorRun::new(TransferDirection::Upload, vec![deletion()], remote);
    let first = run.step(true);
    assert_eq!(first, MirrorStep::CheckSource("old.txt".into()));
    assert_eq!(
        run.source_checked(SourceState::Absent),
        MirrorStep::DeleteRemote("/www/old.txt".into())
    );
    run.remote_deleted(Ok(()));
    assert_eq!(run.step(true), MirrorStep::Finished);
    assert_eq!(run.report.deleted, 1);

    let remote = inventory(&[("old.txt", "/www/old.txt", 7)]);
    let mut run = MirrorRun::new(TransferDirection::Upload, vec![deletion()], remote);
    run.step(true);
    run.source_checked(SourceState::Present);
    assert_eq!(run.step(true), MirrorStep::Finished);
    assert_eq!(run.report.deleted, 0);
    assert_eq!(run.report.skipped, 1);

    let remote = inventory(&[("old.txt", "/www/old.txt", 7)]);
    let mut run = MirrorRun::new(TransferDirection::Upload, vec![deletion()], remote);
    run.step(true);
    run.source_checked(SourceState::Absent);
    run.remote_deleted(Err(NetError::Ftp("550 denied".into())));
    assert_eq!(run.report.failed, 1);
    assert!(run.report.error_text().contains("550 denied"));
}

#[test]
fn local_deletions_are_counted() {
    let remote = inventory(&[]);
    let mut run = MirrorRun::new(TransferDirection::Download, vec![deletion()], remote);
    assert_eq!(run.step(true), MirrorStep::DeleteLocal(0));
    run.local_deleted(LocalRemoval::Deleted);
    assert_eq!(run.step(true), MirrorStep::Finished);
    assert_eq!(run.report.deleted, 1);
    assert!(run.report.status().contains('1'));
}

#[test]
fn deselected_deletions_are_never_run() {
    let mut kept = deletion();
    kept.included = false;
    let nothing = run_mirror_deletions(&vec![kept], true, true, None).unwrap();
    assert_eq!(nothing.skipped, 0);
    assert!(nothing.first_problem.is_none());
    let mut kept = deletion();
    kept.included = false;
    let stopped = run_mirror_deletions(&vec![kept, deletion()], false, true, None).unwrap();
    assert_eq!(stopped.skipped, 1);
    let mut kept = deletion();
    kept.included = false;
    let run = MirrorRun::new(
        TransferDirection::Download,
        vec![kept, deletion()],
        inventory(&[]),
    );
    assert_eq!(run.deletions.len(), 1);
    assert!(run.deletions[0].included);
}

#[test]
fn mirrors_do_not_start_without_their_context() {
    assert!(run_mirror_deletions(&vec![deletion()], true, true, None).is_none());
    let stopped = run_mirror_deletions(&vec![deletion()], false, true, None).unwrap();
    assert_eq!(stopped.skipped, 1);
    assert!(run_mirror_deletions(&vec![deletion()], true, false, None).is_some());
    assert!(run_mirror_deletions(&vec![deletion()], true, true, Some("x".into())).is_some());
    let mut report = MirrorDeletionReport::default();
    report.skip("first".into());
    report.fail("second".into());
    report.skip_many(3, "third".into());
    assert_eq!(report.skipped, 4);
    assert_eq!(report.failed, 1);
    assert_eq!(report.first_problem.as_deref(), Some("first"));
}

#[test]
fn local_targets_must_be_as_they_were_seen() {
    let stored = path(&["home", "site", "old.txt"]);
    let expected = Ok(path(&["home", "site", "old.txt"]));
    let delete = |current: &LocalTarget| {
        delete_local_mirror_target(
            &deletion(),
            &expected,
            &stored,
            "/home/site/old.txt",
            &Ok(()),
            current,
        )
    };
    let facts = |bytes: u64| LocalTarget::Present(LocalFacts {
        regular: true,
        bytes,
        modified: Some(100),
    });
    assert_eq!(delete(&facts(7)), Ok(true));
    assert_eq!(delete(&facts(8)), Ok(false));
    assert_eq!(delete(&LocalTarget::Missing), Ok(false));
    assert!(delete(&LocalTarget::Unreadable("io".into())).is_err());
    assert!(sync_metadata_matches(&metadata(7), 7, Some(100)));
    assert!(!sync_metadata_matches(&metadata(7), 7, Some(101)));
}

fn profile(name: &str) -> SyncProfile {
    read_profile(name, &form(), &Ok(context()), "/home/site", &Ok("fp".into())).unwrap()
}

#[test]
fn saved_profiles_are_found_again() {
    let mut profiles = Vec::new();
    assert_eq!(save_sync_profile(&mut profiles, profile(" Site "), 2), Ok(0));
    assert_eq!(profiles[0].name, "Site");
    assert_eq!(save_sync_profile(&mut profiles, profile("Other"), 2), Ok(1));
    assert!(save_sync_profile(&mut profiles, profile("Third"), 2).is_err());
    assert!(save_sync_profile(&mut profiles, profile("Site"), 2).is_ok());
    let at = find_profile(&profiles, "Site").unwrap();
    let load = |profile: &SyncProfile, fingerprint: Option<&str>| {
        load_sync_profile(profile, &Ok(context()), fingerprint, &Ok(true), true)
    };
    assert!(load(&profiles[at], Some("fp")).is_ok());
    assert!(load(&profiles[at], Some("another")).is_err());
    assert_eq!(delete_sync_profile(&mut profiles, at).as_deref(), Some("Site"));
    assert_eq!(delete_sync_profile(&mut profiles, 9), None);
    assert!(saved_profile_text("Site").contains("Site"));
    assert!(loaded_profile_text("Site").contains("Site"));
    assert!(deleted_profile_text("Site").contains("Site"));
    assert_eq!(refresh_sync_profile_model(0, None), -1);
    assert!(read_profile("", &form(), &Ok(context()), "/home/site", &Ok("fp".into())).is_err());
    assert!(read_profile("x", &form(), &Err("no".into()), "/home/site", &Ok("fp".into())).is_err());
}

#[test]
fn loaded_profiles_ask_for_the_same() {
    let mut saved = form();
    saved.direction = "download".into();
    saved.mode = "mirror".into();
    saved.mirror_confirmed = true;
    saved.tolerance = " +7 ".into();
    saved.server_clock_offset = "-3600".into();
    saved.exclusions = "./cache/; *.tmp\n*.tmp".into();
    let profile =
        read_profile("Site", &saved, &Ok(context()), "/home/site", &Ok("fp".into())).unwrap();
    assert_eq!(profile.exclusions, "cache, *.tmp");
    let shown = profile_form(&profile);
    assert_eq!(shown.tolerance, "7");
    assert_eq!(shown.server_clock_offset, "-3600");
    assert!(!shown.mirror_confirmed);
    assert_eq!(read_form(&shown).unwrap(), read_form(&saved).unwrap());
}

#[test]
fn the_window_opens_without_deletions() {
    let opened = opening_form(".git, *.tmp", "size_mtime", 2);
    assert_eq!(opened.direction, "upload");
    assert_eq!(opened.mode, "one_way");
    assert_eq!(opened.tolerance, "2");
    assert_eq!(opened.server_clock_offset, "0");
    assert!(!opened.mirror_confirmed);
    let request = read_form(&opened).unwrap();
    assert_eq!(request.options.mode, SyncMode::OneWay);
    assert_eq!(request.exclusions, vec![".git".to_string(), "*.tmp".to_string()]);
}

#[test]
fn a_saved_profile_stays_selected() {
    let profiles = vec![profile("One"), profile("Two")];
    assert_eq!(reselected_profile(&profiles, "TWO", 0), 1);
    assert_eq!(reselected_profile(&profiles, "Three", 1), 1);
    assert_eq!(reselected_profile(&profiles, "Three", 9), 1);
    assert_eq!(reselected_profile(&Vec::new(), "Three", 9), 0);
}

#[test]
fn endpoints_have_a_fingerprint() {
    let one = sync_endpoint_fingerprint("sftp", "files.example", 22, "alice");
    assert_eq!(one.len(), 64);
    assert_eq!(one, sync_endpoint_fingerprint("sftp", "files.example", 22, "alice"));
    assert_ne!(one, sync_endpoint_fingerprint("sftp", "files.example", 2222, "alice"));
    assert_ne!(one, sync_endpoint_fingerprint("sftp", "files.example", 22, "bob"));
}
