use gmacftp::controllers::drag_drop::{
    after_root_attempt, bounded_download_result, drag_root_name, drag_root_owner, exceeds,
    is_abandoned, validate_drag_budget, DragFolder, DragLimits, DragStep, RootAttempt, RootStep,
};
use gmacftp::controllers::transfer_report::{
    check_report_size, concurrency_limit, concurrency_text, count_rows, dock_progress,
    move_outcome, parse_mbps, pause_outcome, priority_outcome, resolve_transfer_error,
    retry_outcome, transfer_counts, transfer_error_category, transfer_report,
    transfer_summary_from_rows, DockProgress, IdSource, RetryAnswer,
};
use gmacftp::controllers::transfers::{
    transfer_priority, MoveStep, TransferPanel, TransferRow,
};
use gmacftp::controllers::updates::{
    checks_automatically, CheckOrigin, CheckResult, CheckStep, LatestUpdate, UpdateNotice,
    UpdateState,
};
use gmacftp::controllers::TransferRowState;
use gmacftp::model::TransferPriority;
use gmacftp::net::NetError;

fn row(id: i32, state: &str, priority: &str) -> TransferRow {
    TransferRow {
        id,
        name: format!("file {id}"),
        direction: "up".into(),
        state: state.into(),
        priority: priority.into(),
        done: 1,
        total: 4,
        progress_text: String::new(),
        message: String::new(),
    }
}

fn panel(rows: &[(i32, &str, &str)]) -> TransferPanel {
    let mut panel = TransferPanel::new();
    for (id, state, priority) in rows {
        panel.jobs_push(row(*id, state, priority));
    }
    panel
}

fn ids(panel: &TransferPanel) -> Vec<i32> {
    panel.rows.iter().map(|row| row.id).collect()
}

#[test]
fn the_index_follows_the_rows() {
    let mut panel = panel(&[(5, "queued", "normal"), (6, "done", "normal"), (7, "active", "high")]);
    assert_eq!(panel.row_of(7), Some(2));
    assert_eq!(panel.row_of(9), None);
    assert_eq!(panel.clear_finished(), vec![6]);
    assert_eq!(ids(&panel), vec![5, 7]);
    assert_eq!(panel.row_of(7), Some(1));
    panel.rebuild_transfer_index();
    assert_eq!(panel.row_of(5), Some(0));
    panel.jobs_set(5, "failed".into(), 1, 2, "half".into(), "denied".into());
    assert_eq!(panel.rows[0].message, "denied");
    assert!(panel.dismiss(5));
    assert!(!panel.dismiss(5));
    assert_eq!(ids(&panel), vec![7]);
}

#[test]
fn clearing_drops_finished_transfers_alone() {
    let mut panel = panel(&[
        (1, "done", "normal"),
        (2, "failed", "normal"),
        (3, "queued", "normal"),
        (4, "cancelled", "normal"),
        (5, "recovered", "normal"),
        (6, "paused", "normal"),
    ]);
    assert_eq!(panel.clear_finished(), vec![5, 4, 2, 1]);
    assert_eq!(ids(&panel), vec![3, 6]);
}

#[test]
fn transfers_move_within_their_priority() {
    let mut panel = panel(&[
        (1, "queued", "high"),
        (2, "queued", "normal"),
        (3, "active", "normal"),
        (4, "paused", "normal"),
    ]);
    assert_eq!(panel.plan_move(4, -1), MoveStep::Swap { at: 3, other: 1 });
    panel.swap_rows(3, 1);
    assert_eq!(ids(&panel), vec![1, 4, 3, 2]);
    assert_eq!(panel.plan_move(4, 1), MoveStep::Swap { at: 1, other: 3 });
    panel.swap_rows(1, 3);
    assert_eq!(ids(&panel), vec![1, 2, 3, 4]);
    assert_eq!(panel.plan_move(1, -1), MoveStep::AtEdge);
    assert_eq!(panel.plan_move(3, 1), MoveStep::NotWaiting);
    assert_eq!(panel.plan_move(9, 1), MoveStep::Unknown);
}

#[test]
fn transfers_change_their_state() {
    let mut panel = panel(&[(1, "queued", "normal")]);
    panel.pausing(1, true);
    assert_eq!(panel.rows[0].state, "paused");
    panel.pausing(1, false);
    assert_eq!(panel.rows[0].state, "queued");
    panel.prioritizing(1, "high".into());
    assert_eq!(panel.rows[0].priority, "high");
    panel.retrying(1, "0 B".into());
    assert_eq!(panel.rows[0].progress_text, "0 B");
    panel.cancelling(1);
    assert!(panel.rows[0].message.to_lowercase().contains("cancel"));
    assert_eq!(transfer_priority("high"), Some(TransferPriority::High));
    assert_eq!(transfer_priority("highest"), None);
}

#[test]
fn outcomes_are_told() {
    assert!(pause_outcome(true, true).is_ok());
    assert!(pause_outcome(false, true).is_err());
    assert!(priority_outcome("high", true).is_ok());
    assert!(priority_outcome("highest", true).is_err());
    assert!(priority_outcome("high", false).is_err());
    assert!(matches!(move_outcome(MoveStep::Swap { at: 0, other: 1 }, true), Some(Ok(_))));
    assert!(matches!(move_outcome(MoveStep::Swap { at: 0, other: 1 }, false), Some(Err(_))));
    assert!(matches!(move_outcome(MoveStep::NotWaiting, true), Some(Err(_))));
    assert!(retry_outcome(RetryAnswer::Queued).is_ok());
    assert!(retry_outcome(RetryAnswer::NotFound).is_err());
    assert!(retry_outcome(RetryAnswer::QueueFull).is_err());
    assert_eq!(concurrency_limit(9, 1, 4), 4);
    assert_eq!(concurrency_limit(-3, 1, 4), 1);
    assert!(concurrency_text(3).contains('3'));
    assert!(resolve_transfer_error("12", true).is_some());
    assert!(resolve_transfer_error("x", true).is_none());
}

#[test]
fn errors_fall_into_categories() {
    let category = |message: &str| transfer_error_category("failed", message);
    assert_eq!(category("Permission denied"), Some("permission"));
    assert_eq!(category("530 Login incorrect"), Some("authentication"));
    assert_eq!(category("No space left"), Some("storage"));
    assert_eq!(category("connection reset"), Some("network"));
    assert_eq!(category("already exists"), Some("conflict"));
    assert_eq!(category("?"), Some("other"));
    assert_eq!(transfer_error_category("cancelled", "x"), Some("cancelled"));
    assert_eq!(transfer_error_category("done", "x"), None);
}

#[test]
fn reports_hold_no_names() {
    let mut named = row(1, "failed", "normal");
    named.name = "/secret/plan.pdf".into();
    named.message = "denied: /secret/plan.pdf".into();
    named.done = -5;
    let report = transfer_report(&vec![named], 1_700_000_000);
    assert_eq!(report.schema, "gmacftp-redacted-transfer-report-v1");
    assert_eq!(report.generated_unix_seconds, 1_700_000_000);
    assert!(report.privacy.ends_with("omitted"));
    let items = report.items;
    assert_eq!(items[0].ordinal, 1);
    assert_eq!(items[0].displayed_bytes_done, 0);
    assert_eq!(items[0].displayed_bytes_total, 4);
    assert_eq!(items[0].error_category, Some("permission"));
    assert!(!format!("{items:?}").contains("secret"));
    assert!(check_report_size(2_097_152).is_ok());
    assert!(check_report_size(2_097_153).is_err());
}

#[test]
fn rows_are_summed_up() {
    let rows = vec![
        row(1, "active", "normal"),
        row(2, "queued", "normal"),
        row(3, "failed", "normal"),
        row(4, "done", "normal"),
    ];
    assert_eq!(count_rows(&rows, TransferRowState::Queued), 1);
    assert!(!transfer_summary_from_rows(&rows, Some("3.0")).is_empty());
    assert_eq!(parse_mbps("12.5 MB/s").as_deref(), Some("12.5"));
    assert_eq!(parse_mbps("fast"), None);
    assert_eq!(dock_progress(&Vec::new()), DockProgress::Idle);
    assert!(matches!(dock_progress(&rows), DockProgress::Bytes { .. }));
    let counts = transfer_counts(&rows);
    assert!(counts.0 <= rows.len() && counts.1 <= rows.len());
}

#[test]
fn identities_are_fresh() {
    let mut source = IdSource::new();
    let first = source.fresh_xfer_id();
    let second = source.fresh_xfer_id();
    assert_ne!(first, second);
    source.reserve_xfer_ids_after(50);
    assert_eq!(source.fresh_xfer_id(), 51);
    assert_eq!(source.fresh_xfer_id(), 52);
    source.reserve_xfer_ids_after(10);
    assert_eq!(source.fresh_xfer_id(), 53);
    source.reserve_xfer_ids_after(usize::MAX);
    assert_eq!(source.next, usize::MAX);
}

fn drag_limits() -> DragLimits {
    DragLimits { max_files: 2, max_bytes: 10, max_bytes_text: "10 B".into() }
}

#[test]
fn root_names_read_back() {
    let name = drag_root_name(4242);
    assert!(name.starts_with("gmacftp-drag-4242-"));
    assert_eq!(drag_root_owner(&name), Some(4242));
    assert_ne!(name, drag_root_name(4242));
    assert_eq!(drag_root_owner("gmacftp-drag-x-1"), None);
    assert_eq!(drag_root_owner("other"), None);
    assert!(is_abandoned(&name, false, true));
    assert!(!is_abandoned(&name, true, true));
    assert!(!is_abandoned(&name, false, false));
    assert_eq!(after_root_attempt(RootAttempt::Created, 1), RootStep::Ready);
    assert_eq!(after_root_attempt(RootAttempt::Exists, 1), RootStep::TryAgain);
    assert!(matches!(after_root_attempt(RootAttempt::Exists, 16), RootStep::GiveUp(_)));
    assert!(matches!(
        after_root_attempt(RootAttempt::Failed("x".into()), 1),
        RootStep::GiveUp(_)
    ));
}

#[test]
fn staging_for_a_drag_is_bounded() {
    assert!(validate_drag_budget(2, 10, &drag_limits()).is_ok());
    assert_eq!(
        validate_drag_budget(3, 10, &drag_limits()).unwrap_err(),
        "drag staging is limited to 2 files; use the transfer queue instead"
    );
    assert_eq!(
        validate_drag_budget(2, 11, &drag_limits()).unwrap_err(),
        "drag staging is limited to 10 B; use the transfer queue instead"
    );
    assert!(exceeds(11, 10));
    assert_eq!(bounded_download_result(&Ok(5), 10, &drag_limits()), Ok(5));
    assert!(bounded_download_result(&Ok(11), 10, &drag_limits()).is_err());
    assert!(bounded_download_result(&Err(NetError::Cancelled), 10, &drag_limits()).is_err());

    let files = vec![("/r/a".to_string(), 4), ("/r/b/c".to_string(), 4)];
    let mut folder = DragFolder::new("/r".into(), files, drag_limits()).unwrap();
    match folder.step() {
        DragStep::Fetch { remote, relative, max_bytes } => {
            assert_eq!(remote, "/r/a");
            assert!(relative.ends_with("a"));
            assert_eq!(max_bytes, 10);
        }
        DragStep::Done => panic!("two files are missing"),
    }
    folder.fetched(4).unwrap();
    folder.fetched(4).unwrap();
    assert_eq!(folder.step(), DragStep::Done);
    let huge = vec![("/r/a".to_string(), 11)];
    assert!(DragFolder::new("/r".into(), huge, drag_limits()).is_err());
}

fn update(version: &str) -> LatestUpdate {
    LatestUpdate {
        version: version.into(),
        notes: "notes".into(),
        dmg_url: "https://example.test/x.dmg".into(),
        sha256: "00".into(),
        size: 5,
    }
}

#[test]
fn update_checks_do_not_repeat() {
    let mut state = UpdateState::new();
    assert_eq!(state.start_update_check(CheckOrigin::Automatic, false), CheckStep::Nothing);
    let mut state = UpdateState::new();
    assert!(matches!(
        state.start_update_check(CheckOrigin::Automatic, true),
        CheckStep::Check { announced: false }
    ));
    assert_eq!(state.start_update_check(CheckOrigin::Manual, true), CheckStep::AlreadyRunning);
    let notice = state.checked(
        CheckOrigin::Automatic,
        CheckResult::Newer(update("2.0")),
        "1.0",
    );
    assert!(matches!(notice, UpdateNotice::Offer { version, .. } if version == "2.0"));
    assert_eq!(state.start_update_check(CheckOrigin::Automatic, true), CheckStep::Nothing);
    assert_eq!(state.start_update_download().unwrap().map(|u| u.version), Some("2.0".into()));
    assert!(matches!(
        state.downloaded("2.0", Err("no space".into())),
        UpdateNotice::Message(text) if text == "Update download failed: no space"
    ));
    assert!(checks_automatically(true, true, true));
    assert!(!checks_automatically(true, false, true));
}
