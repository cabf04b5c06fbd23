//! What the user is shown of a dry run.

use vstd::prelude::*;

use crate::controllers::sync_plan::{
    candidate_views, deletion_views, FolderSyncCandidate, FolderSyncDeletion, PreparedFolderSync,
    PreparedView,
};
use crate::controllers::sync_session::{selected_copies, selected_deletions};
use crate::folder_sync::{action_views, SyncAction, SyncComparison, SyncMode, SyncReason};
use crate::model::TransferDirection;
use crate::numerals::{decimal, to_decimal};
use crate::text::{plus, string_of};

verus! {

pub open spec fn lesser(a: nat, b: nat) -> nat {
    if a <= b {
        a
    } else {
        b
    }
}

/// The name of a comparison in a sentence.
pub open spec fn comparison_label(comparison: SyncComparison) -> Seq<char> {
    match comparison {
        SyncComparison::SizeOnly => "size"@,
        SyncComparison::SizeAndModificationTime => "size + modified time"@,
        SyncComparison::Checksum => "SHA-256"@,
    }
}

/// The sum of two counts, which stops at the largest that can be told.
pub open spec fn row_count(copies: nat, deletions: nat) -> nat {
    if copies + deletions > usize::MAX {
        usize::MAX as nat
    } else {
        copies + deletions
    }
}

/// How many rows are not shown.
pub open spec fn hidden_rows(total: nat, limit: nat) -> nat {
    if total > limit {
        (total - limit) as nat
    } else {
        0
    }
}

/// One sentence about a dry run.
pub open spec fn summary_text(prepared: PreparedView, changed: bool, limit: nat) -> Seq<char> {
    let copies = prepared.preview.actions.len();
    let hidden = hidden_rows(row_count(copies, prepared.preview.deletions.len()), limit);
    let prefix = if changed {
        "Folders changed; review the refreshed dry-run. "@
    } else {
        ""@
    };
    let shown = if hidden > 0 {
        " Showing the first "@ + decimal(limit) + " (+"@ + decimal(hidden) + " more)."@
    } else {
        ""@
    };
    let deletion_summary = if prepared.policy.options.mode == SyncMode::Mirror {
        decimal(selected_deletions(prepared.deletions).len()) + " selected for deletion"@
    } else {
        decimal(prepared.preview.target_only) + " target-only kept; no deletions"@
    };
    prefix + decimal(selected_copies(prepared.candidates).len()) + "/"@ + decimal(copies)
        + " selected to copy; "@ + decimal(prepared.preview.unchanged) + " unchanged; "@
        + deletion_summary + "; "@ + decimal(prepared.preview.excluded)
        + " excluded. Comparison: "@ + comparison_label(prepared.policy.options.comparison)
        + " (±"@ + decimal(prepared.policy.options.mtime_tolerance_seconds as nat) + "s)."@ + shown
}

fn number(n: usize) -> (r: String)
    ensures
        r@ == decimal(n as nat),
{
    string_of(&to_decimal(n as u64))
}

fn count_copies(candidates: &Vec<FolderSyncCandidate>) -> (r: usize)
    ensures
        r == selected_copies(candidate_views(candidates@)).len(),
        r <= candidates@.len(),
{
    let ghost all = candidate_views(candidates@);
    let mut n: usize = 0;
    let mut i: usize = 0;
    while i < candidates.len()
        invariant
            i <= candidates@.len(),
            all == candidate_views(candidates@),
            n <= i,
            n == selected_copies(all.take(i as int)).len(),
        decreases candidates@.len() - i,
    {
        assert(all.take(i + 1).drop_last() =~= all.take(i as int));
        assert(all.take(i + 1).last() == candidates@[i as int]@);
        if candidates[i].included {
            n = n + 1;
        }
        i += 1;
    }
    assert(all.take(all.len() as int) =~= all);
    n
}

fn count_deletions(deletions: &Vec<FolderSyncDeletion>) -> (r: usize)
    ensures
        r == selected_deletions(deletion_views(deletions@)).len(),
        r <= deletions@.len(),
{
    let ghost all = deletion_views(deletions@);
    let mut n: usize = 0;
    let mut i: usize = 0;
    while i < deletions.len()
        invariant
            i <= deletions@.len(),
            all == deletion_views(deletions@),
            n <= i,
            n == selected_deletions(all.take(i as int)).len(),
        decreases deletions@.len() - i,
    {
        assert(all.take(i + 1).drop_last() =~= all.take(i as int));
        assert(all.take(i + 1).last() == deletions@[i as int]@);
        if deletions[i].included {
            n = n + 1;
        }
        i += 1;
    }
    assert(all.take(all.len() as int) =~= all);
    n
}

pub fn folder_sync_summary(
    prepared: &PreparedFolderSync,
    changed_since_preview: bool,
    max_rows: usize,
) -> (r: String)
    ensures
        r@ == summary_text(prepared@, changed_since_preview, max_rows as nat),
{
    let prefix: &str = if changed_since_preview {
        "Folders changed; review the refreshed dry-run. "
    } else {
        ""
    };
    let copies: usize = prepared.preview.actions.len();
    let removals: usize = prepared.preview.deletions.len();
    let total: usize = if removals > usize::MAX - copies {
        usize::MAX
    } else {
        copies + removals
    };
    let shown: String = if total > max_rows {
        let a: String = plus(
            plus(" Showing the first ".to_owned(), number(max_rows).as_str()),
            " (+",
        );
        plus(plus(a, number(total - max_rows).as_str()), " more).")
    } else {
        "".to_owned()
    };
    let comparison: &str = match prepared.options.comparison {
        SyncComparison::SizeOnly => "size",
        SyncComparison::SizeAndModificationTime => "size + modified time",
        SyncComparison::Checksum => "SHA-256",
    };
    let deletion_summary: String = match prepared.options.mode {
        SyncMode::Mirror => plus(
            number(count_deletions(&prepared.deletions)),
            " selected for deletion",
        ),
        SyncMode::OneWay => plus(
            number(prepared.preview.target_only),
            " target-only kept; no deletions",
        ),
    };
    let a: String = plus(
        plus(prefix.to_owned(), number(count_copies(&prepared.candidates)).as_str()),
        "/",
    );
    let b: String = plus(plus(a, number(copies).as_str()), " selected to copy; ");
    let c: String = plus(plus(b, number(prepared.preview.unchanged).as_str()), " unchanged; ");
    let d: String = plus(plus(c, deletion_summary.as_str()), "; ");
    let e: String = plus(
        plus(d, number(prepared.preview.excluded).as_str()),
        " excluded. Comparison: ",
    );
    let f: String = plus(plus(e, comparison), " (±");
    let tolerance: String = string_of(&to_decimal(prepared.options.mtime_tolerance_seconds));
    plus(plus(plus(f, tolerance.as_str()), "s)."), shown.as_str())
}

/// The reason of a copy as a row shows it.
pub open spec fn reason_text(reason: SyncReason) -> Seq<char> {
    match reason {
        SyncReason::Missing => "missing"@,
        SyncReason::DifferentSize => "size differs"@,
        SyncReason::DifferentModificationTime => "date differs"@,
        SyncReason::ModificationTimeUnavailable => "date unavailable"@,
        SyncReason::DifferentChecksum => "checksum differs"@,
        SyncReason::ChecksumUnavailable => "checksum unavailable"@,
        SyncReason::TargetOnly => "target only"@,
    }
}

fn reason_label(reason: SyncReason) -> (r: &'static str)
    ensures
        r@ == reason_text(reason),
{
    match reason {
        SyncReason::Missing => "missing",
        SyncReason::DifferentSize => "size differs",
        SyncReason::DifferentModificationTime => "date differs",
        SyncReason::ModificationTimeUnavailable => "date unavailable",
        SyncReason::DifferentChecksum => "checksum differs",
        SyncReason::ChecksumUnavailable => "checksum unavailable",
        SyncReason::TargetOnly => "target only",
    }
}

/// One row of a dry run.
#[derive(Debug, PartialEq, Eq)]
pub struct SyncRow {
    pub included: bool,
    pub path: String,
    pub action: String,
    pub reason: String,
    pub bytes: u64,
}

pub ghost struct RowView {
    pub included: bool,
    pub path: Seq<char>,
    pub action: Seq<char>,
    pub reason: Seq<char>,
    pub bytes: u64,
}

impl View for SyncRow {
    type V = RowView;

    open spec fn view(&self) -> RowView {
        RowView {
            included: self.included,
            path: self.path@,
            action: self.action@,
            reason: self.reason@,
            bytes: self.bytes,
        }
    }
}

pub open spec fn row_views(rows: Seq<SyncRow>) -> Seq<RowView> {
    rows.map_values(|r: SyncRow| r@)
}

/// How many copies, and how many deletions, have both an action and a choice.
pub open spec fn copy_rows(prepared: PreparedView) -> nat {
    lesser(prepared.preview.actions.len(), prepared.candidates.len())
}

pub open spec fn deletion_rows(prepared: PreparedView) -> nat {
    lesser(prepared.preview.deletions.len(), prepared.deletions.len())
}

/// What a list says of each action: the path, a word for the action, a word for the reason, the
/// size and the choice. The copies come first, then the deletions.
pub open spec fn listed_rows(
    prepared: PreparedView,
    copy_word: Seq<char>,
    deletion_word: Seq<char>,
    reason: spec_fn(SyncReason) -> Seq<char>,
) -> Seq<RowView> {
    let copies = copy_rows(prepared);
    Seq::new(
        copies + deletion_rows(prepared),
        |i: int|
            if i < copies {
                RowView {
                    included: prepared.candidates[i].included,
                    path: prepared.preview.actions[i].path,
                    action: copy_word,
                    reason: reason(prepared.preview.actions[i].reason),
                    bytes: prepared.preview.actions[i].bytes,
                }
            } else {
                RowView {
                    included: prepared.deletions[i - copies].included,
                    path: prepared.preview.deletions[i - copies].path,
                    action: deletion_word,
                    reason: reason(prepared.preview.deletions[i - copies].reason),
                    bytes: prepared.preview.deletions[i - copies].bytes,
                }
            },
    )
}

/// The rows of the window. A deletion is always shown as one of a file that only the target has.
pub open spec fn preview_rows(prepared: PreparedView) -> Seq<RowView> {
    let copies = copy_rows(prepared);
    let copy_word = match prepared.policy.direction {
        TransferDirection::Upload => "UPLOAD"@,
        TransferDirection::Download => "DOWNLOAD"@,
    };
    let all = listed_rows(prepared, copy_word, "DELETE"@, |r: SyncReason| reason_text(r));
    Seq::new(
        all.len(),
        |i: int|
            if i < copies {
                all[i]
            } else {
                RowView { reason: "target only"@, ..all[i] }
            },
    )
}

pub open spec fn first_rows(rows: Seq<RowView>, limit: nat) -> Seq<RowView> {
    rows.take(lesser(rows.len(), limit) as int)
}

/// The first rows of a dry run.
#[verifier::loop_isolation(false)]
pub fn show_folder_sync_preview(prepared: &PreparedFolderSync, max_rows: usize) -> (r: Vec<SyncRow>)
    ensures
        row_views(r@) == first_rows(preview_rows(prepared@), max_rows as nat),
{
    let word: &str = match prepared.direction {
        TransferDirection::Upload => "UPLOAD",
        TransferDirection::Download => "DOWNLOAD",
    };
    let ghost wanted = preview_rows(prepared@);
    let ghost copies = copy_rows(prepared@);
    let mut rows: Vec<SyncRow> = Vec::new();
    let mut i: usize = 0;
    while i < prepared.preview.actions.len() && i < prepared.candidates.len() && rows.len()
        < max_rows
        invariant
            i <= copies,
            rows@.len() == i,
            i <= max_rows,
            forall|j: int| 0 <= j < i ==> (#[trigger] rows@[j])@ == wanted[j],
        decreases prepared.preview.actions@.len() - i,
    {
        let action: &SyncAction = &prepared.preview.actions[i];
        assert(action_views(prepared.preview.actions@)[i as int] == action@);
        assert(candidate_views(prepared.candidates@)[i as int] == prepared.candidates@[i as int]@);
        rows.push(
            SyncRow {
                included: prepared.candidates[i].included,
                path: action.relative_path.clone(),
                action: word.to_owned(),
                reason: reason_label(action.reason).to_owned(),
                bytes: action.bytes,
            },
        );
        i += 1;
    }
    let mut k: usize = 0;
    while k < prepared.preview.deletions.len() && k < prepared.deletions.len() && rows.len()
        < max_rows
        invariant
            k <= deletion_rows(prepared@),
            i <= copies,
            i == copies || i == max_rows,
            rows@.len() == i + k,
            i + k <= max_rows,
            forall|j: int| 0 <= j < i + k ==> (#[trigger] rows@[j])@ == wanted[j],
        decreases prepared.preview.deletions@.len() - k,
    {
        let action: &SyncAction = &prepared.preview.deletions[k];
        assert(action_views(prepared.preview.deletions@)[k as int] == action@);
        assert(deletion_views(prepared.deletions@)[k as int] == prepared.deletions@[k as int]@);
        assert(i == copies);
        assert(wanted[i + k].path == action.relative_path@);
        rows.push(
            SyncRow {
                included: prepared.deletions[k].included,
                path: action.relative_path.clone(),
                action: "DELETE".to_owned(),
                reason: "target only".to_owned(),
                bytes: action.bytes,
            },
        );
        k += 1;
    }
    assert(row_views(rows@) =~= first_rows(wanted, max_rows as nat));
    rows
}

/// The reason of a copy as a report names it.
pub open spec fn reason_name(reason: SyncReason) -> Seq<char> {
    match reason {
        SyncReason::Missing => "missing"@,
        SyncReason::DifferentSize => "different_size"@,
        SyncReason::DifferentModificationTime => "different_modification_time"@,
        SyncReason::ModificationTimeUnavailable => "modification_time_unavailable"@,
        SyncReason::DifferentChecksum => "different_checksum"@,
        SyncReason::ChecksumUnavailable => "checksum_unavailable"@,
        SyncReason::TargetOnly => "target_only"@,
    }
}

pub fn sync_reason_name(reason: SyncReason) -> (r: &'static str)
    ensures
        r@ == reason_name(reason),
{
    match reason {
        SyncReason::Missing => "missing",
        SyncReason::DifferentSize => "different_size",
        SyncReason::DifferentModificationTime => "different_modification_time",
        SyncReason::ModificationTimeUnavailable => "modification_time_unavailable",
        SyncReason::DifferentChecksum => "different_checksum",
        SyncReason::ChecksumUnavailable => "checksum_unavailable",
        SyncReason::TargetOnly => "target_only",
    }
}

/// A report about a dry run. It holds relative paths alone: no host, no user, no credential and no
/// absolute path.
#[derive(Debug, PartialEq, Eq)]
pub struct SyncReport {
    pub format: &'static str,
    pub format_version: u8,
    pub privacy: &'static str,
    pub direction: &'static str,
    pub mode: &'static str,
    pub comparison: &'static str,
    pub mtime_tolerance_seconds: u64,
    pub source_time_adjustment_seconds: i64,
    pub target_time_adjustment_seconds: i64,
    pub unchanged: usize,
    pub target_only: usize,
    pub excluded: usize,
    pub total_actions: usize,
    pub exported_actions: usize,
    pub truncated: bool,
    pub items: Vec<SyncRow>,
}

/// The items of a report, as many as allowed.
pub open spec fn report_items(prepared: PreparedView, limit: nat) -> Seq<RowView> {
    let word = match prepared.policy.direction {
        TransferDirection::Upload => "upload"@,
        TransferDirection::Download => "download"@,
    };
    first_rows(
        listed_rows(prepared, word, "delete"@, |r: SyncReason| reason_name(r)),
        limit,
    )
}

#[verifier::loop_isolation(false)]
pub fn folder_sync_report(prepared: &PreparedFolderSync, max_rows: usize) -> (r: SyncReport)
    ensures
        r.format@ == "gmacftp-sync-dry-run"@,
        r.format_version == 1,
        r.privacy@ == "relative paths only; no host, username, credential, or absolute local path"@,
        r.direction@ == (match prepared.direction {
            TransferDirection::Upload => "upload"@,
            TransferDirection::Download => "download"@,
        }),
        r.mode@ == (match prepared.options.mode {
            SyncMode::OneWay => "one_way"@,
            SyncMode::Mirror => "mirror"@,
        }),
        r.comparison@ == (match prepared.options.comparison {
            SyncComparison::SizeOnly => "size_only"@,
            SyncComparison::SizeAndModificationTime => "size_mtime"@,
            SyncComparison::Checksum => "checksum"@,
        }),
        r.mtime_tolerance_seconds == prepared.options.mtime_tolerance_seconds,
        r.source_time_adjustment_seconds == prepared.options.source_time_adjustment_seconds,
        r.target_time_adjustment_seconds == prepared.options.target_time_adjustment_seconds,
        r.unchanged == prepared.preview.unchanged,
        r.target_only == prepared.preview.target_only,
        r.excluded == prepared.preview.excluded,
        r.total_actions == row_count(
            prepared.preview.actions@.len(),
            prepared.preview.deletions@.len(),
        ),
        r.exported_actions == r.items@.len(),
        r.truncated == (r.items@.len() < r.total_actions),
        row_views(r.items@) == report_items(prepared@, max_rows as nat),
{
    let direction: &'static str = match prepared.direction {
        TransferDirection::Upload => "upload",
        TransferDirection::Download => "download",
    };
    let mode: &'static str = match prepared.options.mode {
        SyncMode::OneWay => "one_way",
        SyncMode::Mirror => "mirror",
    };
    let comparison: &'static str = match prepared.options.comparison {
        SyncComparison::SizeOnly => "size_only",
        SyncComparison::SizeAndModificationTime => "size_mtime",
        SyncComparison::Checksum => "checksum",
    };
    let ghost wanted = listed_rows(
        prepared@,
        direction@,
        "delete"@,
        |r: SyncReason| reason_name(r),
    );
    let ghost copies = copy_rows(prepared@);
    let mut items: Vec<SyncRow> = Vec::new();
    let mut i: usize = 0;
    while i < prepared.preview.actions.len() && i < prepared.candidates.len() && items.len()
        != max_rows
        invariant
            i <= copies,
            items@.len() == i,
            i <= max_rows,
            forall|j: int| 0 <= j < i ==> (#[trigger] items@[j])@ == wanted[j],
        decreases prepared.preview.actions@.len() - i,
    {
        let action: &SyncAction = &prepared.preview.actions[i];
        assert(action_views(prepared.preview.actions@)[i as int] == action@);
        assert(candidate_views(prepared.candidates@)[i as int] == prepared.candidates@[i as int]@);
        items.push(
            SyncRow {
                included: prepared.candidates[i].included,
                path: action.relative_path.clone(),
                action: direction.to_owned(),
                reason: sync_reason_name(action.reason).to_owned(),
                bytes: action.bytes,
            },
        );
        i += 1;
    }
    let mut k: usize = 0;
    while k < prepared.preview.deletions.len() && k < prepared.deletions.len() && items.len()
        != max_rows
        invariant
            k <= deletion_rows(prepared@),
            i <= copies,
            i == copies || i == max_rows,
            items@.len() == i + k,
            i + k <= max_rows,
            forall|j: int| 0 <= j < i + k ==> (#[trigger] items@[j])@ == wanted[j],
        decreases prepared.preview.deletions@.len() - k,
    {
        let action: &SyncAction = &prepared.preview.deletions[k];
        assert(action_views(prepared.preview.deletions@)[k as int] == action@);
        assert(deletion_views(prepared.deletions@)[k as int] == prepared.deletions@[k as int]@);
        assert(i == copies);
        assert(wanted[i + k].path == action.relative_path@);
        items.push(
            SyncRow {
                included: prepared.deletions[k].included,
                path: action.relative_path.clone(),
                action: "delete".to_owned(),
                reason: sync_reason_name(action.reason).to_owned(),
                bytes: action.bytes,
            },
        );
        k += 1;
    }
    assert(row_views(items@) =~= first_rows(wanted, max_rows as nat));
    let a: usize = prepared.preview.actions.len();
    let b: usize = prepared.preview.deletions.len();
    let total_actions: usize = if b > usize::MAX - a {
        usize::MAX
    } else {
        a + b
    };
    SyncReport {
        format: "gmacftp-sync-dry-run",
        format_version: 1,
        privacy: "relative paths only; no host, username, credential, or absolute local path",
        direction,
        mode,
        comparison,
        mtime_tolerance_seconds: prepared.options.mtime_tolerance_seconds,
        source_time_adjustment_seconds: prepared.options.source_time_adjustment_seconds,
        target_time_adjustment_seconds: prepared.options.target_time_adjustment_seconds,
        unchanged: prepared.preview.unchanged,
        target_only: prepared.preview.target_only,
        excluded: prepared.preview.excluded,
        total_actions,
        exported_actions: items.len(),
        truncated: items.len() < total_actions,
        items,
    }
}

/// The serialized report is not written if it has grown too large.
pub fn folder_sync_report_bytes(bytes: Vec<u8>, limit: usize) -> (r: Result<Vec<u8>, String>)
    ensures
        r is Ok <==> bytes@.len() <= limit,
        r matches Ok(b) ==> b == bytes,
        r matches Err(e) ==> e@ == "sync report exceeds the "@ + decimal(limit as nat)
            + "-byte safety limit"@,
{
    if bytes.len() > limit {
        return Err(
            plus(
                plus("sync report exceeds the ".to_owned(), number(limit).as_str()),
                "-byte safety limit",
            ),
        );
    }
    Ok(bytes)
}

/// No item of a report names anything but the relative path of an action.
pub proof fn reports_hold_relative_paths_alone(prepared: PreparedView, limit: nat, i: int)
    requires
        0 <= i < report_items(prepared, limit).len(),
    ensures
        ({
            let path = report_items(prepared, limit)[i].path;
            ||| exists|k: int|
                0 <= k < prepared.preview.actions.len() && (
                #[trigger] prepared.preview.actions[k]).path == path
            ||| exists|k: int|
                0 <= k < prepared.preview.deletions.len() && (
                #[trigger] prepared.preview.deletions[k]).path == path
        }),
{
    let copies = copy_rows(prepared);
    if i < copies {
        assert(prepared.preview.actions[i].path == report_items(prepared, limit)[i].path);
    } else {
        assert(prepared.preview.deletions[i - copies].path == report_items(
            prepared,
            limit,
        )[i].path);
    }
}

} // verus!
