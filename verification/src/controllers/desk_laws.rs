//! What the commands, the updates, the storage overview and the other parts around the panes do.

use vstd::prelude::*;

use crate::controllers::appearance::{
    effective_locale, effective_theme, restore_window_geometry, translation, Geometry, Monitor,
};
use crate::controllers::commands::{
    begins_with, current_selected_path, first_beginning, pane_preview, selected_paths_for_clipboard,
    type_ahead, PreviewPlan,
};
use crate::controllers::drag_drop::{
    advertised, after_root_attempt, bounded_download_result, drag_root_owner, is_abandoned,
    root_names_read_back, validate_drag_budget, DragFolder, DragLimits, DragStep, RootAttempt,
    RootStep,
};
use crate::controllers::menu::{dock_badge, toggle_sync, SyncToggle};
use crate::controllers::panes::{selected_rows, selected_transfer_rows, EntryRow};
use crate::controllers::settings::Settings;
use crate::controllers::state::{
    FileOperationMode, OverwriteDecision, PaneId, SortDirection, SortKey, SyncDirection,
    TransferRowState,
};
use crate::controllers::storage::{
    bounded_tree_size, compute_storage_stats, fragment_jobs, fragment_of, fragment_paths,
    path_views, saturated_sum, DirectorySize, RecoveredJob, StorageFacts, StorageStats, TreeEntry,
    TreeRoot, TreeView,
};
use crate::controllers::sync_plan::FolderSyncKey;
use crate::controllers::sync_profiles::{
    delete_sync_profile, load_sync_profile, profile_named, save_sync_profile,
    sync_endpoint_fingerprint, SyncProfile,
};
use crate::controllers::updates::{
    CheckOrigin, CheckResult, CheckStep, LatestUpdate, UpdateNotice, UpdateState,
};
use crate::digest::{hex_bytes, sha256};
use crate::model::transfer::TransferDirection;
use crate::net::error::NetError;
use crate::net::ssh_resolve::path_join;
use crate::numerals::decimal;
use crate::pieces::{has_prefix, joined, only};
use crate::text::{ascii_lower, lowercase};

verus! {

// --- commands ----------------------------------------------------------------------------------

proof fn lemma_first_beginning(entries: Seq<EntryRow>, letter: char, from: int)
    requires
        0 <= from <= entries.len(),
    ensures
        match first_beginning(entries, letter, from) {
            Some(i) => from <= i < entries.len() && lowercase(entries[i].name@).len() > 0 && lowercase(
                entries[i].name@,
            )[0] == letter && forall|j: int|
                from <= j < i ==> !(lowercase((#[trigger] entries[j]).name@).len() > 0 && lowercase(
                    entries[j].name@,
                )[0] == letter),
            None => forall|j: int|
                from <= j < entries.len() ==> !(lowercase((#[trigger] entries[j]).name@).len() > 0
                    && lowercase(entries[j].name@)[0] == letter),
        },
    decreases entries.len() - from,
{
    if from < entries.len() && !begins_with(entries[from].name@, letter) {
        lemma_first_beginning(entries, letter, from + 1);
    }
}

/// A typed letter leads to the first row whose name begins with it, whatever the case; anything else
/// leads nowhere.
pub proof fn letters_lead_to_the_first_name(entries: &Vec<EntryRow>, text: &str, r: Option<usize>)
    requires
        call_ensures(type_ahead, (entries, text), r),
    ensures
        text@.len() != 1 ==> r is None,
        text@.len() == 1 && !('a' <= text@[0] <= 'z') && !('A' <= text@[0] <= 'Z') ==> r is None,
        text@.len() == 1 && 'a' <= text@[0] <= 'z' ==> (r matches Some(i) ==> i < entries@.len()
            && lowercase(entries@[i as int].name@).len() > 0 && lowercase(
            entries@[i as int].name@,
        )[0] == text@[0] && forall|j: int|
            0 <= j < i ==> !(lowercase((#[trigger] entries@[j]).name@).len() > 0 && lowercase(
                entries@[j].name@,
            )[0] == text@[0])),
        text@.len() == 1 && 'a' <= text@[0] <= 'z' && r is None ==> forall|j: int|
            0 <= j < entries@.len() ==> !(lowercase((#[trigger] entries@[j]).name@).len() > 0
                && lowercase(entries@[j].name@)[0] == text@[0]),
        text@.len() == 1 && 'A' <= text@[0] <= 'Z' ==> (r matches Some(i) ==> i < entries@.len()
            && lowercase(entries@[i as int].name@).len() > 0 && lowercase(
            entries@[i as int].name@,
        )[0] as int == text@[0] as int + 32),
{
    if text@.len() == 1 {
        lemma_first_beginning(entries@, ascii_lower(text@[0]), 0);
        assert(entries@.len() == entries.len());
    }
}

/// A further row is selected exactly if it is marked, and comes after those before it.
pub proof fn marked_rows_are_selected(entries: Seq<EntryRow>, row: EntryRow, flags: Seq<bool>)
    ensures
        selected_rows(Seq::empty(), flags).len() == 0,
        entries.len() < flags.len() && flags[entries.len() as int] ==> selected_rows(
            entries.push(row),
            flags,
        ) == selected_rows(entries, flags).push(row),
        entries.len() >= flags.len() || !flags[entries.len() as int] ==> selected_rows(
            entries.push(row),
            flags,
        ) == selected_rows(entries, flags),
{
    assert(entries.push(row).drop_last() =~= entries);
}

/// The path of the one selected entry is shown, the folder where none is selected, and a number where
/// several are; what is copied are their paths, one to a line.
pub proof fn the_selection_is_shown_and_copied(
    entries: &Vec<EntryRow>,
    selection: &Vec<bool>,
    cwd: &str,
    rows: Vec<EntryRow>,
    shown: String,
    copied: String,
)
    requires
        call_ensures(selected_transfer_rows, (entries, selection), rows),
        call_ensures(current_selected_path, (entries, selection, cwd), shown),
        call_ensures(selected_paths_for_clipboard, (entries, selection, cwd), copied),
    ensures
        rows@ == selected_rows(entries@, selection@),
        rows@.len() == 0 ==> shown@ == cwd@ && copied@ == cwd@,
        rows@.len() == 1 ==> shown@ == path_join(cwd@, rows@[0].name@) && copied@ == path_join(
            cwd@,
            rows@[0].name@,
        ),
        rows@.len() > 1 ==> shown@ == decimal(rows@.len()) + " items selected"@,
        rows@.len() == 2 ==> copied@ == path_join(cwd@, rows@[0].name@) + "\n"@ + path_join(
            cwd@,
            rows@[1].name@,
        ),
{
    let paths = crate::controllers::commands::paths_of(rows@, cwd@);
    reveal_with_fuel(joined, 3);
    if rows@.len() == 1 {
        assert(paths =~= seq![path_join(cwd@, rows@[0].name@)]);
        assert(paths.drop_last() =~= Seq::<Seq<char>>::empty());
    }
    if rows@.len() == 2 {
        let a = path_join(cwd@, rows@[0].name@);
        let b = path_join(cwd@, rows@[1].name@);
        assert(paths =~= seq![a, b]);
        assert(paths.drop_last() =~= seq![a]);
        assert(seq![a].drop_last() =~= Seq::<Seq<char>>::empty());
        assert(joined(paths, "\n"@) =~= a + "\n"@ + b);
    }
}

/// The path of an entry is that of its folder, a slash and its name.
pub proof fn entries_lie_in_their_folder(cwd: Seq<char>, name: Seq<char>)
    requires
        cwd.len() > 0,
        cwd.last() != '/',
        name.len() > 0,
        name[0] != '/',
    ensures
        path_join(cwd, name) == cwd + seq!['/'] + name,
        path_join(seq!['/'], name) == seq!['/'] + name,
{
}

/// A file is previewed where it lies; a remote one is fetched first, and a folder or a server without
/// a login has no preview.
pub proof fn previews_show_files_alone(
    row: &EntryRow,
    cwd: &str,
    is_remote: bool,
    can_log_in: bool,
    r: PreviewPlan,
)
    requires
        call_ensures(pane_preview, (Some(row), cwd, is_remote, can_log_in), r),
    ensures
        row.is_dir ==> r is Nothing,
        !row.is_dir && !is_remote ==> (r matches PreviewPlan::Show(p) && p@ == path_join(
            cwd@,
            row.name@,
        )),
        !row.is_dir && is_remote && can_log_in ==> (r matches PreviewPlan::Fetch(p) && p@ == path_join(
            cwd@,
            row.name@,
        )),
        !row.is_dir && is_remote && !can_log_in ==> r is Nothing,
{
}

// --- dragging ----------------------------------------------------------------------------------

/// A private directory is removed only if its name says whose it was, that process is gone, and it is
/// a real directory.
pub proof fn only_abandoned_directories_are_removed(
    pid: u32,
    nonce: u64,
    name: &str,
    running: bool,
    is_real: bool,
    owner: Option<u32>,
    r: bool,
)
    requires
        call_ensures(drag_root_owner, (name,), owner),
        call_ensures(is_abandoned, (name, running, is_real), r),
    ensures
        running ==> !r,
        !is_real ==> !r,
        !has_prefix(name@, "gmacftp-drag-"@) ==> owner is None && !r,
        name@ == "gmacftp-drag-"@ + decimal(pid as nat) + "-"@ + decimal(nonce as nat) ==> owner == Some(
            pid,
        ) && (r <==> !running && is_real),
{
    root_names_read_back(pid, nonce);
}

/// A name that is taken is tried again under another one, sixteen times at most; any other failure
/// ends it.
pub proof fn private_directories_are_tried_for(attempt: RootAttempt, number: usize, r: RootStep)
    requires
        call_ensures(after_root_attempt, (attempt, number), r),
    ensures
        attempt is Created ==> r is Ready,
        attempt is Exists && number < 16 ==> r is TryAgain,
        attempt is Exists && number >= 16 ==> r is GiveUp,
        attempt is NotSecured || attempt is Failed ==> r is GiveUp,
{
}

/// No more is staged than so many files and so many bytes.
pub proof fn staging_keeps_to_its_limits(
    files: usize,
    bytes: u64,
    limits: &DragLimits,
    r: Result<(), String>,
    fetched: &Result<u64, NetError>,
    max_bytes: u64,
    f: Result<u64, String>,
)
    requires
        call_ensures(validate_drag_budget, (files, bytes, limits), r),
        call_ensures(bounded_download_result, (fetched, max_bytes, limits), f),
    ensures
        r is Ok <==> files <= limits.max_files && bytes <= limits.max_bytes,
        fetched matches Ok(n) ==> (n <= max_bytes ==> f == Ok::<u64, String>(*n)),
        fetched matches Ok(n) ==> (n > max_bytes ==> f is Err),
        fetched is Err ==> f is Err,
{
}

/// A further file is announced with its size.
pub proof fn announced_bytes_add_up(files: Seq<(String, u64)>, file: (String, u64))
    ensures
        advertised(Seq::empty()) == 0,
        advertised(files.push(file)) == advertised(files) + file.1,
{
    assert(files.push(file).drop_last() =~= files);
}

/// The files of a folder are fetched one after the other, each to its place below the folder, with no
/// more bytes than the budget still has.
pub proof fn dragged_files_keep_their_place(run: &DragFolder, r: DragStep, rest: Seq<char>)
    requires
        run.wf(),
        call_ensures(DragFolder::step, (run,), r),
        run.fetched < run.files@.len(),
        run.files@[run.fetched as int].0@ == run.folder@ + seq!['/'] + rest,
        rest.len() > 0,
        rest[0] != '/',
    ensures
        r matches DragStep::Fetch { remote, relative, max_bytes } && remote@
            == run.files@[run.fetched as int].0@ && relative@ == rest && max_bytes
            == run.limits.max_bytes - run.actual_bytes,
{
    let file = run.files@[run.fetched as int].0@;
    let n = run.folder@.len() as int;
    assert(file.take(n) =~= run.folder@);
    assert(file.skip(n) =~= seq!['/'] + rest);
    let tail = seq!['/'] + rest;
    assert(tail.skip(1) =~= rest);
    crate::pieces::lemma_drop_while(tail, only('/'), 1);
}

/// What has arrived is counted, unless it goes beyond the limit.
pub proof fn arrived_bytes_are_counted(run: &mut DragFolder, bytes: u64, r: Result<(), String>)
    requires
        old(run).wf(),
        old(run).fetched < old(run).files@.len(),
        call_ensures(DragFolder::fetched, (run, bytes), r),
    ensures
        r is Ok <==> old(run).actual_bytes + bytes <= old(run).limits.max_bytes,
        r is Ok ==> final(run).fetched == old(run).fetched + 1 && final(run).actual_bytes
            == old(run).actual_bytes + bytes,
        r is Err ==> *final(run) == *old(run),
{
}

// --- updates -----------------------------------------------------------------------------------

/// A check that somebody asked for is made and announced; one of the program's own is made once per
/// launch and in silence. While one runs, no other begins.
pub proof fn checks_are_made_when_asked_for(
    state: &mut UpdateState,
    origin: CheckOrigin,
    supported: bool,
    r: CheckStep,
)
    requires
        call_ensures(UpdateState::start_update_check, (state, origin, supported), r),
    ensures
        origin == CheckOrigin::Manual && supported && !old(state).checking ==> r == (CheckStep::Check {
            announced: true,
        }) && final(state).checking,
        origin == CheckOrigin::Manual && !supported ==> r is Unsupported,
        origin == CheckOrigin::Manual && supported && old(state).checking ==> r is AlreadyRunning,
        origin == CheckOrigin::Automatic && old(state).attempted_this_launch ==> r is Nothing,
        origin == CheckOrigin::Automatic && !old(state).attempted_this_launch && supported && !old(
            state).checking ==> r == (CheckStep::Check { announced: false }) && final(state).checking,
        origin == CheckOrigin::Automatic && (!supported || old(state).checking) ==> r is Nothing,
        final(state).attempted_this_launch,
        final(state).pending == old(state).pending,
        final(state).downloading == old(state).downloading,
{
}

/// A newer release is offered; what else came of a check is told only to who asked.
pub proof fn newer_releases_are_offered(
    state: &mut UpdateState,
    origin: CheckOrigin,
    result: CheckResult,
    current: &str,
    r: UpdateNotice,
)
    requires
        call_ensures(UpdateState::checked, (state, origin, result, current), r),
    ensures
        !final(state).checking,
        result matches CheckResult::Newer(u) ==> final(state).pending == Some(u) && (r
            matches UpdateNotice::Offer { version, notes } && version@ == u.version@ && notes@
            == u.notes@),
        !(result is Newer) ==> final(state).pending == old(state).pending,
        !(result is Newer) && origin == CheckOrigin::Automatic ==> r is Nothing,
        result is UpToDate && origin == CheckOrigin::Manual ==> (r matches UpdateNotice::Status(t) && t@
            == "gmacFTP is up to date (v"@ + current@ + ")."@),
        result matches CheckResult::Failed(e) ==> (origin == CheckOrigin::Manual ==> (r
            matches UpdateNotice::Error(t) && t@ == "Update check failed: "@ + e@)),
{
}

/// The update that was offered is downloaded, once; an offer is dropped when it is installed or not
/// wanted, and kept when the download failed.
pub proof fn offered_updates_are_downloaded(
    state: &mut UpdateState,
    r: Result<Option<LatestUpdate>, String>,
)
    requires
        call_ensures(UpdateState::start_update_download, (state,), r),
    ensures
        old(state).downloading ==> r == Ok::<Option<LatestUpdate>, String>(None) && *final(state) == *old(
            state),
        !old(state).downloading && old(state).pending is None ==> r is Err,
        !old(state).downloading && old(state).pending is Some ==> r == Ok::<
            Option<LatestUpdate>,
            String,
        >(old(state).pending) && final(state).downloading && final(state).pending == old(state).pending,
{
}

/// After a download nothing is downloaded any more, and the offer is gone exactly if it went well.
pub proof fn installed_updates_are_not_offered_again(
    state: &mut UpdateState,
    version: &str,
    result: Result<(), String>,
    r: UpdateNotice,
)
    requires
        call_ensures(UpdateState::downloaded, (state, version, result), r),
    ensures
        !final(state).downloading,
        result is Ok ==> final(state).pending is None && r is Status,
        result matches Err(e) ==> final(state).pending == old(state).pending && (r
            matches UpdateNotice::Message(t) && t@ == "Update download failed: "@ + e@),
{
}

/// An offer that is not wanted is dropped, but not while it is downloaded.
pub proof fn unwanted_updates_are_dropped(state: &mut UpdateState, r: bool)
    requires
        call_ensures(UpdateState::dismiss, (state,), r),
    ensures
        r <==> !old(state).downloading,
        r ==> final(state).pending is None,
        !r ==> *final(state) == *old(state),
        final(state).checking == old(state).checking,
{
}

// --- storage -----------------------------------------------------------------------------------

/// A file of a tree adds its bytes, a directory is visited later, and what cannot be read is told.
pub proof fn trees_are_measured_entry_by_entry(tree: TreeView, entry: TreeEntry, rest: Seq<TreeEntry>)
    requires
        tree.entries_seen < tree.max_entries,
    ensures
        ({
            let next = tree.counted(entry);
            &&& tree.after(seq![entry] + rest) == next.after(rest)
            &&& next.entries_seen == tree.entries_seen + 1
            &&& entry matches TreeEntry::File(n) ==> next.pending == tree.pending && next.truncated
                == tree.truncated && (tree.bytes + n <= u64::MAX ==> next.bytes == tree.bytes + n)
            &&& entry matches TreeEntry::Directory(d) ==> next.bytes == tree.bytes && next.pending
                == tree.pending.push(d)
            &&& entry is Unreadable ==> next.truncated && next.bytes == tree.bytes
            &&& entry is Other ==> next.bytes == tree.bytes && next.pending == tree.pending
        }),
        tree.after(Seq::empty()) == tree,
{
    assert((seq![entry] + rest).skip(1) =~= rest);
    assert((seq![entry] + rest)[0] == entry);
}

/// What is no directory has the size that it has.
pub proof fn files_have_their_size(root: TreeRoot, r: Option<(u64, usize, bool)>)
    requires
        call_ensures(bounded_tree_size, (root,), r),
    ensures
        root is Missing ==> r == Some((0u64, 0usize, false)),
        root matches TreeRoot::File(n) ==> r == Some((n, 1usize, false)),
        root is Directory ==> r is None,
        root is Other ==> (r matches Some(t) && t.0 == 0 && t.2),
{
}

/// The sum of a row of numbers grows by each of them.
pub proof fn sizes_add_up(lens: Seq<u64>, n: u64)
    ensures
        saturated_sum(Seq::empty()) == 0,
        saturated_sum(lens) + n <= u64::MAX ==> saturated_sum(lens.push(n)) == saturated_sum(lens) + n,
        saturated_sum(lens) + n > u64::MAX ==> saturated_sum(lens.push(n)) == u64::MAX,
{
    assert(lens.push(n).drop_last() =~= lens);
}

/// The overview says what was measured of each kind, and whether something was left out.
pub proof fn storage_is_what_was_measured(facts: &StorageFacts, r: StorageStats)
    requires
        call_ensures(compute_storage_stats, (facts,), r),
    ensures
        facts.config matches Some(c) ==> r.config_bytes == c.bytes && (c.truncated ==> r.scan_truncated),
        facts.config is None ==> r.config_bytes == 0,
        r.fragment_bytes == saturated_sum(facts.fragments@),
        r.fragment_count == facts.fragments@.len(),
        r.temporary_bytes == saturated_sum(
            facts.temporary@.map_values(|d: DirectorySize| d.bytes),
        ),
        r.temporary_directories == facts.temporary@.len(),
        facts.caches@.len() == 0 ==> r.cache_entries == 0 && r.cache_bytes_approx == 0,
        facts.caches@.len() == 1 ==> r.cache_entries == facts.caches@[0].0 && r.cache_bytes_approx
            == facts.caches@[0].1,
        forall|i: int|
            0 <= i < facts.temporary@.len() && (#[trigger] facts.temporary@[i]).truncated
                ==> r.scan_truncated,
{
    assert(facts.fragments@.len() == facts.fragments.len());
    assert(facts.temporary@.len() == facts.temporary.len());
    if facts.caches@.len() == 1 {
        assert(facts.caches@.drop_last() =~= Seq::<(usize, u64)>::empty());
        reveal_with_fuel(crate::controllers::storage::cache_totals, 2);
    }
}

proof fn lemma_fragments(jobs: Seq<RecoveredJob>, upto: int, i: int)
    requires
        0 <= i < upto <= jobs.len(),
        jobs[i].job.direction == TransferDirection::Download,
        jobs[i].job.resume_token != 0,
    ensures
        fragment_jobs(jobs, upto).contains(fragment_of(jobs[i])),
    decreases upto,
{
    let before = fragment_jobs(jobs, upto - 1);
    let all = fragment_jobs(jobs, upto);
    if i < upto - 1 {
        lemma_fragments(jobs, upto - 1, i);
        let k = choose|k: int| 0 <= k < before.len() && before[k] == fragment_of(jobs[i]);
        assert(all[k] == fragment_of(jobs[i]));
    } else if crate::controllers::storage::first_of_fragment(jobs, i) {
        assert(all[before.len() as int] == fragment_of(jobs[i]));
    } else {
        let j = choose|j: int|
            0 <= j < i && crate::controllers::storage::leaves_fragment((#[trigger] jobs[j]).job)
                && fragment_of(jobs[j]) == fragment_of(jobs[i]);
        lemma_fragments(jobs, upto - 1, j);
    }
}

/// The fragment of every download that can go on is measured.
pub proof fn every_fragment_is_measured(jobs: &Vec<RecoveredJob>, r: Vec<crate::net::safe::PathParts>, i: int)
    requires
        call_ensures(fragment_paths, (jobs,), r),
        0 <= i < jobs@.len(),
        jobs@[i].job.direction == TransferDirection::Download,
        jobs@[i].job.resume_token != 0,
    ensures
        path_views(r@).contains(fragment_of(jobs@[i])),
{
    lemma_fragments(jobs@, jobs@.len() as int, i);
}

// --- appearance and menus ----------------------------------------------------------------------

/// A chosen language and a chosen theme are shown; left to the system, it decides.
pub proof fn choices_come_before_the_system(
    preference: &str,
    polish: bool,
    dark: Option<bool>,
    l: &'static str,
    x: &'static str,
    t: &'static str,
)
    requires
        call_ensures(effective_locale, (preference, polish), l),
        call_ensures(translation, (preference, polish), x),
        call_ensures(effective_theme, (preference, dark), t),
    ensures
        preference@ == "pl"@ ==> l@ == "pl"@ && x@ == "pl"@,
        preference@ == "en"@ ==> l@ == "en"@ && x@ == ""@,
        preference@ != "pl"@ && preference@ != "en"@ ==> l@ == if polish {
            "pl"@
        } else {
            "en"@
        },
        preference@ == "dark"@ ==> t@ == "dark"@,
        preference@ == "light"@ ==> t@ == "light"@,
        preference@ != "dark"@ && preference@ != "light"@ ==> t@ == if dark == Some(true) {
            "dark"@
        } else {
            "light"@
        },
{
    reveal_strlit("pl");
    reveal_strlit("en");
    reveal_strlit("dark");
    reveal_strlit("light");
    assert("pl"@[0] != "en"@[0]);
    assert("dark"@.len() != "light"@.len());
}

/// The size of the window is restored where the workspace is, and its position where a screen shows
/// enough of it there.
pub proof fn windows_return_to_their_place(
    s: &Settings,
    monitors: &Vec<Monitor>,
    r: Geometry,
    i: int,
    x: i32,
    y: i32,
)
    requires
        call_ensures(restore_window_geometry, (s, monitors), r),
        0 <= i < monitors@.len(),
        s.window_x_px == Some(x),
        s.window_y_px == Some(y),
    ensures
        !s.restore_workspace ==> r.size is None && r.position is None,
        s.restore_workspace ==> r.size == Some((s.window_width_px, s.window_height_px)),
        r.position is Some ==> r.position == Some((x, y)),
        s.restore_workspace && monitors@[i].x <= x && monitors@[i].y <= y && x + s.window_width_px
            <= monitors@[i].x + monitors@[i].width && y + s.window_height_px <= monitors@[i].y
            + monitors@[i].height && s.window_width_px >= 200 && s.window_height_px >= 80
            && monitors@[i].width <= 100000 && monitors@[i].height <= 100000 && monitors@[i].x <= 100000
            && monitors@[i].y <= 100000 ==> r.position == Some((x, y)),
{
    let m = monitors@[i];
    if s.restore_workspace && m.x <= x && m.y <= y && x + s.window_width_px <= m.x + m.width && y
        + s.window_height_px <= m.y + m.height && s.window_width_px >= 200 && s.window_height_px >= 80
        && m.width <= 100000 && m.height <= 100000 && m.x <= 100000 && m.y <= 100000 {
        assert(crate::controllers::appearance::visible_on(
            m,
            x,
            y,
            s.window_width_px,
            s.window_height_px,
        ));
    }
}

/// Synchronization is switched off at a click, and on only with a passphrase; the icon counts what is
/// to come.
pub proof fn synchronization_needs_a_passphrase(
    enabled: bool,
    passphrase: bool,
    r: SyncToggle,
    pending: usize,
    badge: Option<String>,
)
    requires
        call_ensures(toggle_sync, (enabled, passphrase), r),
        call_ensures(dock_badge, (pending,), badge),
    ensures
        enabled ==> r == (SyncToggle::Switch { on: false }),
        !enabled && passphrase ==> r == (SyncToggle::Switch { on: true }),
        !enabled && !passphrase ==> r is AskForPassphrase,
        pending == 0 ==> badge is None,
        0 < pending <= 999 ==> (badge matches Some(t) && t@ == decimal(pending as nat)),
        pending > 999 ==> (badge matches Some(t) && t@ == decimal(999)),
{
}

// --- profiles ----------------------------------------------------------------------------------

/// A profile of a name that is taken replaces the other, whatever the case of the names; another is
/// added at the end, as long as there is room.
pub proof fn profiles_are_saved_under_their_name(
    profiles: &mut Vec<SyncProfile>,
    profile: SyncProfile,
    max: usize,
    r: Result<usize, String>,
)
    requires
        call_ensures(save_sync_profile, (profiles, profile, max), r),
    ensures
        r matches Ok(i) ==> i < final(profiles)@.len() && final(profiles)@[i as int] == profile,
        r matches Ok(i) ==> forall|j: int|
            0 <= j < old(profiles)@.len() && j != i ==> #[trigger] final(profiles)@[j] == old(
                profiles)@[j],
        r matches Ok(i) ==> (i < old(profiles)@.len() ==> lowercase(old(profiles)@[i as int].name@)
            == lowercase(profile.name@) && final(profiles)@.len() == old(profiles)@.len()),
        r is Err ==> final(profiles)@ == old(profiles)@ && old(profiles)@.len() >= max,
        (forall|j: int|
            0 <= j < old(profiles)@.len() ==> lowercase((#[trigger] old(profiles)@[j]).name@)
                != lowercase(profile.name@)) && old(profiles)@.len() < max ==> r == Ok::<usize, String>(
            old(profiles)@.len() as usize,
        ) && final(profiles)@ == old(profiles)@.push(profile),
{
    lemma_profile(old(profiles)@, profile.name@, 0);
    assert(old(profiles)@.len() == old(profiles).len());
}

proof fn lemma_profile(profiles: Seq<SyncProfile>, name: Seq<char>, from: int)
    requires
        0 <= from <= profiles.len(),
    ensures
        match profile_named(profiles, name, from) {
            Some(i) => from <= i < profiles.len() && lowercase(profiles[i].name@) == lowercase(name),
            None => forall|j: int|
                from <= j < profiles.len() ==> lowercase((#[trigger] profiles[j]).name@) != lowercase(
                    name,
                ),
        },
    decreases profiles.len() - from,
{
    if from < profiles.len() && lowercase(profiles[from].name@) != lowercase(name) {
        lemma_profile(profiles, name, from + 1);
    }
}

/// A deleted profile is gone, and the others stay.
pub proof fn deleted_profiles_are_gone(
    profiles: &mut Vec<SyncProfile>,
    index: usize,
    r: Option<String>,
)
    requires
        call_ensures(delete_sync_profile, (profiles, index), r),
    ensures
        index < old(profiles)@.len() ==> r == Some(old(profiles)@[index as int].name)
            && final(profiles)@ == old(profiles)@.remove(index as int),
        index >= old(profiles)@.len() ==> r is None && final(profiles)@ == old(profiles)@,
{
}

/// A profile is loaded exactly if the remote pane is connected to its own connection and endpoint,
/// and still is when its folder was found.
pub proof fn profiles_load_on_their_server_alone(
    profile: &SyncProfile,
    context: &Result<FolderSyncKey, String>,
    fingerprint: Option<&str>,
    local_root: &Result<bool, String>,
    still_connected: bool,
    r: Result<(), String>,
)
    requires
        call_ensures(
            load_sync_profile,
            (profile, context, fingerprint, local_root, still_connected),
            r,
        ),
    ensures
        r is Ok <==> (context matches Ok(key) && key.connection_id.0 == profile.connection_id) && (
        fingerprint matches Some(f) && f@ == profile.endpoint_fingerprint@) && (local_root
            matches Ok(present) && *present) && still_connected,
{
}

/// The fingerprint of an endpoint is the digest of its protocol, host, port and user, kept apart.
pub proof fn fingerprints_are_of_the_whole_endpoint(
    protocol: &str,
    host: &str,
    port: u16,
    user: &str,
    r: String,
)
    requires
        call_ensures(sync_endpoint_fingerprint, (protocol, host, port, user), r),
    ensures
        r@ == hex_bytes(
            sha256(
                vstd::utf8::encode_utf8(
                    protocol@ + "\0"@ + host@ + "\0"@ + decimal(port as nat) + "\0"@ + user@,
                ),
            ),
        ),
{
}

// --- words -------------------------------------------------------------------------------------

/// Each choice of the window goes by its own word.
pub proof fn choices_go_by_their_words()
    ensures
        PaneId::Left.word() == "local"@,
        PaneId::Right.word() == "remote"@,
        PaneId::Left.number() == 0,
        PaneId::Right.number() == 1,
        SortKey::Name.word() == "name"@,
        SortKey::Date.word() == "date"@,
        SortKey::Size.word() == "size"@,
        SortKey::Owner.word() == "owner"@,
        SortKey::Group.word() == "group"@,
        SortKey::Permissions.word() == "permissions"@,
        SortDirection::Ascending.word() == "asc"@,
        SortDirection::Descending.word() == "desc"@,
        SyncDirection::Upload.word() == "upload"@,
        SyncDirection::Download.word() == "download"@,
        FileOperationMode::Rename.word() == "rename"@,
        FileOperationMode::CreateDirectory.word() == "mkdir"@,
        FileOperationMode::ChangePermissions.word() == "chmod"@,
        OverwriteDecision::Skip.number() == 0,
        OverwriteDecision::Overwrite.number() == 1,
        OverwriteDecision::KeepBoth.number() == 2,
        TransferRowState::Active.word() == "active"@,
        TransferRowState::Queued.word() == "queued"@,
        TransferRowState::Paused.word() == "paused"@,
        TransferRowState::Done.word() == "done"@,
        TransferRowState::Failed.word() == "failed"@,
        TransferRowState::Cancelled.word() == "cancelled"@,
        TransferRowState::Recovered.word() == "recovered"@,
{
}

/// A synchronization transfers in its own direction, and a file operation asks for the names that it
/// needs.
pub proof fn operations_ask_for_what_they_need(
    direction: SyncDirection,
    d: TransferDirection,
    mode: FileOperationMode,
    source: bool,
    destination: bool,
)
    requires
        call_ensures(SyncDirection::transfer_direction, (direction,), d),
        call_ensures(FileOperationMode::needs_source_name, (mode,), source),
        call_ensures(FileOperationMode::needs_destination_name, (mode,), destination),
    ensures
        direction == SyncDirection::Upload ==> d == TransferDirection::Upload,
        direction == SyncDirection::Download ==> d == TransferDirection::Download,
        mode == FileOperationMode::Rename ==> source && destination,
        mode == FileOperationMode::CreateDirectory ==> !source && destination,
        mode == FileOperationMode::ChangePermissions ==> source && !destination,
{
}

} // verus!
