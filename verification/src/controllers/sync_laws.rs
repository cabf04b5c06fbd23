//! What a folder synchronization does, from its panes and its form to its copies and deletions.

use vstd::prelude::*;

use crate::controllers::sync_mirror::{
    delete_local_mirror_target, run_mirror_deletions, LocalRemoval, LocalTarget,
    MirrorDeletionReport, MirrorRun, MirrorStep, SourceState,
};
use crate::controllers::sync_plan::{
    candidate_views, checksum_inputs, common_files, deletion_views, digest_for, input_names,
    prepare_folder_sync, preview_sync, sync_context, with_digests, ChecksumInput,
    FolderSyncCandidate, FolderSyncDeletion, FolderSyncKey, KeyView, PaneSummary,
    PreparedFolderSync, PreparedView, CandidateView, DeletionView, folder_sync_context_is_current,
};
use crate::controllers::sync_scan::{
    local_inventory, relative_to, remote_inventory, sync_options, Inventory, LocalScan,
};
use crate::controllers::sync_session::{
    copies_to_queue, deletions_to_run, scan_outcome, selected_copies, selected_deletions,
    start_refusal, toggled, with_choices, OutcomeView, RefusalView,
};
use crate::folder_sync::{
    excluded, previews, SyncComparison, SyncFileMetadata, SyncMode, SyncOptions, SyncPreview,
};
use crate::model::TransferDirection;
use crate::net::error::NetError;
use crate::net::safe::{sanitized, PathParts};
use crate::net::transfer_rules::RemoteFileMetadata;
use crate::numerals::{decimal, decimal_reads_back, signed_decimal, signed_value, unsigned_value};
use crate::ordered_map::OrderedMap;
use crate::pieces::{has_prefix, lemma_drop_end_while, lemma_trimmed_fixed, only, texts, trimmed};
use crate::text::is_white_space;

verus! {

// --- the folders -------------------------------------------------------------------------------

proof fn lemma_two_kinds(panes: Seq<PaneSummary>, is_remote: bool, i: int)
    requires
        crate::controllers::sync_plan::panes_of_kind(panes, is_remote) == 1,
        0 <= i < panes.len(),
    ensures
        panes[i].is_remote == is_remote <==> i == crate::controllers::sync_plan::last_of_kind(
            panes,
            is_remote,
        ),
    decreases panes.len(),
{
    let front = panes.drop_last();
    if panes.last().is_remote == is_remote {
        if i < front.len() {
            lemma_none_of_kind(front, is_remote, i);
        }
    } else if i < front.len() {
        lemma_two_kinds(front, is_remote, i);
    } else {
        lemma_kind_bounds(front, is_remote);
    }
}

proof fn lemma_kind_bounds(panes: Seq<PaneSummary>, is_remote: bool)
    ensures
        crate::controllers::sync_plan::last_of_kind(panes, is_remote) < panes.len(),
    decreases panes.len(),
{
    if panes.len() > 0 && panes.last().is_remote != is_remote {
        lemma_kind_bounds(panes.drop_last(), is_remote);
    }
}

proof fn lemma_none_of_kind(panes: Seq<PaneSummary>, is_remote: bool, i: int)
    requires
        crate::controllers::sync_plan::panes_of_kind(panes, is_remote) == 0,
        0 <= i < panes.len(),
    ensures
        panes[i].is_remote != is_remote,
    decreases panes.len(),
{
    if i < panes.len() - 1 {
        lemma_none_of_kind(panes.drop_last(), is_remote, i);
    }
}

/// The folders of a synchronization are those of the one local pane and of the one remote pane: no
/// other pane is of either kind, and the server is the one of the remote pane.
pub proof fn the_panes_name_the_folders(panes: Seq<PaneSummary>, key: KeyView, i: int)
    requires
        panes.len() <= usize::MAX,
        sync_context(panes) == Ok::<_, Seq<char>>(key),
        0 <= i < panes.len(),
    ensures
        panes[i].is_remote <==> i == key.remote_pane,
        !panes[i].is_remote <==> i == key.local_pane,
        i == key.local_pane ==> panes[i].local_directory@ == key.local_root,
        i == key.remote_pane ==> panes[i].remote_directory@ == key.remote_root && panes[i].connection
            == Some(key.connection_id),
{
    crate::controllers::sync_plan::fresh_contexts_are_current(panes, key);
    lemma_two_kinds(panes, true, i);
    lemma_two_kinds(panes, false, i);
    lemma_kind_bounds(panes, true);
    lemma_kind_bounds(panes, false);
}

/// Two panes of which one shows a local folder and the other a connected server can be synchronized.
pub proof fn two_panes_can_be_synchronized(local: PaneSummary, remote: PaneSummary)
    requires
        !local.is_remote,
        remote.is_remote,
    ensures
        sync_context(seq![local, remote]) is Ok <==> remote.connection is Some,
        sync_context(seq![remote, local]) is Ok <==> remote.connection is Some,
        sync_context(seq![local, local]) is Err,
        sync_context(seq![remote, remote]) is Err,
{
    reveal_with_fuel(crate::controllers::sync_plan::panes_of_kind, 3);
    reveal_with_fuel(crate::controllers::sync_plan::last_of_kind, 3);
    assert(seq![local, remote].drop_last() =~= seq![local]);
    assert(seq![remote, local].drop_last() =~= seq![remote]);
    assert(seq![local, local].drop_last() =~= seq![local]);
    assert(seq![remote, remote].drop_last() =~= seq![remote]);
    assert(seq![local].drop_last() =~= Seq::<PaneSummary>::empty());
    assert(seq![remote].drop_last() =~= Seq::<PaneSummary>::empty());
}

/// A synchronization is current only while both panes show what they showed: a change of folder, of
/// kind or of connection on either side ends it.
pub proof fn changed_panes_are_noticed(panes: &Vec<PaneSummary>, key: &FolderSyncKey, r: bool)
    requires
        call_ensures(folder_sync_context_is_current, (panes, key), r),
        key.local_pane < panes@.len(),
        key.remote_pane < panes@.len(),
    ensures
        panes@[key.local_pane as int].is_remote ==> !r,
        !panes@[key.remote_pane as int].is_remote ==> !r,
        panes@[key.local_pane as int].local_directory@ != key.local_root@ ==> !r,
        panes@[key.remote_pane as int].remote_directory@ != key.remote_root@ ==> !r,
        panes@[key.remote_pane as int].connection != Some(key.connection_id) ==> !r,
        !panes@[key.local_pane as int].is_remote && panes@[key.remote_pane as int].is_remote
            && panes@[key.local_pane as int].local_directory@ == key.local_root@
            && panes@[key.remote_pane as int].remote_directory@ == key.remote_root@
            && panes@[key.remote_pane as int].connection == Some(key.connection_id) ==> r,
{
}

// --- the form ----------------------------------------------------------------------------------

/// The words of the form mean what they say, and the numbers are read as they are written.
pub proof fn the_form_means_what_it_says(
    direction: TransferDirection,
    comparison: SyncComparison,
    mode: SyncMode,
    tolerance: nat,
    offset: int,
)
    requires
        tolerance <= 86_400,
        -86_400 <= offset <= 86_400,
    ensures
        sync_options(
            direction,
            match comparison {
                SyncComparison::SizeOnly => "size_only"@,
                SyncComparison::SizeAndModificationTime => "size_mtime"@,
                SyncComparison::Checksum => "checksum"@,
            },
            decimal(tolerance),
            signed_decimal(offset),
            match mode {
                SyncMode::OneWay => "one_way"@,
                SyncMode::Mirror => "mirror"@,
            },
        ) == Ok::<SyncOptions, Seq<char>>(
            SyncOptions {
                mode,
                comparison,
                mtime_tolerance_seconds: tolerance as u64,
                source_time_adjustment_seconds: if direction == TransferDirection::Download {
                    (-offset) as i64
                } else {
                    0
                },
                target_time_adjustment_seconds: if direction == TransferDirection::Upload {
                    (-offset) as i64
                } else {
                    0
                },
            },
        ),
{
    reveal_strlit("size_only");
    reveal_strlit("size_mtime");
    reveal_strlit("checksum");
    reveal_strlit("one_way");
    reveal_strlit("mirror");
    decimal_reads_back(tolerance);
    lemma_digits_stay(decimal(tolerance));
    let size = if offset < 0 {
        (-offset) as nat
    } else {
        offset as nat
    };
    decimal_reads_back(size);
    let text = signed_decimal(offset);
    if offset < 0 {
        assert(text[0] == '-');
        assert(text.last() == decimal(size)[decimal(size).len() - 1]);
        assert(crate::numerals::is_digit(text.last()));
        lemma_trimmed_fixed(text);
        assert(text.skip(1) =~= decimal(size));
    } else {
        lemma_digits_stay(text);
        assert(text[0] != '-') by {
            assert(crate::numerals::is_digit(text[0]));
        }
    }
    assert(decimal(tolerance)[0] != '+') by {
        assert(crate::numerals::is_digit(decimal(tolerance)[0]));
    }
    if offset >= 0 {
        assert(text[0] != '+') by {
            assert(crate::numerals::is_digit(text[0]));
        }
    }
    assert(unsigned_value(decimal(tolerance), u64::MAX as nat) == Some(tolerance));
    assert(signed_value(text) == Some(offset));
    assert(trimmed(text) == text);
    assert("size_only"@.len() == 9 && "size_mtime"@.len() == 10 && "checksum"@.len() == 8);
    assert("one_way"@.len() == 7 && "mirror"@.len() == 6);
}

proof fn lemma_digits_stay(s: Seq<char>)
    requires
        crate::numerals::is_digits(s),
    ensures
        trimmed(s) == s,
{
    assert(crate::numerals::is_digit(s[0]));
    assert(crate::numerals::is_digit(s[s.len() - 1]));
    lemma_trimmed_fixed(s);
}

/// An unknown word or a number out of range is refused.
pub proof fn odd_forms_are_refused(
    direction: TransferDirection,
    comparison: Seq<char>,
    tolerance: Seq<char>,
    offset: Seq<char>,
    mode: Seq<char>,
)
    ensures
        comparison != "size_only"@ && comparison != "size_mtime"@ && comparison != "checksum"@
            ==> sync_options(direction, comparison, tolerance, offset, mode) is Err,
        mode != "one_way"@ && mode != "mirror"@ ==> sync_options(
            direction,
            comparison,
            tolerance,
            offset,
            mode,
        ) is Err,
        (unsigned_value(trimmed(tolerance), u64::MAX as nat) matches Some(n) && n > 86_400)
            ==> sync_options(direction, comparison, tolerance, offset, mode) is Err,
        (signed_value(trimmed(offset)) matches Some(n) && (n > 86_400 || n < -86_400))
            ==> sync_options(direction, comparison, tolerance, offset, mode) is Err,
{
}

// --- the files ---------------------------------------------------------------------------------

/// A file below the folder is known by what follows the folder in its path; a path that lies
/// elsewhere is refused.
pub proof fn files_are_known_by_their_place_in_the_folder(root: Seq<char>, relative: Seq<char>)
    requires
        root.len() > 0,
        !is_white_space(root[0]),
        !is_white_space(root.last()),
        root.last() != '/',
        root != "."@,
        relative.len() > 0,
        sanitized(relative) is Ok,
    ensures
        relative_to(root, root + "/"@ + relative) == Ok::<Seq<char>, Seq<char>>(
            sanitized(relative)->Ok_0,
        ),
        forall|path: Seq<char>|
            !has_prefix(path, root + "/"@) ==> (#[trigger] relative_to(root, path)) is Err,
{
    lemma_trimmed_fixed(root);
    lemma_drop_end_while(root, only('/'), root.len() as int);
    assert(root.take(root.len() as int) =~= root);
    let prefix = root + "/"@;
    let path = root + "/"@ + relative;
    reveal_strlit("/");
    assert(path.take(prefix.len() as int) =~= prefix);
    assert(path.skip(prefix.len() as int) =~= relative);
}

/// The local side is known file by file, with its size and time and where it is. A file that changed
/// while it was looked at, or that turns up twice, makes the scan worthless.
pub proof fn the_local_side_is_known_as_it_is(
    files: &Vec<LocalScan>,
    r: Result<Inventory, String>,
    i: int,
)
    requires
        call_ensures(local_inventory, (files,), r),
        0 <= i < files@.len(),
    ensures
        files@[i].facts is Err ==> r is Err,
        (files@[i].facts matches Ok(facts) && (!facts.regular || facts.bytes != files@[i].bytes))
            ==> r is Err,
        (exists|j: int| 0 <= j < i && (#[trigger] files@[j]).relative@ == files@[i].relative@) ==> r is Err,
        r matches Ok(inventory) ==> {
            &&& inventory.metadata.spec_get(files@[i].relative@) matches Some(known)
            &&& known.bytes == files@[i].bytes
            &&& known.modified == files@[i].facts->Ok_0.modified
            &&& known.sha256 is None
            &&& inventory.paths.spec_get(files@[i].relative@) matches Some(path)
            &&& path@ == files@[i].path@
            &&& inventory.metadata.seq().len() == files@.len()
        },
{
    assert(crate::controllers::sync_scan::local_problem(files@, i) is None || r is Err);
    if r is Ok {
        let inventory = r->Ok_0;
        assert(inventory.knows(
            files@[i].relative@,
            files@[i].path@,
            crate::controllers::sync_scan::local_metadata(files@[i]),
        ));
        if exists|j: int| 0 <= j < i && (#[trigger] files@[j]).relative@ == files@[i].relative@ {
            assert(crate::controllers::sync_scan::local_duplicate(files@, i));
        }
    }
}

/// The remote side is known file by file, with the size and time that the server lists. A path
/// outside the folder, or one that is listed twice, makes the listing worthless.
pub proof fn the_remote_side_is_known_as_listed(
    root: &str,
    files: &Vec<RemoteFileMetadata>,
    duplicate: &str,
    r: Result<Inventory, String>,
    i: int,
)
    requires
        call_ensures(remote_inventory, (root, files, duplicate), r),
        0 <= i < files@.len(),
    ensures
        relative_to(root@, files@[i].path@) is Err ==> r is Err,
        r matches Ok(inventory) ==> {
            let name = relative_to(root@, files@[i].path@)->Ok_0;
            &&& inventory.metadata.spec_get(name) matches Some(known)
            &&& known.bytes == files@[i].size
            &&& known.modified == files@[i].mtime
            &&& known.sha256 is None
            &&& inventory.paths.spec_get(name) matches Some(path)
            &&& path@ == files@[i].path@
            &&& inventory.metadata.seq().len() == files@.len()
        },
{
    if r is Ok {
        let inventory = r->Ok_0;
        assert(crate::controllers::sync_scan::remote_problem(root@, files@, i, duplicate@) is None);
        assert(inventory.knows(
            crate::controllers::sync_scan::remote_relative(root@, files@[i])->0,
            files@[i].path@,
            crate::controllers::sync_scan::remote_metadata(files@[i]),
        ));
    } else if relative_to(root@, files@[i].path@) is Err {
        assert(crate::controllers::sync_scan::remote_problem(root@, files@, i, duplicate@) is Some);
    }
}

proof fn lemma_common(
    local: Seq<(String, SyncFileMetadata)>,
    remote: OrderedMap<SyncFileMetadata>,
    rules: Seq<Seq<char>>,
    n: int,
)
    requires
        0 <= n < local.len(),
    ensures
        (remote.spec_get(local[n].0@) matches Some(there) && there.bytes == local[n].1.bytes)
            && !excluded(local[n].0@, rules) ==> common_files(local, remote, rules).contains(
            local[n].0@,
        ),
    decreases local.len(),
{
    let front = local.drop_last();
    let before = common_files(front, remote, rules);
    let all = common_files(local, remote, rules);
    if n < front.len() {
        assert(front[n] == local[n]);
        lemma_common(front, remote, rules, n);
        if before.contains(local[n].0@) {
            let k = choose|k: int| 0 <= k < before.len() && before[k] == local[n].0@;
            assert(all[k] == local[n].0@);
        }
    } else if (remote.spec_get(local[n].0@) matches Some(there) && there.bytes == local[n].1.bytes)
        && !excluded(local[n].0@, rules) {
        assert(all[all.len() - 1] == local[n].0@);
    }
}

proof fn lemma_only_common(
    local: Seq<(String, SyncFileMetadata)>,
    remote: OrderedMap<SyncFileMetadata>,
    rules: Seq<Seq<char>>,
    k: int,
) -> (n: int)
    requires
        0 <= k < common_files(local, remote, rules).len(),
    ensures
        0 <= n < local.len(),
        local[n].0@ == common_files(local, remote, rules)[k],
        remote.spec_get(local[n].0@) matches Some(there) && there.bytes == local[n].1.bytes,
        !excluded(local[n].0@, rules),
    decreases local.len(),
{
    let front = local.drop_last();
    if k < common_files(front, remote, rules).len() {
        let n = lemma_only_common(front, remote, rules, k);
        assert(front[n] == local[n]);
        n
    } else {
        local.len() - 1
    }
}

/// Exactly the files are hashed that both sides have in the same size and that no rule excludes, each
/// with its paths on both sides.
pub proof fn files_of_one_size_are_hashed(
    local: &Inventory,
    remote: &Inventory,
    exclusions: &Vec<String>,
    limit: usize,
    inputs: Vec<ChecksumInput>,
    name: Seq<char>,
)
    requires
        local.wf(),
        remote.wf(),
        call_ensures(
            checksum_inputs,
            (local, remote, exclusions, limit),
            Ok::<Vec<ChecksumInput>, String>(inputs),
        ),
    ensures
        (exists|i: int| 0 <= i < inputs@.len() && (#[trigger] inputs@[i]).relative@ == name) <==> (
        local.metadata.spec_get(name) matches Some(here) && remote.metadata.spec_get(name)
            matches Some(there) && here.bytes == there.bytes && !excluded(name, texts(exclusions@))),
        forall|i: int|
            0 <= i < inputs@.len() ==> local.paths.spec_get((#[trigger] inputs@[i]).relative@) == Some(
                inputs@[i].local_path,
            ) && remote.paths.spec_get(inputs@[i].relative@) == Some(inputs@[i].remote_path),
{
    let rules = texts(exclusions@);
    let files = local.metadata.seq();
    let common = common_files(files, remote.metadata, rules);
    assert(input_names(inputs@) == common);
    if exists|i: int| 0 <= i < inputs@.len() && (#[trigger] inputs@[i]).relative@ == name {
        let i = choose|i: int| 0 <= i < inputs@.len() && (#[trigger] inputs@[i]).relative@ == name;
        assert(input_names(inputs@)[i] == name);
        let n = lemma_only_common(files, remote.metadata, rules, i);
        crate::ordered_map::lemma_lookup_found(files, n);
    }
    if local.metadata.spec_get(name) matches Some(here) && remote.metadata.spec_get(name) matches Some(
        there,
    ) && here.bytes == there.bytes && !excluded(name, rules) {
        let n = crate::ordered_map::lemma_lookup_some(files, name);
        lemma_common(files, remote.metadata, rules, n);
        let i = choose|i: int| 0 <= i < common.len() && common[i] == name;
        assert(input_names(inputs@)[i] == inputs@[i].relative@);
    }
    assert forall|i: int| 0 <= i < inputs@.len() implies local.paths.spec_get(
        (#[trigger] inputs@[i]).relative@,
    ) == Some(inputs@[i].local_path) && remote.paths.spec_get(inputs@[i].relative@) == Some(
        inputs@[i].remote_path,
    ) by {
        assert(crate::controllers::sync_plan::has_paths(inputs@[i], *local, *remote));
    }
}

proof fn lemma_digest_for(inputs: Seq<ChecksumInput>, digests: Seq<[u8; 32]>, i: int)
    requires
        0 <= i < inputs.len(),
        forall|j: int, k: int|
            0 <= j < k < inputs.len() ==> (#[trigger] inputs[j]).relative@ != (#[trigger] inputs[k]).relative@,
    ensures
        digest_for(inputs, digests, inputs[i].relative@) == Some(digests[i]),
    decreases inputs.len(),
{
    if i < inputs.len() - 1 {
        let front = inputs.drop_last();
        assert(inputs[i].relative@ != inputs[inputs.len() - 1].relative@);
        assert forall|j: int, k: int| 0 <= j < k < front.len() implies (#[trigger] front[j]).relative@
            != (#[trigger] front[k]).relative@ by {
            assert(inputs[j].relative@ != inputs[k].relative@);
        }
        assert(front[i] == inputs[i]);
        lemma_digest_for(front, digests, i);
    }
}

/// Each hashed file gets its own digest, and nothing else about any file changes.
pub proof fn digests_go_to_their_files(
    inventory: Inventory,
    inputs: &Vec<ChecksumInput>,
    digests: &Vec<[u8; 32]>,
    r: Inventory,
    i: int,
)
    requires
        call_ensures(with_digests, (inventory, inputs, digests), r),
        digests@.len() == inputs@.len(),
        0 <= i < inputs@.len(),
        forall|j: int, k: int|
            0 <= j < k < inputs@.len() ==> (#[trigger] inputs@[j]).relative@ != (
            #[trigger] inputs@[k]).relative@,
    ensures
        inventory.metadata.spec_get(inputs@[i].relative@) matches Some(before) ==> {
            &&& r.metadata.spec_get(inputs@[i].relative@) matches Some(after)
            &&& after.sha256 == Some(digests@[i])
            &&& after.bytes == before.bytes
            &&& after.modified == before.modified
        },
        r.paths == inventory.paths,
        forall|name: Seq<char>|
            (forall|j: int| 0 <= j < inputs@.len() ==> (#[trigger] inputs@[j]).relative@ != name)
                ==> #[trigger] r.metadata.spec_get(name) == inventory.metadata.spec_get(name),
{
    lemma_digest_for(inputs@, digests@, i);
    assert forall|name: Seq<char>|
        (forall|j: int| 0 <= j < inputs@.len() ==> (#[trigger] inputs@[j]).relative@ != name)
        implies #[trigger] r.metadata.spec_get(name) == inventory.metadata.spec_get(name) by {
        lemma_no_digest(inputs@, digests@, name);
    }
}

proof fn lemma_no_digest(inputs: Seq<ChecksumInput>, digests: Seq<[u8; 32]>, name: Seq<char>)
    requires
        forall|j: int| 0 <= j < inputs.len() ==> (#[trigger] inputs[j]).relative@ != name,
    ensures
        digest_for(inputs, digests, name) is None,
    decreases inputs.len(),
{
    if inputs.len() > 0 {
        let front = inputs.drop_last();
        assert(inputs[inputs.len() - 1].relative@ != name);
        assert forall|j: int| 0 <= j < front.len() implies (#[trigger] front[j]).relative@ != name by {
            assert(inputs[j].relative@ != name);
        }
        lemma_no_digest(front, digests, name);
    }
}

// --- the plan ----------------------------------------------------------------------------------

/// An upload follows the local side and a download the remote one.
pub proof fn the_direction_says_who_is_followed(
    local: &Inventory,
    remote: &Inventory,
    exclusions: &Vec<String>,
    options: SyncOptions,
    up: SyncPreview,
    down: SyncPreview,
)
    requires
        call_ensures(
            preview_sync,
            (TransferDirection::Upload, local, remote, exclusions, options),
            up,
        ),
        call_ensures(
            preview_sync,
            (TransferDirection::Download, local, remote, exclusions, options),
            down,
        ),
    ensures
        previews(up, local.metadata, remote.metadata, texts(exclusions@), options),
        previews(down, remote.metadata, local.metadata, texts(exclusions@), options),
{
}

/// What each line of a dry run stands for: an upload takes the local file to the folder on the server,
/// a download takes the remote file to the given local place; a deletion names the file on the side
/// that follows, with what is known of it. All of them are selected at first.
#[verifier::rlimit(40)]
pub proof fn dry_runs_name_both_ends(
    key: FolderSyncKey,
    direction: TransferDirection,
    exclusions: Vec<String>,
    options: SyncOptions,
    local: &Inventory,
    remote: &Inventory,
    preview: SyncPreview,
    targets: &Vec<Result<String, String>>,
    prepared: PreparedFolderSync,
    i: int,
)
    requires
        call_ensures(
            prepare_folder_sync,
            (key, direction, exclusions, options, local, remote, preview, targets),
            Ok::<PreparedFolderSync, String>(prepared),
        ),
    ensures
        prepared.candidates@.len() == preview.actions@.len(),
        prepared.deletions@.len() == preview.deletions@.len(),
        prepared.direction == direction,
        prepared.options == options,
        prepared.key@ == key@,
        0 <= i < preview.actions@.len() ==> {
            let copy = prepared.candidates@[i];
            let action = preview.actions@[i];
            &&& copy.included
            &&& copy.label@ == action.relative_path@
            &&& copy.bytes == action.bytes
            &&& direction == TransferDirection::Upload ==> copy.local_path@ == local.paths.spec_get(
                action.relative_path@,
            )->0@ && copy.remote_path@ == (if key.remote_root@.len() == 0 || key.remote_root@.last()
                == '/' {
                key.remote_root@ + action.relative_path@
            } else {
                key.remote_root@ + "/"@ + action.relative_path@
            })
            &&& direction == TransferDirection::Download ==> copy.remote_path@
                == remote.paths.spec_get(action.relative_path@)->0@ && copy.local_path@
                == targets@[i]->Ok_0@
        },
        0 <= i < preview.deletions@.len() ==> {
            let deletion = prepared.deletions@[i];
            let action = preview.deletions@[i];
            &&& deletion.included
            &&& deletion.label@ == action.relative_path@
            &&& direction == TransferDirection::Upload ==> deletion.remote_path@
                == remote.paths.spec_get(action.relative_path@)->0@ && deletion.metadata.bytes
                == remote.metadata.spec_get(action.relative_path@)->0.bytes
                && deletion.metadata.modified == remote.metadata.spec_get(
                action.relative_path@,
            )->0.modified
            &&& direction == TransferDirection::Download ==> deletion.local_path@
                == local.paths.spec_get(action.relative_path@)->0@ && deletion.metadata.bytes
                == local.metadata.spec_get(action.relative_path@)->0.bytes
                && deletion.metadata.modified == local.metadata.spec_get(
                action.relative_path@,
            )->0.modified
        },
{
    assert(prepared@.candidates.len() == prepared.candidates@.len());
    assert(prepared@.deletions.len() == prepared.deletions@.len());
    if 0 <= i < preview.actions@.len() {
        assert(prepared@.candidates[i] == prepared.candidates@[i]@);
    }
    if 0 <= i < preview.deletions@.len() {
        assert(prepared@.deletions[i] == prepared.deletions@[i]@);
    }
}

proof fn lemma_selected_copies(all: Seq<CandidateView>, c: CandidateView)
    ensures
        selected_copies(all).contains(c) <==> all.contains(c) && c.included,
        selected_copies(all).len() <= all.len(),
    decreases all.len(),
{
    if all.len() > 0 {
        let front = all.drop_last();
        lemma_selected_copies(front, c);
        let before = selected_copies(front);
        let now = selected_copies(all);
        if all.contains(c) {
            let i = choose|i: int| 0 <= i < all.len() && all[i] == c;
            if i < front.len() {
                assert(front[i] == c);
            }
        }
        if front.contains(c) {
            let i = choose|i: int| 0 <= i < front.len() && front[i] == c;
            assert(all[i] == c);
        }
        if before.contains(c) {
            let i = choose|i: int| 0 <= i < before.len() && before[i] == c;
            assert(now[i] == c);
        }
        assert(all[all.len() - 1] == all.last());
        if all.last().included {
            assert(now[now.len() - 1] == all.last());
            if now.contains(c) && !before.contains(c) {
                let i = choose|i: int| 0 <= i < now.len() && now[i] == c;
                if i < before.len() {
                    assert(before[i] == c);
                }
            }
        }
    }
}

proof fn lemma_selected_deletions(all: Seq<DeletionView>, d: DeletionView)
    ensures
        selected_deletions(all).contains(d) <==> all.contains(d) && d.included,
    decreases all.len(),
{
    if all.len() > 0 {
        let front = all.drop_last();
        lemma_selected_deletions(front, d);
        let before = selected_deletions(front);
        let now = selected_deletions(all);
        if all.contains(d) {
            let i = choose|i: int| 0 <= i < all.len() && all[i] == d;
            if i < front.len() {
                assert(front[i] == d);
            }
        }
        if front.contains(d) {
            let i = choose|i: int| 0 <= i < front.len() && front[i] == d;
            assert(all[i] == d);
        }
        if before.contains(d) {
            let i = choose|i: int| 0 <= i < before.len() && before[i] == d;
            assert(now[i] == d);
        }
        assert(all[all.len() - 1] == all.last());
        if all.last().included {
            assert(now[now.len() - 1] == all.last());
            if now.contains(d) && !before.contains(d) {
                let i = choose|i: int| 0 <= i < now.len() && now[i] == d;
                if i < before.len() {
                    assert(before[i] == d);
                }
            }
        }
    }
}

/// Exactly what is selected is copied and deleted.
pub proof fn what_is_selected_is_carried_out(
    candidates: &Vec<FolderSyncCandidate>,
    queue: Vec<FolderSyncCandidate>,
    deletions: &Vec<FolderSyncDeletion>,
    run: Vec<FolderSyncDeletion>,
    copy: CandidateView,
    deletion: DeletionView,
)
    requires
        call_ensures(copies_to_queue, (candidates,), queue),
        call_ensures(deletions_to_run, (deletions,), run),
    ensures
        candidate_views(queue@).contains(copy) <==> candidate_views(candidates@).contains(copy)
            && copy.included,
        deletion_views(run@).contains(deletion) <==> deletion_views(deletions@).contains(deletion)
            && deletion.included,
{
    lemma_selected_copies(candidate_views(candidates@), copy);
    lemma_selected_deletions(deletion_views(deletions@), deletion);
}

/// A row of a dry run is turned over alone: the copies come first, then the deletions.
pub proof fn one_row_is_turned_over(prepared: PreparedView, row: int, i: int)
    requires
        0 <= row < prepared.candidates.len() + prepared.deletions.len(),
    ensures
        toggled(prepared, row).policy == prepared.policy,
        toggled(prepared, row).preview == prepared.preview,
        toggled(prepared, row).candidates.len() == prepared.candidates.len(),
        toggled(prepared, row).deletions.len() == prepared.deletions.len(),
        0 <= i < prepared.candidates.len() ==> toggled(prepared, row).candidates[i]
            == (CandidateView {
            included: prepared.candidates[i].included != (i == row),
            ..prepared.candidates[i]
        }),
        0 <= i < prepared.deletions.len() ==> toggled(prepared, row).deletions[i]
            == (DeletionView {
            included: prepared.deletions[i].included != (i + prepared.candidates.len() == row),
            ..prepared.deletions[i]
        }),
{
}

// --- the mirror --------------------------------------------------------------------------------

/// Nothing is deleted where the folders have changed: the rest of a mirror is then left alone.
pub proof fn changed_folders_stop_a_mirror(run: &mut MirrorRun, r: MirrorStep)
    requires
        old(run).wf(),
        call_ensures(MirrorRun::step, (run, false), r),
    ensures
        r == MirrorStep::Finished,
        final(run).report.deleted == old(run).report.deleted,
        final(run).position == final(run).deletions@.len(),
{
}

/// The source is looked for before anything on the server is deleted, and a local file is deleted
/// only if the server does not have it.
pub proof fn sources_are_looked_for_first(run: &mut MirrorRun, r: MirrorStep)
    requires
        old(run).wf(),
        old(run).position < old(run).deletions@.len(),
        call_ensures(MirrorRun::step, (run, true), r),
    ensures
        !(r is DeleteRemote),
        r != MirrorStep::Finished,
        old(run).direction == TransferDirection::Upload ==> (r matches MirrorStep::CheckSource(label)
            && label@ == old(run).deletions@[old(run).position as int].label@),
        r matches MirrorStep::DeleteLocal(at) ==> at == old(run).position && old(run).direction
            == TransferDirection::Download && old(run).remote.metadata.spec_get(
            old(run).deletions@[at as int].label@,
        ) is None,
        old(run).direction == TransferDirection::Download && old(run).remote.metadata.spec_get(
            old(run).deletions@[old(run).position as int].label@,
        ) is Some ==> r == MirrorStep::Continue && final(run).report.skipped == old(run).report.skipped
            + 1 && final(run).report.deleted == old(run).report.deleted,
{
}

/// A remote file is deleted only if its source is certainly gone and the file is, at the same path,
/// of the size and time that were shown; then it is deleted. Else it is skipped.
pub proof fn only_unchanged_remote_files_are_deleted(
    run: &mut MirrorRun,
    source: SourceState,
    r: MirrorStep,
)
    requires
        old(run).wf(),
        old(run).position < old(run).deletions@.len(),
        call_ensures(MirrorRun::source_checked, (run, source), r),
    ensures
        ({
            let shown = old(run).deletions@[old(run).position as int];
            let now = old(run).remote.metadata.spec_get(shown.label@);
            let there = old(run).remote.paths.spec_get(shown.label@);
            let safe = source == SourceState::Absent && (now matches Some(file) && file.bytes
                == shown.metadata.bytes && file.modified == shown.metadata.modified) && (there
                matches Some(path) && path@ == shown.remote_path@);
            &&& r is DeleteRemote <==> safe
            &&& r matches MirrorStep::DeleteRemote(path) ==> path@ == shown.remote_path@
            &&& !safe ==> final(run).report.skipped == old(run).report.skipped + 1
                && final(run).report.deleted == old(run).report.deleted && final(run).position
                == old(run).position + 1
        }),
{
}

/// A local file is moved to the Trash only if it is where it was shown, inside the folder, a regular
/// file, and of the size and time that were shown.
pub proof fn only_unchanged_local_files_are_deleted(
    deletion: &FolderSyncDeletion,
    expected: &Result<PathParts, String>,
    stored: &PathParts,
    shown: &str,
    within: &Result<(), NetError>,
    current: &LocalTarget,
    r: Result<bool, String>,
)
    requires
        call_ensures(
            delete_local_mirror_target,
            (deletion, expected, stored, shown, within, current),
            r,
        ),
    ensures
        r == Ok::<bool, String>(true) <==> (expected matches Ok(path) && path@ == stored@) && within is Ok
            && (current matches LocalTarget::Present(facts) && facts.regular && facts.bytes
            == deletion.metadata.bytes && facts.modified == deletion.metadata.modified),
        within is Err ==> r is Err,
        (expected matches Ok(path) && path@ == stored@) && within is Ok && *current
            == LocalTarget::Missing ==> r == Ok::<bool, String>(false),
{
}

/// A deletion is counted as what became of it.
pub proof fn deletions_are_counted_as_they_went(
    run: &mut MirrorRun,
    remote: Result<(), NetError>,
    other: &mut MirrorRun,
    local: LocalRemoval,
)
    requires
        old(run).wf(),
        old(run).position < old(run).deletions@.len(),
        call_ensures(MirrorRun::remote_deleted, (run, remote), ()),
        old(other).wf(),
        old(other).position < old(other).deletions@.len(),
        call_ensures(MirrorRun::local_deleted, (other, local), ()),
    ensures
        final(run).position == old(run).position + 1,
        final(run).report.deleted == old(run).report.deleted + if remote is Ok {
            1int
        } else {
            0
        },
        final(run).report.failed == old(run).report.failed + if remote is Err {
            1int
        } else {
            0
        },
        final(run).report.skipped == old(run).report.skipped,
        final(other).position == old(other).position + 1,
        final(other).report.deleted == old(other).report.deleted + if local is Deleted {
            1int
        } else {
            0
        },
        final(other).report.skipped == old(other).report.skipped + if local is Left {
            1int
        } else {
            0
        },
        final(other).report.failed == old(other).report.failed + if local is Failed || local
            is TaskFailed {
            1int
        } else {
            0
        },
{
}

/// No deletion is begun when the folders have changed, the credential is gone, or the server could
/// not be looked at; all selected ones are then skipped.
pub proof fn mirrors_begin_only_on_sure_ground(
    deletions: &Vec<FolderSyncDeletion>,
    context_current: bool,
    has_credential: bool,
    snapshot_error: Option<String>,
    r: Option<MirrorDeletionReport>,
)
    requires
        call_ensures(
            run_mirror_deletions,
            (deletions, context_current, has_credential, snapshot_error),
            r,
        ),
    ensures
        !context_current || !has_credential || snapshot_error is Some ==> r is Some,
        r matches Some(report) ==> report.deleted == 0 && report.failed == 0 && report.skipped
            == selected_deletions(deletion_views(deletions@)).len(),
        selected_deletions(deletion_views(deletions@)).len() > 0 && context_current && has_credential
            && snapshot_error is None ==> r is None,
{
}

// --- from dry run to synchronization -----------------------------------------------------------

/// A scan starts only where the form can be read, the folders are there and the credential is; to
/// apply takes a dry run that was shown, and selected deletions of a mirror take their own
/// confirmation. Nothing else stands in the way.
pub proof fn scans_start_when_all_is_there(
    options: SyncOptions,
    refusal: RefusalView,
    context: Option<Seq<char>>,
    expected: Option<PreparedView>,
    mirror_confirmed: bool,
    apply: bool,
    has_credential: bool,
)
    ensures
        start_refusal(
            Err::<SyncOptions, RefusalView>(refusal),
            context,
            expected,
            mirror_confirmed,
            apply,
            has_credential,
        ) == Some(refusal),
        start_refusal(
            Ok::<SyncOptions, RefusalView>(options),
            context,
            expected,
            mirror_confirmed,
            apply,
            has_credential,
        ) is None <==> context is None && has_credential && (apply ==> (expected matches Some(shown)
            && (options.mode == SyncMode::Mirror && (exists|i: int|
            0 <= i < shown.deletions.len() && (#[trigger] shown.deletions[i]).included)
            ==> mirror_confirmed))),
{
}

/// The choices of the user are carried over to a fresh dry run under the same policy, file by file;
/// what is new keeps its own. Nothing but the choices changes.
pub proof fn choices_are_carried_over(fresh: PreparedView, shown: PreparedView, i: int, j: int)
    requires
        fresh.policy == shown.policy,
        0 <= i < fresh.candidates.len(),
        0 <= j < shown.candidates.len(),
        shown.candidates[j].label == fresh.candidates[i].label,
        forall|k: int|
            0 <= k < shown.candidates.len() && k != j ==> (#[trigger] shown.candidates[k]).label
                != fresh.candidates[i].label,
    ensures
        with_choices(fresh, shown).candidates.len() == fresh.candidates.len(),
        with_choices(fresh, shown).candidates[i] == (CandidateView {
            included: shown.candidates[j].included,
            ..fresh.candidates[i]
        }),
        with_choices(fresh, shown).preview == fresh.preview,
        with_choices(fresh, shown).policy == fresh.policy,
{
    lemma_choice(shown.candidates, fresh.candidates[i].label, j);
}

proof fn lemma_choice(items: Seq<CandidateView>, label: Seq<char>, j: int)
    requires
        0 <= j < items.len(),
        items[j].label == label,
        forall|k: int| 0 <= k < items.len() && k != j ==> (#[trigger] items[k]).label != label,
    ensures
        crate::controllers::sync_session::copy_selection(items, label) == Some(items[j].included),
    decreases items.len(),
{
    if j < items.len() - 1 {
        assert(items[items.len() - 1].label != label);
        lemma_choice(items.drop_last(), label, j);
    }
}

/// What follows a scan: a later scan takes the place of an earlier one, a failed one is told, and a
/// dry run is applied only if it was asked for, still agrees with the one that was shown, and selects
/// something.
pub proof fn scans_lead_to_what_was_asked_for(
    fresh: PreparedView,
    error: Seq<char>,
    context_current: bool,
    expected: Option<PreparedView>,
    apply: bool,
)
    ensures
        scan_outcome(false, Ok::<PreparedView, Seq<char>>(fresh), context_current, expected, apply)
            == OutcomeView::Superseded,
        scan_outcome(true, Err::<PreparedView, Seq<char>>(error), context_current, expected, apply) is Failed,
        scan_outcome(true, Ok::<PreparedView, Seq<char>>(fresh), false, expected, apply) is Failed,
        scan_outcome(true, Ok::<PreparedView, Seq<char>>(fresh), true, None, apply)
            == (OutcomeView::Preview { prepared: fresh, changed: false }),
        expected matches Some(shown) ==> (apply && with_choices(fresh, shown) != shown
            ==> scan_outcome(true, Ok::<PreparedView, Seq<char>>(fresh), true, expected, apply)
            == (OutcomeView::Preview { prepared: with_choices(fresh, shown), changed: true })),
        expected matches Some(shown) ==> (apply && with_choices(fresh, shown) == shown && (exists|
            i: int,
        |
            0 <= i < shown.candidates.len() && (#[trigger] shown.candidates[i]).included)
            ==> scan_outcome(true, Ok::<PreparedView, Seq<char>>(fresh), true, expected, apply)
            == OutcomeView::Apply(shown)),
        expected matches Some(shown) ==> (apply && with_choices(fresh, shown) == shown && (exists|
            i: int,
        |
            0 <= i < shown.deletions.len() && (#[trigger] shown.deletions[i]).included)
            ==> scan_outcome(true, Ok::<PreparedView, Seq<char>>(fresh), true, expected, apply)
            == OutcomeView::Apply(shown)),
{
}

} // verus!
