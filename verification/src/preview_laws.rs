//! What a dry run says of every single file.

use vstd::prelude::*;

use crate::folder_sync::{
    action_views, copies_name_source_files, copy_reason, deletions_name_target_only_files, excluded,
    excluded_count, only_on_target, planned_copies, planned_deletions, previews, unchanged_count,
    ActionView, Snapshot, SyncComparison, SyncFileMetadata, SyncMode, SyncOptions, SyncPreview,
    SyncReason,
};
use crate::lexical::lex_lt;
use crate::ordered_map::{keys_of, lemma_lookup_some, strictly_sorted};

verus! {

/// The dry run copies a path, with this size and for this reason.
pub open spec fn copies(preview: SyncPreview, path: Seq<char>, bytes: u64, reason: SyncReason) -> bool {
    exists|i: int|
        0 <= i < preview.actions@.len() && (#[trigger] preview.actions@[i]).relative_path@ == path
            && preview.actions@[i].bytes == bytes && preview.actions@[i].reason == reason
}

/// The dry run does not copy a path.
pub open spec fn leaves(preview: SyncPreview, path: Seq<char>) -> bool {
    forall|i: int|
        0 <= i < preview.actions@.len() ==> (#[trigger] preview.actions@[i]).relative_path@ != path
}

/// The dry run deletes a path.
pub open spec fn deletes(preview: SyncPreview, path: Seq<char>) -> bool {
    exists|i: int|
        0 <= i < preview.deletions@.len() && (#[trigger] preview.deletions@[i]).relative_path@
            == path
}

proof fn lemma_copy_is_planned(
    source: Seq<(String, SyncFileMetadata)>,
    target: Snapshot,
    rules: Seq<Seq<char>>,
    options: SyncOptions,
    n: int,
) -> (i: int)
    requires
        0 <= n < source.len(),
        !excluded(source[n].0@, rules),
        copy_reason(source[n].1, target.spec_get(source[n].0@), options) is Some,
    ensures
        0 <= i < planned_copies(source, target, rules, options).len(),
        planned_copies(source, target, rules, options)[i] == (ActionView {
            path: source[n].0@,
            bytes: source[n].1.bytes,
            reason: copy_reason(source[n].1, target.spec_get(source[n].0@), options)->0,
        }),
    decreases source.len(),
{
    let before = planned_copies(source.drop_last(), target, rules, options);
    if n < source.len() - 1 {
        assert(source.drop_last()[n] == source[n]);
        lemma_copy_is_planned(source.drop_last(), target, rules, options, n)
    } else {
        before.len() as int
    }
}

/// What happens to a file of the source is decided by nothing but the rules, the two files and the
/// way of comparing: a file that the target lacks, or has in another size, is always copied, with the
/// size that the source has. Among files of the same size the time and the digest decide, each only
/// where it was asked for, and where they are not known the file is copied.
pub proof fn every_source_file_is_decided(
    preview: SyncPreview,
    source: Snapshot,
    target: Snapshot,
    rules: Seq<Seq<char>>,
    options: SyncOptions,
    path: Seq<char>,
    file: SyncFileMetadata,
)
    requires
        source.wf(),
        previews(preview, source, target, rules, options),
        source.spec_get(path) == Some(file),
    ensures
        excluded(path, rules) ==> leaves(preview, path),
        !excluded(path, rules) ==> match target.spec_get(path) {
            None => copies(preview, path, file.bytes, SyncReason::Missing),
            Some(there) => if there.bytes != file.bytes {
                copies(preview, path, file.bytes, SyncReason::DifferentSize)
            } else {
                match options.comparison {
                    SyncComparison::SizeOnly => leaves(preview, path),
                    SyncComparison::SizeAndModificationTime => match (
                        file.modified,
                        there.modified,
                    ) {
                        (Some(here), Some(then)) => {
                            let late = here + options.source_time_adjustment_seconds;
                            let early = then + options.target_time_adjustment_seconds;
                            i64::MIN <= late <= i64::MAX && i64::MIN <= early <= i64::MAX ==> if late
                                > early + options.mtime_tolerance_seconds {
                                copies(
                                    preview,
                                    path,
                                    file.bytes,
                                    SyncReason::DifferentModificationTime,
                                )
                            } else {
                                leaves(preview, path)
                            }
                        },
                        _ => copies(
                            preview,
                            path,
                            file.bytes,
                            SyncReason::ModificationTimeUnavailable,
                        ),
                    },
                    SyncComparison::Checksum => match (file.sha256, there.sha256) {
                        (Some(here), Some(then)) => if here@ == then@ {
                            leaves(preview, path)
                        } else {
                            copies(preview, path, file.bytes, SyncReason::DifferentChecksum)
                        },
                        _ => copies(preview, path, file.bytes, SyncReason::ChecksumUnavailable),
                    },
                }
            },
        },
{
    let plan = planned_copies(source.seq(), target, rules, options);
    let n = lemma_lookup_some(source.seq(), path);
    assert forall|i: int| 0 <= i < plan.len() && (#[trigger] plan[i]).path == path implies !excluded(
        path,
        rules,
    ) && copy_reason(file, target.spec_get(path), options) is Some by {
        copies_name_source_files(source, target, rules, options, i);
    }
    assert forall|i: int| 0 <= i < preview.actions@.len() implies (
    #[trigger] preview.actions@[i]).relative_path@ == plan[i].path by {
        assert(action_views(preview.actions@)[i] == preview.actions@[i]@);
    }
    if !excluded(path, rules) && copy_reason(file, target.spec_get(path), options) is Some {
        let i = lemma_copy_is_planned(source.seq(), target, rules, options, n);
        assert(action_views(preview.actions@)[i] == preview.actions@[i]@);
        assert(preview.actions@[i].relative_path@ == path);
    }
}

/// Nothing is copied that the source does not have.
pub proof fn only_source_files_are_copied(
    preview: SyncPreview,
    source: Snapshot,
    target: Snapshot,
    rules: Seq<Seq<char>>,
    options: SyncOptions,
    path: Seq<char>,
)
    requires
        source.wf(),
        previews(preview, source, target, rules, options),
        source.spec_get(path) is None,
    ensures
        leaves(preview, path),
{
    assert forall|i: int| 0 <= i < preview.actions@.len() implies (
    #[trigger] preview.actions@[i]).relative_path@ != path by {
        assert(action_views(preview.actions@)[i] == preview.actions@[i]@);
        copies_name_source_files(source, target, rules, options, i);
    }
}

proof fn lemma_deletion_is_planned(
    target: Seq<(String, SyncFileMetadata)>,
    source: Snapshot,
    rules: Seq<Seq<char>>,
    n: int,
) -> (i: int)
    requires
        0 <= n < target.len(),
        !excluded(target[n].0@, rules),
        source.spec_get(target[n].0@) is None,
    ensures
        0 <= i < only_on_target(target, source, rules).len(),
        only_on_target(target, source, rules)[i].path == target[n].0@,
    decreases target.len(),
{
    let before = only_on_target(target.drop_last(), source, rules);
    if n < target.len() - 1 {
        assert(target.drop_last()[n] == target[n]);
        lemma_deletion_is_planned(target.drop_last(), source, rules, n)
    } else {
        before.len() as int
    }
}

/// A mirror deletes a path exactly if the target has it, the source does not, and no rule excludes
/// it; any other synchronization deletes nothing.
pub proof fn mirrors_delete_what_the_source_lacks(
    preview: SyncPreview,
    source: Snapshot,
    target: Snapshot,
    rules: Seq<Seq<char>>,
    options: SyncOptions,
    path: Seq<char>,
)
    requires
        target.wf(),
        previews(preview, source, target, rules, options),
    ensures
        deletes(preview, path) <==> options.mode == SyncMode::Mirror && target.spec_get(path) is Some
            && source.spec_get(path) is None && !excluded(path, rules),
{
    let plan = planned_deletions(target.seq(), source, rules, options);
    if deletes(preview, path) {
        let i = choose|i: int|
            0 <= i < preview.deletions@.len() && (#[trigger] preview.deletions@[i]).relative_path@
                == path;
        assert(action_views(preview.deletions@)[i] == preview.deletions@[i]@);
        deletions_name_target_only_files(target, source, rules, options, i);
    }
    if options.mode == SyncMode::Mirror && target.spec_get(path) is Some && source.spec_get(path) is None
        && !excluded(path, rules) {
        let n = lemma_lookup_some(target.seq(), path);
        let i = lemma_deletion_is_planned(target.seq(), source, rules, n);
        assert(action_views(preview.deletions@)[i] == preview.deletions@[i]@);
        assert(preview.deletions@[i].relative_path@ == path);
    }
}

proof fn lemma_counts(
    source: Seq<(String, SyncFileMetadata)>,
    target: Snapshot,
    rules: Seq<Seq<char>>,
    options: SyncOptions,
)
    ensures
        planned_copies(source, target, rules, options).len() + unchanged_count(
            source,
            target,
            rules,
            options,
        ) == source.filter(|e: (String, SyncFileMetadata)| !excluded(e.0@, rules)).len(),
    decreases source.len(),
{
    reveal(Seq::filter);
    if source.len() > 0 {
        lemma_counts(source.drop_last(), target, rules, options);
    }
}

proof fn lemma_excluded_filter(entries: Seq<(String, SyncFileMetadata)>, rules: Seq<Seq<char>>)
    ensures
        excluded_count(entries, rules) == entries.filter(
            |e: (String, SyncFileMetadata)| excluded(e.0@, rules),
        ).len(),
    decreases entries.len(),
{
    reveal(Seq::filter);
    if entries.len() > 0 {
        lemma_excluded_filter(entries.drop_last(), rules);
    }
}

proof fn lemma_target_only_filter(
    target: Seq<(String, SyncFileMetadata)>,
    source: Snapshot,
    rules: Seq<Seq<char>>,
)
    ensures
        only_on_target(target, source, rules).len() == target.filter(
            |e: (String, SyncFileMetadata)|
                !excluded(e.0@, rules) && source.spec_get(e.0@) is None,
        ).len(),
    decreases target.len(),
{
    reveal(Seq::filter);
    if target.len() > 0 {
        lemma_target_only_filter(target.drop_last(), source, rules);
    }
}

/// The counts of a dry run add up: what is copied and what is unchanged are the files of the source
/// that no rule excludes, the excluded ones are those of both sides, and the files that only the
/// target has are counted in every mode.
pub proof fn the_counts_add_up(
    preview: SyncPreview,
    source: Snapshot,
    target: Snapshot,
    rules: Seq<Seq<char>>,
    options: SyncOptions,
)
    requires
        previews(preview, source, target, rules, options),
    ensures
        preview.actions@.len() + preview.unchanged == source.entries@.filter(
            |e: (String, SyncFileMetadata)| !excluded(e.0@, rules),
        ).len(),
        preview.excluded == source.entries@.filter(
            |e: (String, SyncFileMetadata)| excluded(e.0@, rules),
        ).len() + target.entries@.filter(
            |e: (String, SyncFileMetadata)| excluded(e.0@, rules),
        ).len(),
        preview.target_only == target.entries@.filter(
            |e: (String, SyncFileMetadata)|
                !excluded(e.0@, rules) && source.spec_get(e.0@) is None,
        ).len(),
{
    assert(action_views(preview.actions@).len() == preview.actions@.len());
    lemma_counts(source.seq(), target, rules, options);
    lemma_excluded_filter(source.seq(), rules);
    lemma_excluded_filter(target.seq(), rules);
    lemma_target_only_filter(target.seq(), source, rules);
}

proof fn lemma_copies_are_sorted(
    source: Seq<(String, SyncFileMetadata)>,
    target: Snapshot,
    rules: Seq<Seq<char>>,
    options: SyncOptions,
)
    requires
        strictly_sorted(keys_of(source)),
    ensures
        forall|i: int, j: int|
            0 <= i < j < planned_copies(source, target, rules, options).len() ==> lex_lt(
                (#[trigger] planned_copies(source, target, rules, options)[i]).path,
                (#[trigger] planned_copies(source, target, rules, options)[j]).path,
            ),
        forall|i: int|
            0 <= i < planned_copies(source, target, rules, options).len() ==> exists|n: int|
                0 <= n < source.len() && (#[trigger] source[n]).0@ == (
                #[trigger] planned_copies(source, target, rules, options)[i]).path,
    decreases source.len(),
{
    if source.len() > 0 {
        let front = source.drop_last();
        let keys = keys_of(source);
        let last = source.len() - 1;
        assert(keys_of(front) =~= keys.drop_last());
        lemma_copies_are_sorted(front, target, rules, options);
        let before = planned_copies(front, target, rules, options);
        let all = planned_copies(source, target, rules, options);
        assert forall|i: int| 0 <= i < all.len() implies exists|n: int|
            0 <= n < source.len() && (#[trigger] source[n]).0@ == (#[trigger] all[i]).path by {
            if i < before.len() {
                assert(all[i] == before[i]);
                let n = choose|n: int|
                    0 <= n < front.len() && (#[trigger] front[n]).0@ == before[i].path;
                assert(source[n] == front[n]);
            } else {
                assert(source[last].0@ == all[i].path);
            }
        }
        assert forall|i: int, j: int| 0 <= i < j < all.len() implies lex_lt(
            (#[trigger] all[i]).path,
            (#[trigger] all[j]).path,
        ) by {
            assert(all[i] == before[i]);
            if j == before.len() {
                let n = choose|n: int|
                    0 <= n < front.len() && (#[trigger] front[n]).0@ == before[i].path;
                assert(keys[n] == front[n].0@);
                assert(lex_lt(keys[n], keys[last]));
            } else {
                assert(all[j] == before[j]);
            }
        }
    }
}

/// The copies come in the order of their paths, each path once.
pub proof fn copies_come_by_path(
    preview: SyncPreview,
    source: Snapshot,
    target: Snapshot,
    rules: Seq<Seq<char>>,
    options: SyncOptions,
    i: int,
    j: int,
)
    requires
        source.wf(),
        previews(preview, source, target, rules, options),
        0 <= i < j < preview.actions@.len(),
    ensures
        lex_lt(preview.actions@[i].relative_path@, preview.actions@[j].relative_path@),
{
    lemma_copies_are_sorted(source.seq(), target, rules, options);
    let plan = planned_copies(source.seq(), target, rules, options);
    assert(action_views(preview.actions@)[i] == preview.actions@[i]@);
    assert(action_views(preview.actions@)[j] == preview.actions@[j]@);
    assert(lex_lt(plan[i].path, plan[j].path));
}

} // verus!
