//! Carrying out the deletions of a mirror.
//!
//! Deletions follow the copies. Each one is checked again right before it happens: a file that has
//! appeared at the source, or that has changed or vanished at the target, is left alone. One bad item
//! never blocks the others.

use vstd::prelude::*;

use crate::controllers::sync_plan::{deletion_views, DeletionView, FolderSyncDeletion};
use crate::controllers::sync_scan::{Inventory, LocalFacts};
use crate::controllers::sync_session::{deletions_to_run, selected_deletions};
use crate::folder_sync::SyncFileMetadata;
use crate::model::TransferDirection;
use crate::net::error::NetError;
use crate::net::safe::{same_path, PathParts};
use crate::numerals::{decimal, to_decimal};
use crate::text::{plus, same_text, string_of};

verus! {

/// A file is as it was when the deletion was decided.
pub open spec fn unchanged_since(expected: SyncFileMetadata, bytes: u64, modified: Option<i64>) -> bool {
    expected.bytes == bytes && expected.modified == modified
}

pub fn sync_metadata_matches(
    expected: &SyncFileMetadata,
    actual_bytes: u64,
    actual_modified: Option<i64>,
) -> (r: bool)
    ensures
        r == unchanged_since(*expected, actual_bytes, actual_modified),
{
    let same_time: bool = match (expected.modified, actual_modified) {
        (Some(a), Some(b)) => a == b,
        (None, None) => true,
        _ => false,
    };
    expected.bytes == actual_bytes && same_time
}

/// How many deletions were carried out, left out and failed, and the first thing that went wrong.
#[derive(Debug, PartialEq, Eq)]
pub struct MirrorDeletionReport {
    pub deleted: usize,
    pub skipped: usize,
    pub failed: usize,
    pub first_problem: Option<String>,
}

impl Default for MirrorDeletionReport {
    fn default() -> (r: Self)
        ensures
            r == (MirrorDeletionReport { deleted: 0, skipped: 0, failed: 0, first_problem: None }),
    {
        MirrorDeletionReport { deleted: 0, skipped: 0, failed: 0, first_problem: None }
    }
}

impl MirrorDeletionReport {
    pub open spec fn total(&self) -> int {
        self.deleted + self.skipped + self.failed
    }

    /// The first problem stays.
    pub open spec fn noted(first: Option<String>, problem: String) -> Option<String> {
        match first {
            Some(earlier) => Some(earlier),
            None => Some(problem),
        }
    }

    fn note(&mut self, problem: String)
        ensures
            *final(self) == (MirrorDeletionReport {
                first_problem: Self::noted(old(self).first_problem, problem),
                ..*old(self)
            }),
    {
        if self.first_problem.is_none() {
            self.first_problem = Some(problem);
        }
    }

    pub fn skip(&mut self, problem: String)
        requires
            old(self).skipped < usize::MAX,
        ensures
            *final(self) == (MirrorDeletionReport {
                skipped: (old(self).skipped + 1) as usize,
                first_problem: Self::noted(old(self).first_problem, problem),
                ..*old(self)
            }),
    {
        self.skipped = self.skipped + 1;
        self.note(problem);
    }

    pub fn fail(&mut self, problem: String)
        requires
            old(self).failed < usize::MAX,
        ensures
            *final(self) == (MirrorDeletionReport {
                failed: (old(self).failed + 1) as usize,
                first_problem: Self::noted(old(self).first_problem, problem),
                ..*old(self)
            }),
    {
        self.failed = self.failed + 1;
        self.note(problem);
    }

    pub fn skip_many(&mut self, count: usize, problem: String)
        ensures
            *final(self) == (MirrorDeletionReport {
                skipped: if old(self).skipped + count > usize::MAX {
                    usize::MAX
                } else {
                    (old(self).skipped + count) as usize
                },
                first_problem: Self::noted(old(self).first_problem, problem),
                ..*old(self)
            }),
    {
        self.skipped = if count > usize::MAX - self.skipped {
            usize::MAX
        } else {
            self.skipped + count
        };
        self.note(problem);
    }

    pub open spec fn status_text(&self) -> Seq<char> {
        "mirror complete: "@ + decimal(self.deleted as nat) + " deleted, "@ + decimal(
            self.skipped as nat,
        ) + " skipped by safety checks, "@ + decimal(self.failed as nat) + " failed"@
    }

    /// What the status line says at the end.
    pub fn status(&self) -> (r: String)
        ensures
            r@ == self.status_text(),
    {
        let deleted: String = string_of(&to_decimal(self.deleted as u64));
        let skipped: String = string_of(&to_decimal(self.skipped as u64));
        let failed: String = string_of(&to_decimal(self.failed as u64));
        let a: String = plus(
            plus("mirror complete: ".to_owned(), deleted.as_str()),
            " deleted, ",
        );
        let b: String = plus(plus(a, skipped.as_str()), " skipped by safety checks, ");
        plus(plus(b, failed.as_str()), " failed")
    }

    /// What the error line says at the end: nothing, or the first problem.
    pub fn error_text(&self) -> (r: String)
        ensures
            r@ == (match self.first_problem {
                Some(problem) => "Mirror safety: "@ + problem@,
                None => Seq::empty(),
            }),
    {
        match &self.first_problem {
            Some(problem) => plus("Mirror safety: ".to_owned(), problem.as_str()),
            None => String::new(),
        }
    }
}

/// Why none of the selected deletions is begun.
pub open spec fn begin_refusal(
    context_current: bool,
    has_credential: bool,
    snapshot: Option<Seq<char>>,
) -> Option<Seq<char>> {
    if !context_current {
        Some("pane or synchronized folder changed before deletion; nothing was removed"@)
    } else if !has_credential {
        Some("server credential became unavailable; nothing was removed"@)
    } else {
        match snapshot {
            Some(e) => Some(e + "; nothing was removed"@),
            None => None,
        }
    }
}

/// What the local side says of the source of a mirror upload.
#[derive(Debug, PartialEq, Eq)]
pub enum SourceState {
    /// The path of the source is not safe.
    Unsafe(String),
    Present,
    Absent,
    /// It could not be told.
    Unknown(String),
}

/// What the run asks for.
#[derive(Debug, PartialEq, Eq)]
pub enum MirrorStep {
    /// Go on with the next step.
    Continue,
    /// Look for the source of this file, and answer with `source_checked`.
    CheckSource(String),
    /// Delete this remote file, and answer with `remote_deleted`.
    DeleteRemote(String),
    /// Delete the local file of this deletion, and answer with `local_deleted`.
    DeleteLocal(usize),
    Finished,
}

/// What became of a local deletion.
#[derive(Debug, PartialEq, Eq)]
pub enum LocalRemoval {
    Deleted,
    /// The file has disappeared or changed.
    Left,
    Failed(String),
    /// The task that was to delete it has failed.
    TaskFailed(String),
}

/// The selected deletions of a mirror while they are carried out.
pub struct MirrorRun {
    pub direction: TransferDirection,
    pub deletions: Vec<FolderSyncDeletion>,
    /// The remote files as a fresh scan has found them.
    pub remote: Inventory,
    pub position: usize,
    pub report: MirrorDeletionReport,
}

impl MirrorRun {
    /// Every deletion up to the position is accounted for once, and all of them are selected.
    pub open spec fn wf(&self) -> bool {
        &&& self.remote.wf()
        &&& self.position <= self.deletions@.len()
        &&& self.report.total() == self.position
        &&& forall|i: int| 0 <= i < self.deletions@.len() ==> (#[trigger] self.deletions@[i]).included
    }

    pub open spec fn current(&self) -> FolderSyncDeletion {
        self.deletions@[self.position as int]
    }

    /// The run after the current deletion was skipped.
    pub open spec fn skipped_with(&self, then: MirrorRun, suffix: Seq<char>) -> bool {
        &&& then.report.skipped == self.report.skipped + 1
        &&& then.report.deleted == self.report.deleted
        &&& then.report.failed == self.report.failed
        &&& self.advanced(then)
        &&& noted_text(self.report, then.report, self.current().label@ + suffix)
    }

    /// Everything but the position and the report stays.
    pub open spec fn advanced(&self, then: MirrorRun) -> bool {
        &&& then.direction == self.direction
        &&& then.deletions == self.deletions
        &&& then.remote == self.remote
        &&& then.position == self.position + 1
    }

    /// The target of the current deletion is, on the server, exactly what was shown.
    pub open spec fn remote_target_unchanged(&self) -> bool {
        let label = self.current().label@;
        &&& self.remote.metadata.spec_get(label) matches Some(now)
        &&& self.remote.paths.spec_get(label) matches Some(path)
        &&& path@ == self.current().remote_path@
        &&& unchanged_since(self.current().metadata, now.bytes, now.modified)
    }

    /// Start a run. What is not selected is left out of it.
    pub fn new(direction: TransferDirection, deletions: Vec<FolderSyncDeletion>, remote: Inventory) -> (r:
        Self)
        requires
            remote.wf(),
        ensures
            r.wf(),
            r.direction == direction,
            deletion_views(r.deletions@) == selected_deletions(deletion_views(deletions@)),
            r.remote == remote,
            r.position == 0,
            r.report == (MirrorDeletionReport {
                deleted: 0,
                skipped: 0,
                failed: 0,
                first_problem: None,
            }),
    {
        let selected: Vec<FolderSyncDeletion> = deletions_to_run(&deletions);
        proof {
            lemma_selected_are_included(deletion_views(deletions@));
            assert forall|i: int| 0 <= i < selected@.len() implies (#[trigger] selected@[i]).included by {
                assert(deletion_views(selected@)[i] == selected@[i]@);
            }
        }
        MirrorRun {
            direction,
            deletions: selected,
            remote,
            position: 0,
            report: MirrorDeletionReport::default(),
        }
    }

    fn skip_current(&mut self, suffix: &str)
        requires
            old(self).wf(),
            old(self).position < old(self).deletions@.len(),
        ensures
            final(self).wf(),
            old(self).skipped_with(*final(self), suffix@),
    {
        let n: usize = self.deletions.len();
        assert(n == self.deletions@.len());
        let text: String = plus(self.deletions[self.position].label.clone(), suffix);
        self.report.skip(text);
        self.position = self.position + 1;
    }

    /// The next deletion. If the panes no longer show the folders, the rest is left alone.
    pub fn step(&mut self, context_current: bool) -> (r: MirrorStep)
        requires
            old(self).wf(),
        ensures
            final(self).wf(),
            old(self).position == old(self).deletions@.len() ==> r == MirrorStep::Finished
                && *final(self) == *old(self),
            old(self).position < old(self).deletions@.len() && !context_current ==> {
                &&& r == MirrorStep::Finished
                &&& final(self).position == final(self).deletions@.len()
                &&& final(self).deletions == old(self).deletions
                &&& final(self).report.skipped == old(self).report.skipped + (old(
                    self,
                ).deletions@.len() - old(self).position)
                &&& final(self).report.deleted == old(self).report.deleted
                &&& final(self).report.failed == old(self).report.failed
                &&& noted_text(
                    old(self).report,
                    final(self).report,
                    "pane or synchronized folder changed; remaining deletions were cancelled"@,
                )
            },
            old(self).position < old(self).deletions@.len() && context_current ==> (
            match old(self).direction {
                TransferDirection::Upload => (r matches MirrorStep::CheckSource(label) && label@
                    == old(self).current().label@) && *final(self) == *old(self),
                TransferDirection::Download => if old(self).remote.metadata.spec_get(
                    old(self).current().label@,
                ) is Some {
                    r == MirrorStep::Continue && old(self).skipped_with(
                        *final(self),
                        ": source appeared after preview"@,
                    )
                } else {
                    r == MirrorStep::DeleteLocal(old(self).position) && *final(self) == *old(self)
                },
            }),
    {
        let n: usize = self.deletions.len();
        if self.position == n {
            return MirrorStep::Finished;
        }
        if !context_current {
            let text: String =
                "pane or synchronized folder changed; remaining deletions were cancelled".to_owned();
            self.report.skip_many(n - self.position, text);
            self.position = n;
            return MirrorStep::Finished;
        }
        match self.direction {
            TransferDirection::Upload => MirrorStep::CheckSource(
                self.deletions[self.position].label.clone(),
            ),
            TransferDirection::Download => {
                if self.remote.metadata.contains_key(
                    self.deletions[self.position].label.as_str(),
                ) {
                    self.skip_current(": source appeared after preview");
                    MirrorStep::Continue
                } else {
                    MirrorStep::DeleteLocal(self.position)
                }
            },
        }
    }

    /// The source of the current deletion has been looked for. Only if it is certainly absent, and
    /// the target is what was shown, is the target deleted.
    pub fn source_checked(&mut self, source: SourceState) -> (r: MirrorStep)
        requires
            old(self).wf(),
            old(self).position < old(self).deletions@.len(),
        ensures
            final(self).wf(),
            r matches MirrorStep::DeleteRemote(_) <==> source is Absent && old(
                self,
            ).remote_target_unchanged(),
            r matches MirrorStep::DeleteRemote(path) ==> path@ == old(self).current().remote_path@
                && *final(self) == *old(self),
            !(r is DeleteRemote) ==> r == MirrorStep::Continue && old(self).skipped_with(
                *final(self),
                match source {
                    SourceState::Unsafe(e) => ": unsafe source path: "@ + e@,
                    SourceState::Present => ": source appeared after preview"@,
                    SourceState::Unknown(e) => ": could not confirm source absence: "@ + e@,
                    SourceState::Absent => if old(self).remote.metadata.spec_get(
                        old(self).current().label@,
                    ) is None {
                        ": target disappeared"@
                    } else {
                        ": target changed after preview"@
                    },
                },
            ),
    {
        match source {
            SourceState::Unsafe(e) => {
                let suffix: String = plus(": unsafe source path: ".to_owned(), e.as_str());
                self.skip_current(suffix.as_str());
                return MirrorStep::Continue;
            },
            SourceState::Present => {
                self.skip_current(": source appeared after preview");
                return MirrorStep::Continue;
            },
            SourceState::Unknown(e) => {
                let suffix: String = plus(
                    ": could not confirm source absence: ".to_owned(),
                    e.as_str(),
                );
                self.skip_current(suffix.as_str());
                return MirrorStep::Continue;
            },
            SourceState::Absent => {},
        }
        let deletion: &FolderSyncDeletion = &self.deletions[self.position];
        let label: &str = deletion.label.as_str();
        let now: Option<SyncFileMetadata> = match self.remote.metadata.get(label) {
            Some(now) => Some(*now),
            None => None,
        };
        let now: SyncFileMetadata = match now {
            None => {
                self.skip_current(": target disappeared");
                return MirrorStep::Continue;
            },
            Some(now) => now,
        };
        let same_place: bool = match self.remote.paths.get(label) {
            Some(path) => same_text(path.as_str(), deletion.remote_path.as_str()),
            None => false,
        };
        if !same_place || !sync_metadata_matches(&deletion.metadata, now.bytes, now.modified) {
            self.skip_current(": target changed after preview");
            return MirrorStep::Continue;
        }
        MirrorStep::DeleteRemote(deletion.remote_path.clone())
    }

    /// The server has answered to the deletion.
    pub fn remote_deleted(&mut self, outcome: Result<(), NetError>)
        requires
            old(self).wf(),
            old(self).position < old(self).deletions@.len(),
        ensures
            final(self).wf(),
            old(self).advanced(*final(self)),
            final(self).report.skipped == old(self).report.skipped,
            match outcome {
                Ok(_) => final(self).report.deleted == old(self).report.deleted + 1
                    && final(self).report.failed == old(self).report.failed
                    && final(self).report.first_problem == old(self).report.first_problem,
                Err(e) => final(self).report.deleted == old(self).report.deleted
                    && final(self).report.failed == old(self).report.failed + 1 && noted_text(
                    old(self).report,
                    final(self).report,
                    old(self).current().label@ + ": "@ + e.text(),
                ),
            },
    {
        let n: usize = self.deletions.len();
        assert(n == self.deletions@.len());
        match outcome {
            Ok(()) => {
                self.report.deleted = self.report.deleted + 1;
            },
            Err(e) => {
                let text: String = plus(
                    plus(self.deletions[self.position].label.clone(), ": "),
                    e.message().as_str(),
                );
                self.report.fail(text);
            },
        }
        self.position = self.position + 1;
    }

    /// The local file of the current deletion has been dealt with.
    pub fn local_deleted(&mut self, outcome: LocalRemoval)
        requires
            old(self).wf(),
            old(self).position < old(self).deletions@.len(),
        ensures
            final(self).wf(),
            old(self).advanced(*final(self)),
            match outcome {
                LocalRemoval::Deleted => final(self).report == (MirrorDeletionReport {
                    deleted: (old(self).report.deleted + 1) as usize,
                    ..old(self).report
                }),
                LocalRemoval::Left => old(self).skipped_with(
                    *final(self),
                    ": target disappeared or changed after preview"@,
                ),
                LocalRemoval::Failed(e) => final(self).report == (MirrorDeletionReport {
                    failed: (old(self).report.failed + 1) as usize,
                    first_problem: MirrorDeletionReport::noted(old(self).report.first_problem, e),
                    ..old(self).report
                }),
                LocalRemoval::TaskFailed(e) => final(self).report.failed == old(
                    self,
                ).report.failed + 1 && final(self).report.deleted == old(self).report.deleted
                    && final(self).report.skipped == old(self).report.skipped && noted_text(
                    old(self).report,
                    final(self).report,
                    old(self).current().label@ + ": local deletion task failed: "@ + e@,
                ),
            },
    {
        let n: usize = self.deletions.len();
        assert(n == self.deletions@.len());
        match outcome {
            LocalRemoval::Deleted => {
                self.report.deleted = self.report.deleted + 1;
            },
            LocalRemoval::Left => {
                self.skip_current(": target disappeared or changed after preview");
                return ;
            },
            LocalRemoval::Failed(e) => {
                self.report.fail(e);
            },
            LocalRemoval::TaskFailed(e) => {
                let text: String = plus(
                    plus(
                        self.deletions[self.position].label.clone(),
                        ": local deletion task failed: ",
                    ),
                    e.as_str(),
                );
                self.report.fail(text);
            },
        }
        self.position = self.position + 1;
    }
}

/// The first problem is the text, unless there was one before.
pub open spec fn noted_text(
    before: MirrorDeletionReport,
    after: MirrorDeletionReport,
    text: Seq<char>,
) -> bool {
    match before.first_problem {
        Some(problem) => after.first_problem == Some(problem),
        None => after.first_problem matches Some(problem) && problem@ == text,
    }
}

/// The first checks of a run, and the report if they fail. Only the selected deletions count.
pub fn run_mirror_deletions(
    deletions: &Vec<FolderSyncDeletion>,
    context_current: bool,
    has_credential: bool,
    snapshot_error: Option<String>,
) -> (r: Option<MirrorDeletionReport>)
    ensures
        r is None <==> selected_deletions(deletion_views(deletions@)).len() > 0 && begin_refusal(
            context_current,
            has_credential,
            match snapshot_error {
                Some(e) => Some(e@),
                None => None,
            },
        ) is None,
        r matches Some(report) ==> {
            &&& report.deleted == 0
            &&& report.failed == 0
            &&& report.skipped == selected_deletions(deletion_views(deletions@)).len()
            &&& report.skipped == 0 ==> report.first_problem is None
            &&& report.skipped > 0 ==> (report.first_problem matches Some(problem)
                && begin_refusal(
                context_current,
                has_credential,
                match snapshot_error {
                    Some(e) => Some(e@),
                    None => None,
                },
            ) == Some(problem@))
        },
{
    let mut report: MirrorDeletionReport = MirrorDeletionReport::default();
    let selected: Vec<FolderSyncDeletion> = deletions_to_run(deletions);
    let n: usize = selected.len();
    assert(deletion_views(selected@).len() == n);
    if n == 0 {
        return Some(report);
    }
    if !context_current {
        report.skip_many(
            n,
            "pane or synchronized folder changed before deletion; nothing was removed".to_owned(),
        );
        return Some(report);
    }
    if !has_credential {
        report.skip_many(
            n,
            "server credential became unavailable; nothing was removed".to_owned(),
        );
        return Some(report);
    }
    match snapshot_error {
        Some(e) => {
            report.skip_many(n, plus(e, "; nothing was removed"));
            Some(report)
        },
        None => None,
    }
}

proof fn lemma_selected_are_included(deletions: Seq<DeletionView>)
    ensures
        forall|i: int|
            0 <= i < selected_deletions(deletions).len() ==> (#[trigger] selected_deletions(
                deletions,
            )[i]).included,
    decreases deletions.len(),
{
    if deletions.len() > 0 {
        lemma_selected_are_included(deletions.drop_last());
    }
}

/// When a run is over, every selected deletion was carried out, skipped or has failed, and only one
/// of the three.
pub proof fn every_deletion_is_accounted_for(run: MirrorRun)
    requires
        run.wf(),
        run.position == run.deletions@.len(),
    ensures
        run.report.deleted + run.report.skipped + run.report.failed == run.deletions@.len(),
{
}

/// What the filesystem says of a local target.
#[derive(Debug, PartialEq, Eq)]
pub enum LocalTarget {
    Missing,
    Unreadable(String),
    Present(LocalFacts),
}

/// Whether the local target of a deletion may be moved to the Trash. `expected` is where the label
/// leads, `stored` the path that was shown, `shown` its text, and `within` says whether it lies in the
/// local folder.
pub fn delete_local_mirror_target(
    deletion: &FolderSyncDeletion,
    expected: &Result<PathParts, String>,
    stored: &PathParts,
    shown: &str,
    within: &Result<(), NetError>,
    current: &LocalTarget,
) -> (r: Result<bool, String>)
    ensures
        ({
            let label = deletion.label@;
            match expected {
                Err(e) => r matches Err(text) && text@ == label + ": unsafe local path: "@ + e@,
                Ok(path) => if stored@ != path@ {
                    r matches Err(text) && text@ == label + ": local target path changed"@
                } else {
                    match within {
                        Err(e) => r matches Err(text) && text@ == label
                            + ": unsafe local target: "@ + e.text(),
                        Ok(_) => match current {
                            LocalTarget::Missing => r == Ok::<bool, String>(false),
                            LocalTarget::Unreadable(e) => r matches Err(text) && text@
                                == "cannot inspect "@ + shown@ + ": "@ + e@,
                            LocalTarget::Present(facts) => if !facts.regular {
                                r matches Err(text) && text@ == shown@
                                    + " is no longer a regular file"@
                            } else {
                                r == Ok::<bool, String>(
                                    unchanged_since(
                                        deletion.metadata,
                                        facts.bytes,
                                        facts.modified,
                                    ),
                                )
                            },
                        },
                    }
                },
            }
        }),
{
    match expected {
        Err(e) => {
            return Err(
                plus(plus(deletion.label.clone(), ": unsafe local path: "), e.as_str()),
            );
        },
        Ok(path) => {
            if !same_path(stored, path) {
                return Err(plus(deletion.label.clone(), ": local target path changed"));
            }
        },
    }
    if let Err(e) = within {
        return Err(
            plus(
                plus(deletion.label.clone(), ": unsafe local target: "),
                e.message().as_str(),
            ),
        );
    }
    match current {
        LocalTarget::Missing => Ok(false),
        LocalTarget::Unreadable(e) => Err(
            plus(plus(plus("cannot inspect ".to_owned(), shown), ": "), e.as_str()),
        ),
        LocalTarget::Present(facts) => {
            if !facts.regular {
                return Err(plus(shown.to_owned(), " is no longer a regular file"));
            }
            Ok(sync_metadata_matches(&deletion.metadata, facts.bytes, facts.modified))
        },
    }
}

} // verus!
