//! How much room the program takes on the disk.

use vstd::prelude::*;

use crate::model::transfer::{TransferDirection, TransferJob};
use crate::net::partial::{fragment_path, resumable_part_path};
use crate::net::safe::{same_path, PathParts, PathView};
use crate::numerals::{decimal, to_decimal};
use crate::pieces::{has_prefix, starts_with};
use crate::text::{chars_of, plus, string_of};

verus! {

// --- the size of a tree ------------------------------------------------------------------------

/// What a directory entry is.
#[derive(Debug, Clone, Copy, PartialEq, Eq, Structural)]
pub enum TreeEntry {
    /// It could not be read.
    Unreadable,
    /// A directory, under the number by which it is visited later.
    Directory(usize),
    File(u64),
    /// A symbolic link or something else that takes no room of its own.
    Other,
}

pub open spec fn saturated(a: u64, b: u64) -> u64 {
    if a + b > u64::MAX {
        u64::MAX
    } else {
        (a + b) as u64
    }
}

/// How far the measuring of a tree has come.
#[derive(Debug, PartialEq, Eq)]
pub struct TreeSize {
    pub bytes: u64,
    pub entries_seen: usize,
    pub truncated: bool,
    /// The directories that are still to be read; the last one comes next.
    pub pending: Vec<usize>,
    pub max_entries: usize,
}

pub ghost struct TreeView {
    pub bytes: u64,
    pub entries_seen: usize,
    pub truncated: bool,
    pub pending: Seq<usize>,
    pub max_entries: usize,
}

impl View for TreeSize {
    type V = TreeView;

    open spec fn view(&self) -> TreeView {
        TreeView {
            bytes: self.bytes,
            entries_seen: self.entries_seen,
            truncated: self.truncated,
            pending: self.pending@,
            max_entries: self.max_entries,
        }
    }
}

impl TreeView {
    /// The measuring after one more entry that was in bounds.
    pub open spec fn counted(self, entry: TreeEntry) -> TreeView {
        let seen = TreeView { entries_seen: (self.entries_seen + 1) as usize, ..self };
        match entry {
            TreeEntry::Unreadable => TreeView { truncated: true, ..seen },
            TreeEntry::Directory(number) => TreeView { pending: self.pending.push(number), ..seen },
            TreeEntry::File(len) => TreeView { bytes: saturated(self.bytes, len), ..seen },
            TreeEntry::Other => seen,
        }
    }

    /// The measuring after the entries of a directory; where the limit is reached everything stops.
    pub open spec fn after(self, entries: Seq<TreeEntry>) -> TreeView
        decreases entries.len(),
    {
        if entries.len() == 0 {
            self
        } else if self.entries_seen >= self.max_entries {
            TreeView { truncated: true, pending: Seq::empty(), ..self }
        } else {
            self.counted(entries[0]).after(entries.skip(1))
        }
    }
}

impl TreeSize {
    pub open spec fn wf(&self) -> bool {
        self.entries_seen <= self.max_entries
    }

    /// Start at a directory, under its number.
    pub fn new(root: usize, max_entries: usize) -> (r: TreeSize)
        ensures
            r.wf(),
            r@ == (TreeView {
                bytes: 0,
                entries_seen: 0,
                truncated: false,
                pending: seq![root],
                max_entries,
            }),
    {
        let mut pending: Vec<usize> = Vec::new();
        pending.push(root);
        assert(pending@ =~= seq![root]);
        TreeSize { bytes: 0, entries_seen: 0, truncated: false, pending, max_entries }
    }

    /// The directory to read next.
    pub fn next_directory(&mut self) -> (r: Option<usize>)
        requires
            old(self).wf(),
        ensures
            final(self).wf(),
            old(self)@.pending.len() == 0 ==> r is None && final(self)@ == old(self)@,
            old(self)@.pending.len() > 0 ==> r == Some(old(self)@.pending.last())
                && final(self)@ == (TreeView {
                pending: old(self)@.pending.drop_last(),
                ..old(self)@
            }),
    {
        self.pending.pop()
    }

    /// The directory could not be read.
    pub fn unreadable(&mut self)
        requires
            old(self).wf(),
        ensures
            final(self).wf(),
            final(self)@ == (TreeView { truncated: true, ..old(self)@ }),
    {
        self.truncated = true;
    }

    /// The entries of the directory.
    #[verifier::loop_isolation(false)]
    pub fn listed(&mut self, entries: &Vec<TreeEntry>)
        requires
            old(self).wf(),
        ensures
            final(self).wf(),
            final(self)@ == old(self)@.after(entries@),
    {
        let ghost start = self@;
        let mut i: usize = 0;
        assert(entries@.skip(0) =~= entries@);
        while i < entries.len()
            invariant
                i <= entries@.len(),
                self.wf(),
                self@.after(entries@.skip(i as int)) == start.after(entries@),
            decreases entries@.len() - i,
        {
            let ghost rest = entries@.skip(i as int);
            let ghost before = self@;
            assert(rest[0] == entries@[i as int]);
            assert(rest.skip(1) =~= entries@.skip(i + 1));
            if self.entries_seen >= self.max_entries {
                self.truncated = true;
                self.pending.clear();
                assert(self@ == (TreeView { truncated: true, pending: Seq::empty(), ..before }));
                return ;
            }
            self.entries_seen = self.entries_seen + 1;
            match entries[i] {
                TreeEntry::Unreadable => {
                    self.truncated = true;
                },
                TreeEntry::Directory(number) => {
                    self.pending.push(number);
                },
                TreeEntry::File(len) => {
                    self.bytes = self.bytes.saturating_add(len);
                },
                TreeEntry::Other => {},
            }
            assert(self@ == before.counted(entries@[i as int]));
            i += 1;
        }
    }
}

/// The sum of the files among the entries.
pub open spec fn file_bytes(entries: Seq<TreeEntry>) -> nat
    decreases entries.len(),
{
    if entries.len() == 0 {
        0
    } else {
        file_bytes(entries.skip(1)) + match entries[0] {
            TreeEntry::File(len) => len as nat,
            _ => 0nat,
        }
    }
}

/// Never more entries are looked at than allowed; and where the limit was not reached, the bytes are
/// those of all files, as far as the number can hold them.
pub proof fn measuring_is_bounded(tree: TreeView, entries: Seq<TreeEntry>)
    requires
        tree.entries_seen <= tree.max_entries,
    ensures
        ({
            let after = tree.after(entries);
            let total = tree.bytes + file_bytes(entries);
            &&& after.entries_seen <= after.max_entries == tree.max_entries
            &&& tree.entries_seen + entries.len() > tree.max_entries ==> after.truncated
                && after.pending.len() == 0
            &&& tree.entries_seen + entries.len() <= tree.max_entries ==> after.entries_seen
                == tree.entries_seen + entries.len() && after.bytes == if total > u64::MAX {
                u64::MAX as int
            } else {
                total as int
            }
            &&& tree.truncated ==> after.truncated
        }),
    decreases entries.len(),
{
    if entries.len() > 0 && tree.entries_seen < tree.max_entries {
        measuring_is_bounded(tree.counted(entries[0]), entries.skip(1));
    }
}

/// What the place where the measuring starts is.
#[derive(Debug, Clone, Copy, PartialEq, Eq, Structural)]
pub enum TreeRoot {
    /// There is nothing.
    Missing,
    File(u64),
    Directory,
    /// A symbolic link or something else.
    Other,
}

/// The size of what is no directory: bytes, entries and whether something was left out; for a
/// directory the tree has to be walked.
pub fn bounded_tree_size(root: TreeRoot) -> (r: Option<(u64, usize, bool)>)
    ensures
        r == (match root {
            TreeRoot::Missing => Some((0u64, 0usize, false)),
            TreeRoot::File(len) => Some((len, 1usize, false)),
            TreeRoot::Other => Some((0u64, 0usize, true)),
            TreeRoot::Directory => None,
        }),
{
    match root {
        TreeRoot::Missing => Some((0, 0, false)),
        TreeRoot::File(len) => Some((len, 1, false)),
        TreeRoot::Other => Some((0, 0, true)),
        TreeRoot::Directory => None,
    }
}

// --- statistics --------------------------------------------------------------------------------

/// The room that the program takes.
#[derive(Debug, Clone, Copy, PartialEq, Eq, Structural)]
pub struct StorageStats {
    pub config_bytes: u64,
    pub cache_bytes_approx: u64,
    pub cache_entries: usize,
    pub fragment_bytes: u64,
    pub fragment_count: usize,
    pub temporary_bytes: u64,
    pub temporary_directories: usize,
    /// Diagnostics go to the standard error stream; there is no log file on purpose.
    pub persistent_log_bytes: u64,
    pub scan_truncated: bool,
}

impl Default for StorageStats {
    fn default() -> (r: Self)
        ensures
            r == no_storage(),
    {
        StorageStats {
            config_bytes: 0,
            cache_bytes_approx: 0,
            cache_entries: 0,
            fragment_bytes: 0,
            fragment_count: 0,
            temporary_bytes: 0,
            temporary_directories: 0,
            persistent_log_bytes: 0,
            scan_truncated: false,
        }
    }
}

pub open spec fn no_storage() -> StorageStats {
    StorageStats {
        config_bytes: 0,
        cache_bytes_approx: 0,
        cache_entries: 0,
        fragment_bytes: 0,
        fragment_count: 0,
        temporary_bytes: 0,
        temporary_directories: 0,
        persistent_log_bytes: 0,
        scan_truncated: false,
    }
}

/// The sum of the numbers, or the largest number that can be held.
pub open spec fn saturated_sum(lens: Seq<u64>) -> u64
    decreases lens.len(),
{
    if lens.len() == 0 {
        0
    } else {
        saturated(saturated_sum(lens.drop_last()), lens.last())
    }
}

fn sum_up(lens: &Vec<u64>) -> (r: u64)
    ensures
        r == saturated_sum(lens@),
{
    let mut total: u64 = 0;
    let mut i: usize = 0;
    while i < lens.len()
        invariant
            i <= lens@.len(),
            total == saturated_sum(lens@.take(i as int)),
        decreases lens@.len() - i,
    {
        assert(lens@.take(i + 1).drop_last() =~= lens@.take(i as int));
        assert(lens@.take(i + 1).last() == lens@[i as int]);
        total = total.saturating_add(lens[i]);
        i += 1;
    }
    assert(lens@.take(lens@.len() as int) =~= lens@);
    total
}

/// What was measured of one temporary directory.
#[derive(Debug, Clone, Copy, PartialEq, Eq, Structural)]
pub struct DirectorySize {
    pub bytes: u64,
    pub truncated: bool,
}

/// What was measured.
#[derive(Debug, PartialEq, Eq)]
pub struct StorageFacts {
    /// The directory of the configuration, if there is one.
    pub config: Option<DirectorySize>,
    /// The number of entries and their bytes, for each cache that could be read.
    pub caches: Vec<(usize, u64)>,
    /// The lengths of the fragments that are regular files.
    pub fragments: Vec<u64>,
    pub temporary: Vec<DirectorySize>,
}

pub open spec fn sizes(dirs: Seq<DirectorySize>) -> Seq<u64> {
    dirs.map_values(|d: DirectorySize| d.bytes)
}

pub open spec fn any_truncated(dirs: Seq<DirectorySize>) -> bool {
    exists|i: int| 0 <= i < dirs.len() && (#[trigger] dirs[i]).truncated
}

pub open spec fn cache_totals(caches: Seq<(usize, u64)>) -> (usize, u64)
    decreases caches.len(),
{
    if caches.len() == 0 {
        (0, 0)
    } else {
        let before = cache_totals(caches.drop_last());
        (
            if before.0 + caches.last().0 > usize::MAX {
                usize::MAX
            } else {
                (before.0 + caches.last().0) as usize
            },
            saturated(before.1, caches.last().1),
        )
    }
}

pub open spec fn storage_of(facts: StorageFacts) -> StorageStats {
    StorageStats {
        config_bytes: match facts.config {
            Some(c) => c.bytes,
            None => 0,
        },
        cache_bytes_approx: cache_totals(facts.caches@).1,
        cache_entries: cache_totals(facts.caches@).0,
        fragment_bytes: saturated_sum(facts.fragments@),
        fragment_count: facts.fragments@.len() as usize,
        temporary_bytes: saturated_sum(sizes(facts.temporary@)),
        temporary_directories: facts.temporary@.len() as usize,
        persistent_log_bytes: 0,
        scan_truncated: (facts.config matches Some(c) && c.truncated) || any_truncated(
            facts.temporary@,
        ),
    }
}

fn add_caches(caches: &Vec<(usize, u64)>) -> (r: (usize, u64))
    ensures
        r == cache_totals(caches@),
{
    let mut entries: usize = 0;
    let mut bytes: u64 = 0;
    let mut i: usize = 0;
    while i < caches.len()
        invariant
            i <= caches@.len(),
            (entries, bytes) == cache_totals(caches@.take(i as int)),
        decreases caches@.len() - i,
    {
        assert(caches@.take(i + 1).drop_last() =~= caches@.take(i as int));
        assert(caches@.take(i + 1).last() == caches@[i as int]);
        entries = entries.saturating_add(caches[i].0);
        bytes = bytes.saturating_add(caches[i].1);
        i += 1;
    }
    assert(caches@.take(caches@.len() as int) =~= caches@);
    (entries, bytes)
}

/// Put the measurements together.
pub fn compute_storage_stats(facts: &StorageFacts) -> (r: StorageStats)
    ensures
        r == storage_of(*facts),
{
    let (config_bytes, config_truncated) = match facts.config {
        Some(c) => (c.bytes, c.truncated),
        None => (0, false),
    };
    let (cache_entries, cache_bytes_approx) = add_caches(&facts.caches);
    let mut lens: Vec<u64> = Vec::new();
    let mut truncated: bool = false;
    let mut i: usize = 0;
    while i < facts.temporary.len()
        invariant
            i <= facts.temporary@.len(),
            lens@ == sizes(facts.temporary@).take(i as int),
            truncated == any_truncated(facts.temporary@.take(i as int)),
        decreases facts.temporary@.len() - i,
    {
        let ghost before = facts.temporary@.take(i as int);
        let ghost after = facts.temporary@.take(i + 1);
        lens.push(facts.temporary[i].bytes);
        assert(lens@ =~= sizes(facts.temporary@).take(i + 1));
        if facts.temporary[i].truncated {
            assert(after[i as int].truncated);
            truncated = true;
        } else {
            assert(any_truncated(after) ==> any_truncated(before)) by {
                if any_truncated(after) {
                    let k = choose|k: int| 0 <= k < after.len() && (#[trigger] after[k]).truncated;
                    assert(before[k].truncated);
                }
            }
            assert(any_truncated(before) ==> any_truncated(after)) by {
                if any_truncated(before) {
                    let k = choose|k: int|
                        0 <= k < before.len() && (#[trigger] before[k]).truncated;
                    assert(after[k].truncated);
                }
            }
        }
        proof {
            if truncated && !facts.temporary@[i as int].truncated {
                assert(any_truncated(after));
            }
        }
        i += 1;
    }
    assert(sizes(facts.temporary@).take(facts.temporary@.len() as int) =~= sizes(facts.temporary@));
    assert(facts.temporary@.take(facts.temporary@.len() as int) =~= facts.temporary@);
    StorageStats {
        config_bytes,
        cache_bytes_approx,
        cache_entries,
        fragment_bytes: sum_up(&facts.fragments),
        fragment_count: facts.fragments.len(),
        temporary_bytes: sum_up(&lens),
        temporary_directories: facts.temporary.len(),
        persistent_log_bytes: 0,
        scan_truncated: config_truncated || truncated,
    }
}

/// A job leaves a fragment on this machine.
pub open spec fn leaves_fragment(job: TransferJob) -> bool {
    job.direction == TransferDirection::Download && job.resume_token != 0
}

/// A recovered job and the parts of the local path that it writes to.
#[derive(Debug)]
pub struct RecoveredJob {
    pub job: TransferJob,
    pub destination: PathParts,
}

/// Where the fragment of a job lies.
pub open spec fn fragment_of(recovered: RecoveredJob) -> PathView {
    fragment_path(recovered.destination@, recovered.job.resume_token)
}

/// The job is the first with its fragment.
pub open spec fn first_of_fragment(jobs: Seq<RecoveredJob>, i: int) -> bool {
    &&& leaves_fragment(jobs[i].job)
    &&& forall|j: int|
        0 <= j < i && leaves_fragment((#[trigger] jobs[j]).job) ==> fragment_of(jobs[j])
            != fragment_of(jobs[i])
}

pub open spec fn fragment_jobs(jobs: Seq<RecoveredJob>, upto: int) -> Seq<PathView>
    decreases upto,
{
    if upto <= 0 {
        Seq::empty()
    } else if first_of_fragment(jobs, upto - 1) {
        fragment_jobs(jobs, upto - 1).push(fragment_of(jobs[upto - 1]))
    } else {
        fragment_jobs(jobs, upto - 1)
    }
}

fn leaves_one(job: &TransferJob) -> (r: bool)
    ensures
        r == leaves_fragment(*job),
{
    job.direction == TransferDirection::Download && job.resume_token != 0
}

fn is_first_of_fragment(jobs: &Vec<RecoveredJob>, i: usize, path: &PathParts) -> (r: bool)
    requires
        i < jobs@.len(),
        path@ == fragment_of(jobs@[i as int]),
        leaves_fragment(jobs@[i as int].job),
    ensures
        r == first_of_fragment(jobs@, i as int),
{
    let mut j: usize = 0;
    while j < i
        invariant
            j <= i < jobs@.len(),
            path@ == fragment_of(jobs@[i as int]),
            leaves_fragment(jobs@[i as int].job),
            forall|k: int|
                0 <= k < j && leaves_fragment((#[trigger] jobs@[k]).job) ==> fragment_of(jobs@[k])
                    != fragment_of(jobs@[i as int]),
        decreases i - j,
    {
        if leaves_one(&jobs[j].job) {
            let other: PathParts = resumable_part_path(
                &jobs[j].destination,
                jobs[j].job.resume_token,
            );
            if same_path(&other, path) {
                assert(leaves_fragment(jobs@[j as int].job));
                return false;
            }
        }
        j += 1;
    }
    true
}

pub open spec fn path_views(paths: Seq<PathParts>) -> Seq<PathView> {
    paths.map_values(|p: PathParts| p@)
}

/// The fragments that are measured, each of them once.
pub fn fragment_paths(jobs: &Vec<RecoveredJob>) -> (r: Vec<PathParts>)
    ensures
        path_views(r@) == fragment_jobs(jobs@, jobs@.len() as int),
{
    let mut out: Vec<PathParts> = Vec::new();
    let mut i: usize = 0;
    assert(path_views(out@) =~= Seq::<PathView>::empty());
    while i < jobs.len()
        invariant
            i <= jobs@.len(),
            path_views(out@) == fragment_jobs(jobs@, i as int),
        decreases jobs@.len() - i,
    {
        if leaves_one(&jobs[i].job) {
            let path: PathParts = resumable_part_path(
                &jobs[i].destination,
                jobs[i].job.resume_token,
            );
            if is_first_of_fragment(jobs, i, &path) {
                let ghost before = out@;
                out.push(path);
                assert(path_views(out@) =~= path_views(before).push(path@));
            }
        }
        i += 1;
    }
    out
}

/// Whether an entry of the temporary directory was made by this program.
pub fn is_temporary_name(name: &str) -> (r: bool)
    ensures
        r == has_prefix(name@, "gmacftp-drag-"@),
{
    let chars: Vec<char> = chars_of(name);
    let prefix: Vec<char> = chars_of("gmacftp-drag-");
    starts_with(&chars, &prefix)
}

/// Sizes in words.
#[derive(Debug, PartialEq, Eq)]
pub struct SizeTexts {
    pub config: String,
    pub cache: String,
    pub fragments: String,
    pub temporary: String,
    pub logs: String,
}

pub open spec fn storage_text(stats: StorageStats, sizes: SizeTexts) -> Seq<char> {
    "Config: "@ + sizes.config@ + "  |  Metadata cache: ~"@ + sizes.cache@ + " ("@ + decimal(
        stats.cache_entries as nat,
    ) + " entries)\nResume fragments: "@ + sizes.fragments@ + " ("@ + decimal(
        stats.fragment_count as nat,
    ) + " files)  |  Temporary edits/drags: "@ + sizes.temporary@ + " ("@ + decimal(
        stats.temporary_directories as nat,
    ) + " dirs)\nPersistent logs: "@ + sizes.logs@ + if stats.scan_truncated {
        "  |  bounded scan truncated"@
    } else {
        ""@
    }
}

pub fn storage_stats_summary(stats: &StorageStats, sizes: &SizeTexts) -> (r: String)
    ensures
        r@ == storage_text(*stats, *sizes),
{
    let entries: String = string_of(&to_decimal(stats.cache_entries as u64));
    let files: String = string_of(&to_decimal(stats.fragment_count as u64));
    let dirs: String = string_of(&to_decimal(stats.temporary_directories as u64));
    let a: String = plus(
        plus(plus("Config: ".to_owned(), sizes.config.as_str()), "  |  Metadata cache: ~"),
        sizes.cache.as_str(),
    );
    let b: String = plus(plus(plus(a, " ("), entries.as_str()), " entries)\nResume fragments: ");
    let c: String = plus(plus(plus(b, sizes.fragments.as_str()), " ("), files.as_str());
    let d: String = plus(
        plus(plus(c, " files)  |  Temporary edits/drags: "), sizes.temporary.as_str()),
        " (",
    );
    let e: String = plus(
        plus(plus(d, dirs.as_str()), " dirs)\nPersistent logs: "),
        sizes.logs.as_str(),
    );
    plus(
        e,
        if stats.scan_truncated {
            "  |  bounded scan truncated"
        } else {
            ""
        },
    )
}

} // verus!
