//! Size and age of everything below a remote directory.

use vstd::prelude::*;

use crate::model::entry::{entry_views, EntryView, RemoteEntry};
use crate::net::error::NetError;
use crate::net::ftp::paths::{start_directory, traversal_root};
use crate::net::ftp::traverse::{
    directory_visits, files_ahead, lemma_listing_keeps_files, lemma_upcoming_pop, push_directory,
    upcoming, FileView, Visit, VisitView, World, MAX_RECURSION_DEPTH, MAX_REMOTE_DIRECTORIES,
    MAX_REMOTE_FILES,
};
use crate::net::safe::{has_low_byte, validate_ftp_path};

verus! {

#[derive(Debug, Clone, Copy, PartialEq, Eq, Structural)]
pub struct RemoteTreeStats {
    pub size: u64,
    pub newest_mtime: Option<i64>,
    pub files_scanned: usize,
    pub truncated: bool,
}

impl Default for RemoteTreeStats {
    fn default() -> (r: Self)
        ensures
            r == (RemoteTreeStats {
                size: 0,
                newest_mtime: None,
                files_scanned: 0,
                truncated: false,
            }),
    {
        RemoteTreeStats { size: 0, newest_mtime: None, files_scanned: 0, truncated: false }
    }
}

/// The later of two times, one of which may be unknown.
pub open spec fn later(newest: Option<i64>, mtime: Option<i64>) -> Option<i64> {
    match (newest, mtime) {
        (Some(a), Some(b)) => Some(
            if b > a {
                b
            } else {
                a
            },
        ),
        (Some(a), None) => Some(a),
        (None, b) => b,
    }
}

/// The sum of two sizes, which stops at the largest that can be told.
pub open spec fn capped_sum(a: u64, b: u64) -> u64 {
    if a + b > u64::MAX {
        u64::MAX
    } else {
        (a + b) as u64
    }
}

/// The statistics with one more file.
pub open spec fn counted(stats: RemoteTreeStats, file: FileView) -> RemoteTreeStats {
    RemoteTreeStats {
        size: capped_sum(stats.size, file.size),
        newest_mtime: later(stats.newest_mtime, file.mtime),
        files_scanned: (stats.files_scanned + 1) as usize,
        truncated: stats.truncated,
    }
}

/// The statistics with several more files.
pub open spec fn tally(stats: RemoteTreeStats, files: Seq<FileView>) -> RemoteTreeStats
    decreases files.len(),
{
    if files.len() == 0 {
        stats
    } else {
        tally(counted(stats, files[0]), files.skip(1))
    }
}

/// How many files are looked at: none asked for means as many as allowed.
pub open spec fn file_budget(max_files: nat) -> nat {
    if max_files == 0 || max_files > MAX_REMOTE_FILES {
        MAX_REMOTE_FILES as nat
    } else {
        max_files
    }
}

pub ghost enum StatsEnd {
    Done(RemoteTreeStats),
    Unsafe,
}

pub ghost struct StatsView {
    pub ahead: Seq<VisitView>,
    pub stats: RemoteTreeStats,
    pub budget: nat,
    pub directories: nat,
}

pub ghost enum StatsMove {
    End(StatsEnd),
    List(Seq<char>),
    Go(StatsView),
}

impl StatsView {
    pub open spec fn cut_short(self) -> StatsMove {
        StatsMove::End(StatsEnd::Done(RemoteTreeStats { truncated: true, ..self.stats }))
    }

    pub open spec fn next(self) -> StatsMove {
        if self.stats.truncated || self.ahead.len() == 0 {
            StatsMove::End(StatsEnd::Done(self.stats))
        } else {
            let rest = StatsView { ahead: self.ahead.skip(1), ..self };
            match self.ahead[0] {
                VisitView::Enter { path, depth } => if depth >= MAX_RECURSION_DEPTH
                    || self.directories >= MAX_REMOTE_DIRECTORIES {
                    self.cut_short()
                } else if has_low_byte(path) {
                    StatsMove::End(StatsEnd::Unsafe)
                } else {
                    StatsMove::List(path)
                },
                VisitView::Found { path, entry } => if entry.is_dir {
                    StatsMove::Go(rest)
                } else {
                    let stats = counted(
                        self.stats,
                        FileView { path, size: entry.size, mtime: entry.mtime },
                    );
                    StatsMove::Go(
                        StatsView {
                            stats: RemoteTreeStats {
                                truncated: stats.files_scanned >= self.budget,
                                ..stats
                            },
                            ..rest
                        },
                    )
                },
                VisitView::Leave { truncated, .. } => if truncated {
                    self.cut_short()
                } else {
                    StatsMove::Go(rest)
                },
            }
        }
    }

    /// The count after the directory that it asked for has been listed.
    pub open spec fn listed(self, entries: Seq<EntryView>, truncated: bool) -> StatsView {
        match self.ahead[0] {
            VisitView::Enter { path, depth } => StatsView {
                ahead: directory_visits(path, depth, entries, truncated) + self.ahead.skip(1),
                directories: self.directories + 1,
                ..self
            },
            _ => self,
        }
    }

    /// How the count ends on a server that lists its directories as `world` says.
    pub open spec fn outcome(self, world: World) -> StatsEnd
        decreases MAX_REMOTE_DIRECTORIES - self.directories, self.ahead.len(),
    {
        match self.next() {
            StatsMove::End(end) => end,
            StatsMove::List(path) => self.listed(world(path).0, world(path).1).outcome(world),
            StatsMove::Go(then) => then.outcome(world),
        }
    }
}

/// Statistics that are not marked as truncated cover every file below the directories ahead, each
/// one once. No more files are counted than asked for.
pub proof fn whole_statistics_cover_every_file(
    count: StatsView,
    world: World,
    stats: RemoteTreeStats,
)
    requires
        count.outcome(world) == StatsEnd::Done(stats),
        count.budget > 0,
        count.stats.files_scanned <= count.budget,
        !count.stats.truncated ==> count.stats.files_scanned < count.budget,
        count.budget <= usize::MAX,
    ensures
        stats.files_scanned <= count.budget,
        !stats.truncated ==> stats == tally(count.stats, files_ahead(world, count.ahead)),
    decreases MAX_REMOTE_DIRECTORIES - count.directories, count.ahead.len(),
{
    match count.next() {
        StatsMove::End(_) => {
            assert(files_ahead(world, Seq::empty()) =~= Seq::empty());
            if count.ahead.len() == 0 {
                assert(count.ahead =~= Seq::empty());
            }
        },
        StatsMove::List(path) => {
            let entries = world(path).0;
            let truncated = world(path).1;
            whole_statistics_cover_every_file(count.listed(entries, truncated), world, stats);
            let depth = count.ahead[0]->Enter_depth;
            lemma_listing_keeps_files(world, path, depth, truncated, count.ahead.skip(1));
        },
        StatsMove::Go(then) => {
            whole_statistics_cover_every_file(then, world, stats);
            let rest = files_ahead(world, count.ahead.skip(1));
            match count.ahead[0] {
                VisitView::Found { path, entry } => {
                    if entry.is_dir {
                        assert(files_ahead(world, count.ahead) =~= rest);
                    } else {
                        let all = files_ahead(world, count.ahead);
                        let file = FileView { path, size: entry.size, mtime: entry.mtime };
                        assert(all =~= seq![file] + rest);
                        assert(all[0] == file);
                        assert(all.skip(1) =~= rest);
                        if then.stats.truncated {
                            assert(then.outcome(world) == StatsEnd::Done(then.stats));
                        }
                    }
                },
                _ => {
                    assert(files_ahead(world, count.ahead) =~= rest);
                },
            }
        },
    }
}

/// What the count asks for.
#[derive(Debug, PartialEq, Eq)]
pub enum StatsStep {
    /// Go on with the next step.
    Continue,
    /// Change to this directory, list it and hand the entries to `listed`.
    List(String),
    /// The statistics are ready.
    Finished(RemoteTreeStats),
    Failed(NetError),
}

/// Statistics of a tree while it is traversed.
#[derive(Debug, PartialEq, Eq)]
pub struct TreeCount {
    pub ahead: Vec<Visit>,
    pub stats: RemoteTreeStats,
    pub budget: usize,
    pub directories: usize,
}

impl View for TreeCount {
    type V = StatsView;

    open spec fn view(&self) -> StatsView {
        StatsView {
            ahead: upcoming(self.ahead@),
            stats: self.stats,
            budget: self.budget as nat,
            directories: self.directories as nat,
        }
    }
}

impl TreeCount {
    /// The count has room for another file, unless it is over.
    pub open spec fn wf(&self) -> bool {
        &&& 0 < self.budget <= MAX_REMOTE_FILES
        &&& self.stats.files_scanned <= self.budget
        &&& !self.stats.truncated ==> self.stats.files_scanned < self.budget
    }

    /// Make the next visit.
    pub fn step(&mut self) -> (r: StatsStep)
        requires
            old(self).wf(),
        ensures
            match old(self)@.next() {
                StatsMove::End(StatsEnd::Done(stats)) => r == StatsStep::Finished(stats),
                StatsMove::End(StatsEnd::Unsafe) => r matches StatsStep::Failed(e) && (e
                    matches NetError::InvalidPath(m) && m@
                    == "remote path contains a control character (CRLF/NUL injection guard)"@),
                StatsMove::List(path) => (r matches StatsStep::List(p) && p@ == path)
                    && *final(self) == *old(self),
                StatsMove::Go(then) => r == StatsStep::Continue && final(self)@ == then,
            },
            final(self).wf(),
    {
        let n: usize = self.ahead.len();
        if self.stats.truncated || n == 0 {
            return StatsStep::Finished(self.stats);
        }
        proof {
            lemma_upcoming_pop(self.ahead@);
        }
        if let Visit::Enter { path, depth } = &self.ahead[n - 1] {
            if *depth >= MAX_RECURSION_DEPTH || self.directories >= MAX_REMOTE_DIRECTORIES {
                return StatsStep::Finished(RemoteTreeStats { truncated: true, ..self.stats });
            }
            return match validate_ftp_path(path.as_str()) {
                Err(e) => StatsStep::Failed(e),
                Ok(()) => StatsStep::List(path.clone()),
            };
        }
        match self.ahead.pop() {
            Some(Visit::Found { path: _, entry }) => {
                if !entry.is_dir {
                    self.count(entry.size, entry.mtime);
                }
                StatsStep::Continue
            },
            Some(Visit::Leave { path: _, truncated }) => if truncated {
                StatsStep::Finished(RemoteTreeStats { truncated: true, ..self.stats })
            } else {
                StatsStep::Continue
            },
            _ => StatsStep::Continue,
        }
    }

    /// Count one file.
    fn count(&mut self, size: u64, mtime: Option<i64>)
        requires
            old(self).wf(),
            !old(self).stats.truncated,
        ensures
            final(self).wf(),
            *final(self) == (TreeCount { stats: final(self).stats, ..*old(self) }),
            forall|path: Seq<char>|
                final(self).stats == (RemoteTreeStats {
                    truncated: old(self).stats.files_scanned + 1 >= old(self).budget,
                    ..#[trigger] counted(old(self).stats, FileView { path, size, mtime })
                }),
    {
        let stats: RemoteTreeStats = self.stats;
        let sum: u64 = if size > 0xffff_ffff_ffff_ffff - stats.size {
            0xffff_ffff_ffff_ffff
        } else {
            stats.size + size
        };
        let newest: Option<i64> = match (stats.newest_mtime, mtime) {
            (Some(a), Some(b)) => if b > a {
                Some(b)
            } else {
                Some(a)
            },
            (Some(a), None) => Some(a),
            (None, b) => b,
        };
        let scanned: usize = stats.files_scanned + 1;
        self.stats = RemoteTreeStats {
            size: sum,
            newest_mtime: newest,
            files_scanned: scanned,
            truncated: scanned >= self.budget,
        };
    }

    /// The directory that the last step asked for has been listed.
    pub fn listed(&mut self, entries: Vec<RemoteEntry>, truncated: bool)
        requires
            old(self).wf(),
            old(self)@.next() is List,
        ensures
            final(self).wf(),
            final(self)@ == old(self)@.listed(entry_views(entries@), truncated),
    {
        proof {
            lemma_upcoming_pop(self.ahead@);
        }
        match self.ahead.pop() {
            Some(Visit::Enter { path, depth }) => {
                push_directory(&mut self.ahead, path.as_str(), depth, entries, truncated);
                self.directories = self.directories + 1;
            },
            _ => {},
        }
    }
}

/// Start counting what lies below a directory, at most so many files of it.
pub fn tree_stats(root_dir: &str, max_files: usize) -> (r: TreeCount)
    ensures
        r.wf(),
        r@ == (StatsView {
            ahead: seq![VisitView::Enter { path: traversal_root(root_dir@), depth: 0 }],
            stats: RemoteTreeStats {
                size: 0,
                newest_mtime: None,
                files_scanned: 0,
                truncated: false,
            },
            budget: file_budget(max_files as nat),
            directories: 0,
        }),
{
    let mut ahead: Vec<Visit> = Vec::new();
    ahead.push(Visit::Enter { path: start_directory(root_dir), depth: 0 });
    let budget: usize = if max_files == 0 || max_files > MAX_REMOTE_FILES {
        MAX_REMOTE_FILES
    } else {
        max_files
    };
    let r = TreeCount { ahead, stats: RemoteTreeStats::default(), budget, directories: 0 };
    assert(r@.ahead =~= seq![VisitView::Enter { path: traversal_root(root_dir@), depth: 0 }]);
    r
}

} // verus!
