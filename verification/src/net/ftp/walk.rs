//! Collecting every file below a remote directory.

use vstd::prelude::*;

use crate::model::entry::{entry_views, EntryView, RemoteEntry};
use crate::net::error::NetError;
use crate::net::ftp::paths::{start_directory, traversal_root};
use crate::net::ftp::transport::ftp_error;
use crate::net::ftp::traverse::{
    directory_visits, files_ahead, lemma_listing_keeps_files, lemma_upcoming_pop, push_directory,
    upcoming, FileView, Visit, VisitView, World, MAX_RECURSION_DEPTH, MAX_REMOTE_DIRECTORIES,
    MAX_REMOTE_FILES,
};
use crate::net::safe::{has_low_byte, validate_ftp_path};
use crate::net::transfer_rules::RemoteFileMetadata;

verus! {

impl View for RemoteFileMetadata {
    type V = FileView;

    open spec fn view(&self) -> FileView {
        FileView { path: self.path@, size: self.size, mtime: self.mtime }
    }
}

pub open spec fn file_views(files: Seq<RemoteFileMetadata>) -> Seq<FileView> {
    files.map_values(|f: RemoteFileMetadata| f@)
}

/// How a walk ends.
pub ghost enum WalkEnd {
    /// Every file was found.
    Complete(Seq<FileView>),
    /// A limit was reached, or a listing was cut off.
    Limited,
    /// A path cannot be sent to the server.
    Unsafe,
}

/// A walk between two visits.
pub ghost struct WalkView {
    pub ahead: Seq<VisitView>,
    pub files: Seq<FileView>,
    pub directories: nat,
}

pub ghost enum WalkMove {
    End(WalkEnd),
    List(Seq<char>),
    Go(WalkView),
}

impl WalkView {
    /// The next move of a walk.
    pub open spec fn next(self) -> WalkMove {
        if self.ahead.len() == 0 {
            WalkMove::End(WalkEnd::Complete(self.files))
        } else {
            let rest = WalkView { ahead: self.ahead.skip(1), ..self };
            match self.ahead[0] {
                VisitView::Enter { path, depth } => if depth >= MAX_RECURSION_DEPTH
                    || self.directories >= MAX_REMOTE_DIRECTORIES || self.files.len()
                    >= MAX_REMOTE_FILES {
                    WalkMove::End(WalkEnd::Limited)
                } else if has_low_byte(path) {
                    WalkMove::End(WalkEnd::Unsafe)
                } else {
                    WalkMove::List(path)
                },
                VisitView::Found { path, entry } => if self.files.len() >= MAX_REMOTE_FILES {
                    WalkMove::End(WalkEnd::Limited)
                } else if entry.is_dir {
                    WalkMove::Go(rest)
                } else {
                    WalkMove::Go(
                        WalkView {
                            files: self.files.push(
                                FileView { path, size: entry.size, mtime: entry.mtime },
                            ),
                            ..rest
                        },
                    )
                },
                VisitView::Leave { truncated, .. } => if truncated {
                    WalkMove::End(WalkEnd::Limited)
                } else {
                    WalkMove::Go(rest)
                },
            }
        }
    }

    /// The walk after the directory that it asked for has been listed.
    pub open spec fn listed(self, entries: Seq<EntryView>, truncated: bool) -> WalkView {
        match self.ahead[0] {
            VisitView::Enter { path, depth } => WalkView {
                ahead: directory_visits(path, depth, entries, truncated) + self.ahead.skip(1),
                files: self.files,
                directories: self.directories + 1,
            },
            _ => self,
        }
    }

    /// How the walk ends on a server that lists its directories as `world` says.
    pub open spec fn outcome(self, world: World) -> WalkEnd
        decreases MAX_REMOTE_DIRECTORIES - self.directories, self.ahead.len(),
    {
        match self.next() {
            WalkMove::End(end) => end,
            WalkMove::List(path) => self.listed(world(path).0, world(path).1).outcome(world),
            WalkMove::Go(then) => then.outcome(world),
        }
    }
}

/// A complete walk has found exactly the files below the directories ahead, in the order in which
/// the directories list them. A walk that could not see everything never counts as complete.
pub proof fn complete_walks_find_every_file(walk: WalkView, world: World, files: Seq<FileView>)
    requires
        walk.outcome(world) == WalkEnd::Complete(files),
    ensures
        files == walk.files + files_ahead(world, walk.ahead),
    decreases MAX_REMOTE_DIRECTORIES - walk.directories, walk.ahead.len(),
{
    match walk.next() {
        WalkMove::End(_) => {
            assert(files_ahead(world, walk.ahead) =~= Seq::empty());
            assert(files =~= walk.files + files_ahead(world, walk.ahead));
        },
        WalkMove::List(path) => {
            let entries = world(path).0;
            let truncated = world(path).1;
            complete_walks_find_every_file(walk.listed(entries, truncated), world, files);
            let depth = walk.ahead[0]->Enter_depth;
            lemma_listing_keeps_files(world, path, depth, truncated, walk.ahead.skip(1));
        },
        WalkMove::Go(then) => {
            complete_walks_find_every_file(then, world, files);
            assert(walk.files + files_ahead(world, walk.ahead) =~= then.files + files_ahead(
                world,
                then.ahead,
            ));
        },
    }
}

/// No walk collects more files than the limit.
pub proof fn walks_are_bounded(walk: WalkView, world: World, files: Seq<FileView>)
    requires
        walk.files.len() <= MAX_REMOTE_FILES,
        walk.outcome(world) == WalkEnd::Complete(files),
    ensures
        files.len() <= MAX_REMOTE_FILES,
    decreases MAX_REMOTE_DIRECTORIES - walk.directories, walk.ahead.len(),
{
    match walk.next() {
        WalkMove::End(_) => {},
        WalkMove::List(path) => {
            walks_are_bounded(walk.listed(world(path).0, world(path).1), world, files);
        },
        WalkMove::Go(then) => {
            walks_are_bounded(then, world, files);
        },
    }
}

/// What a walk asks for.
#[derive(Debug, PartialEq, Eq)]
pub enum WalkStep {
    /// Go on with the next step.
    Continue,
    /// Change to this directory, list it and hand the entries to `listed`.
    List(String),
    /// The walk is over. The flag says that something was left out.
    Finished(bool),
    /// The walk cannot go on.
    Failed(NetError),
}

/// A walk over a remote tree.
#[derive(Debug, PartialEq, Eq)]
pub struct TreeWalk {
    pub ahead: Vec<Visit>,
    pub files: Vec<RemoteFileMetadata>,
    pub directories: usize,
}

impl View for TreeWalk {
    type V = WalkView;

    open spec fn view(&self) -> WalkView {
        WalkView {
            ahead: upcoming(self.ahead@),
            files: file_views(self.files@),
            directories: self.directories as nat,
        }
    }
}

impl TreeWalk {
    /// Make the next visit.
    pub fn step(&mut self) -> (r: WalkStep)
        ensures
            match old(self)@.next() {
                WalkMove::End(WalkEnd::Complete(_)) => r == WalkStep::Finished(false)
                    && *final(self) == *old(self),
                WalkMove::End(WalkEnd::Limited) => r == WalkStep::Finished(true),
                WalkMove::End(WalkEnd::Unsafe) => r matches WalkStep::Failed(e) && (e
                    matches NetError::InvalidPath(m) && m@
                    == "remote path contains a control character (CRLF/NUL injection guard)"@),
                WalkMove::List(path) => (r matches WalkStep::List(p) && p@ == path)
                    && *final(self) == *old(self),
                WalkMove::Go(then) => r == WalkStep::Continue && final(self)@ == then,
            },
    {
        let n: usize = self.ahead.len();
        if n == 0 {
            return WalkStep::Finished(false);
        }
        proof {
            lemma_upcoming_pop(self.ahead@);
        }
        if let Visit::Enter { path, depth } = &self.ahead[n - 1] {
            if *depth >= MAX_RECURSION_DEPTH || self.directories >= MAX_REMOTE_DIRECTORIES
                || self.files.len() >= MAX_REMOTE_FILES {
                return WalkStep::Finished(true);
            }
            return match validate_ftp_path(path.as_str()) {
                Err(e) => WalkStep::Failed(e),
                Ok(()) => WalkStep::List(path.clone()),
            };
        }
        match self.ahead.pop() {
            Some(Visit::Found { path, entry }) => {
                if self.files.len() >= MAX_REMOTE_FILES {
                    return WalkStep::Finished(true);
                }
                if !entry.is_dir {
                    let ghost before = self.files@;
                    self.files.push(
                        RemoteFileMetadata { path, size: entry.size, mtime: entry.mtime },
                    );
                    assert(file_views(self.files@) =~= file_views(before).push(
                        FileView { path: path@, size: entry.size, mtime: entry.mtime },
                    ));
                }
                WalkStep::Continue
            },
            Some(Visit::Leave { truncated, .. }) => if truncated {
                WalkStep::Finished(true)
            } else {
                WalkStep::Continue
            },
            _ => WalkStep::Continue,
        }
    }

    /// The directory that the last step asked for has been listed.
    pub fn listed(&mut self, entries: Vec<RemoteEntry>, truncated: bool)
        requires
            old(self)@.next() is List,
        ensures
            final(self)@ == old(self)@.listed(entry_views(entries@), truncated),
    {
        proof {
            lemma_upcoming_pop(self.ahead@);
        }
        match self.ahead.pop() {
            Some(Visit::Enter { path, depth }) => {
                push_directory(&mut self.ahead, path.as_str(), depth, entries, truncated);
                self.directories = self.directories + 1;
            },
            _ => {},
        }
    }

    /// The files of a finished walk. One that left something out is refused: a copy made from it
    /// would be incomplete.
    pub fn finish(self, truncated: bool) -> (r: Result<Vec<RemoteFileMetadata>, NetError>)
        ensures
            !truncated ==> r == Ok::<Vec<RemoteFileMetadata>, NetError>(self.files),
            truncated ==> (r matches Err(e) && ftp_error(
                e,
                "remote folder walk exceeded a safety limit; refusing an incomplete copy"@,
            )),
    {
        if truncated {
            Err(
                NetError::Ftp(
                    "remote folder walk exceeded a safety limit; refusing an incomplete copy".to_owned(),
                ),
            )
        } else {
            Ok(self.files)
        }
    }
}

/// Start collecting every file below a directory.
pub fn walk_metadata(root_dir: &str) -> (r: TreeWalk)
    ensures
        r@ == (WalkView {
            ahead: seq![VisitView::Enter { path: traversal_root(root_dir@), depth: 0 }],
            files: Seq::empty(),
            directories: 0,
        }),
{
    let start = Visit::Enter { path: start_directory(root_dir), depth: 0 };
    let mut ahead: Vec<Visit> = Vec::new();
    ahead.push(start);
    let r = TreeWalk { ahead, files: Vec::new(), directories: 0 };
    assert(r@.ahead =~= seq![VisitView::Enter { path: traversal_root(root_dir@), depth: 0 }]);
    assert(r@.files =~= Seq::empty());
    r
}

/// The files of a walk with their sizes alone.
pub fn walk(files: Vec<RemoteFileMetadata>) -> (r: Vec<(String, u64)>)
    ensures
        r@.len() == files@.len(),
        forall|i: int|
            0 <= i < files@.len() ==> (#[trigger] r@[i]).0 == files@[i].path && r@[i].1
                == files@[i].size,
{
    let mut out: Vec<(String, u64)> = Vec::new();
    let mut i: usize = 0;
    while i < files.len()
        invariant
            i <= files@.len(),
            out@.len() == i,
            forall|j: int|
                0 <= j < i ==> (#[trigger] out@[j]).0 == files@[j].path && out@[j].1
                    == files@[j].size,
        decreases files@.len() - i,
    {
        out.push((files[i].path.clone(), files[i].size));
        i += 1;
    }
    out
}

} // verus!
