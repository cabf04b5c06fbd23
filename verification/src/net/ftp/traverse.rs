//! The order in which a remote directory tree is visited.
//!
//! A traversal keeps a list of what is still to be visited. Listing a directory puts its entries in
//! front, each directory among them followed by what lies below it, and the end of the directory
//! behind them.

use vstd::prelude::*;

use crate::model::entry::{entry_views, EntryView, RemoteEntry};
use crate::net::ftp::paths::{join_remote_path, joined_path};

verus! {

/// What to visit next.
#[derive(Debug, PartialEq, Eq)]
pub enum Visit {
    /// A directory that has not been listed.
    Enter { path: String, depth: usize },
    /// An entry of a listed directory.
    Found { path: String, entry: RemoteEntry },
    /// The end of a listed directory, and whether its listing was cut off.
    Leave { path: String, truncated: bool },
}

pub ghost enum VisitView {
    Enter { path: Seq<char>, depth: nat },
    Found { path: Seq<char>, entry: EntryView },
    Leave { path: Seq<char>, truncated: bool },
}

impl View for Visit {
    type V = VisitView;

    open spec fn view(&self) -> VisitView {
        match *self {
            Visit::Enter { path, depth } => VisitView::Enter { path: path@, depth: depth as nat },
            Visit::Found { path, entry } => VisitView::Found { path: path@, entry: entry@ },
            Visit::Leave { path, truncated } => VisitView::Leave { path: path@, truncated },
        }
    }
}

/// What is to be visited, in order. The next visit is kept at the end of the vector.
pub open spec fn upcoming(stack: Seq<Visit>) -> Seq<VisitView> {
    Seq::new(stack.len(), |i: int| stack[stack.len() - 1 - i]@)
}

/// The visits of the entries of a directory.
pub open spec fn entry_visits(dir: Seq<char>, depth: nat, entries: Seq<EntryView>) -> Seq<VisitView>
    decreases entries.len(),
{
    if entries.len() == 0 {
        Seq::empty()
    } else {
        let path = joined_path(dir, entries[0].name);
        let first = if entries[0].is_dir {
            seq![
                VisitView::Found { path, entry: entries[0] },
                VisitView::Enter { path, depth: depth + 1 },
            ]
        } else {
            seq![VisitView::Found { path, entry: entries[0] }]
        };
        first + entry_visits(dir, depth, entries.skip(1))
    }
}

/// The visits of a directory that has been listed.
pub open spec fn directory_visits(
    dir: Seq<char>,
    depth: nat,
    entries: Seq<EntryView>,
    truncated: bool,
) -> Seq<VisitView> {
    entry_visits(dir, depth, entries).push(VisitView::Leave { path: dir, truncated })
}

pub proof fn lemma_upcoming_push(stack: Seq<Visit>, visit: Visit)
    ensures
        upcoming(stack.push(visit)) == seq![visit@] + upcoming(stack),
{
    assert(upcoming(stack.push(visit)) =~= seq![visit@] + upcoming(stack));
}

pub proof fn lemma_upcoming_pop(stack: Seq<Visit>)
    requires
        stack.len() > 0,
    ensures
        upcoming(stack).len() > 0,
        upcoming(stack)[0] == stack.last()@,
        upcoming(stack).skip(1) == upcoming(stack.drop_last()),
{
    assert(upcoming(stack).skip(1) =~= upcoming(stack.drop_last()));
}

/// Put the visits of a listed directory in front.
pub fn push_directory(
    stack: &mut Vec<Visit>,
    dir: &str,
    depth: usize,
    entries: Vec<RemoteEntry>,
    truncated: bool,
)
    requires
        depth < usize::MAX,
    ensures
        upcoming(final(stack)@) == directory_visits(
            dir@,
            depth as nat,
            entry_views(entries@),
            truncated,
        ) + upcoming(old(stack)@),
{
    let ghost all = entry_views(entries@);
    let ghost base = upcoming(stack@);
    let ghost leave = VisitView::Leave { path: dir@, truncated };
    let last = Visit::Leave { path: dir.to_owned(), truncated };
    proof {
        lemma_upcoming_push(stack@, last);
    }
    stack.push(last);
    let mut left: Vec<RemoteEntry> = entries;
    proof {
        assert(all.skip(all.len() as int) =~= Seq::empty());
        assert(upcoming(stack@) =~= entry_visits(dir@, depth as nat, all.skip(left@.len() as int))
            + (seq![leave] + base));
    }
    while left.len() > 0
        invariant
            depth < usize::MAX,
            left@.len() <= all.len(),
            entry_views(left@) == all.take(left@.len() as int),
            upcoming(stack@) == entry_visits(dir@, depth as nat, all.skip(left@.len() as int)) + (
            seq![leave] + base),
        decreases left@.len(),
    {
        let ghost before = left@;
        match left.pop() {
            None => {},
            Some(entry) => {
                let ghost n = left@.len() as int;
                proof {
                    assert(entry_views(before)[n] == entry@);
                    assert(all[n] == entry@);
                    assert(entry_views(left@) =~= all.take(n));
                    assert(all.skip(n)[0] == entry@);
                    assert(all.skip(n).skip(1) =~= all.skip(n + 1));
                }
                let path: String = join_remote_path(dir, entry.name.as_str());
                if entry.is_dir {
                    let enter = Visit::Enter { path: path.clone(), depth: depth + 1 };
                    proof {
                        lemma_upcoming_push(stack@, enter);
                    }
                    stack.push(enter);
                }
                let found = Visit::Found { path, entry };
                proof {
                    lemma_upcoming_push(stack@, found);
                }
                stack.push(found);
                proof {
                    assert(upcoming(stack@) =~= entry_visits(dir@, depth as nat, all.skip(n)) + (
                    seq![leave] + base));
                }
            },
        }
    }
    proof {
        assert(all.skip(0) =~= all);
        assert(upcoming(stack@) =~= directory_visits(dir@, depth as nat, all, truncated) + base);
    }
}

/// What a server says of each directory: its entries in listing order, and whether the listing was
/// cut off.
pub type World = spec_fn(Seq<char>) -> (Seq<EntryView>, bool);

pub const MAX_REMOTE_FILES: usize = 100_000;

pub const MAX_REMOTE_DIRECTORIES: usize = 10_000;

pub const MAX_RECURSION_DEPTH: usize = 64;

/// A file of the tree.
pub ghost struct FileView {
    pub path: Seq<char>,
    pub size: u64,
    pub mtime: Option<i64>,
}

/// The files among the entries of a directory and below them, in the order in which they are visited.
pub open spec fn files_among(
    world: World,
    dir: Seq<char>,
    depth: nat,
    entries: Seq<EntryView>,
) -> Seq<FileView>
    decreases MAX_RECURSION_DEPTH - depth, 0nat, entries.len(),
{
    if entries.len() == 0 || depth >= MAX_RECURSION_DEPTH {
        Seq::empty()
    } else {
        let path = joined_path(dir, entries[0].name);
        let first = if entries[0].is_dir {
            files_below(world, path, depth + 1)
        } else {
            seq![FileView { path, size: entries[0].size, mtime: entries[0].mtime }]
        };
        first + files_among(world, dir, depth, entries.skip(1))
    }
}

/// All files below a directory.
pub open spec fn files_below(world: World, dir: Seq<char>, depth: nat) -> Seq<FileView>
    decreases MAX_RECURSION_DEPTH - depth, 1nat, 0nat,
{
    if depth >= MAX_RECURSION_DEPTH {
        Seq::empty()
    } else {
        files_among(world, dir, depth, world(dir).0)
    }
}

/// The files that the visits lead to.
pub open spec fn files_ahead(world: World, visits: Seq<VisitView>) -> Seq<FileView>
    decreases visits.len(),
{
    if visits.len() == 0 {
        Seq::empty()
    } else {
        let first = match visits[0] {
            VisitView::Enter { path, depth } => files_below(world, path, depth),
            VisitView::Found { path, entry } => if entry.is_dir {
                Seq::empty()
            } else {
                seq![FileView { path, size: entry.size, mtime: entry.mtime }]
            },
            VisitView::Leave { .. } => Seq::empty(),
        };
        first + files_ahead(world, visits.skip(1))
    }
}

pub proof fn lemma_files_ahead_add(world: World, a: Seq<VisitView>, b: Seq<VisitView>)
    ensures
        files_ahead(world, a + b) == files_ahead(world, a) + files_ahead(world, b),
    decreases a.len(),
{
    if a.len() == 0 {
        assert(a + b =~= b);
        assert(files_ahead(world, a + b) =~= files_ahead(world, a) + files_ahead(world, b));
    } else {
        lemma_files_ahead_add(world, a.skip(1), b);
        assert((a + b).skip(1) =~= a.skip(1) + b);
        assert((a + b)[0] == a[0]);
        assert(files_ahead(world, a + b) =~= files_ahead(world, a) + files_ahead(world, b));
    }
}

/// The visits of the entries of a directory lead to the files among them.
pub proof fn lemma_entry_visits(world: World, dir: Seq<char>, depth: nat, entries: Seq<EntryView>)
    requires
        depth < MAX_RECURSION_DEPTH,
    ensures
        files_ahead(world, entry_visits(dir, depth, entries)) == files_among(
            world,
            dir,
            depth,
            entries,
        ),
    decreases entries.len(),
{
    if entries.len() > 0 {
        lemma_entry_visits(world, dir, depth, entries.skip(1));
        let path = joined_path(dir, entries[0].name);
        let rest = entry_visits(dir, depth, entries.skip(1));
        let visits = entry_visits(dir, depth, entries);
        if entries[0].is_dir {
            let found = seq![VisitView::Found { path, entry: entries[0] }];
            let enter = seq![VisitView::Enter { path, depth: depth + 1 }];
            assert(visits =~= found + (enter + rest));
            assert(visits.skip(1) =~= enter + rest);
            assert((enter + rest).skip(1) =~= rest);
            assert(files_ahead(world, enter + rest) =~= files_below(world, path, depth + 1)
                + files_ahead(world, rest));
            assert(files_ahead(world, visits) =~= files_ahead(world, enter + rest));
        } else {
            assert(visits.skip(1) =~= rest);
        }
    }
}

/// Listing a directory does not change what lies ahead.
pub proof fn lemma_listing_keeps_files(
    world: World,
    dir: Seq<char>,
    depth: nat,
    truncated: bool,
    rest: Seq<VisitView>,
)
    requires
        depth < MAX_RECURSION_DEPTH,
    ensures
        files_ahead(world, directory_visits(dir, depth, world(dir).0, truncated) + rest)
            == files_below(world, dir, depth) + files_ahead(world, rest),
{
    let entries = world(dir).0;
    let leave = seq![VisitView::Leave { path: dir, truncated }];
    lemma_entry_visits(world, dir, depth, entries);
    assert(directory_visits(dir, depth, entries, truncated) + rest =~= entry_visits(
        dir,
        depth,
        entries,
    ) + (leave + rest));
    lemma_files_ahead_add(world, entry_visits(dir, depth, entries), leave + rest);
    assert((leave + rest).skip(1) =~= rest);
    assert(files_ahead(world, leave + rest) =~= files_ahead(world, rest));
}

} // verus!
