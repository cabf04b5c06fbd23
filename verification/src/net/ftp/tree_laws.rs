//! What a walk, a search, a count and a deletion find in a tree on a server.

use vstd::prelude::*;

use crate::model::entry::EntryView;
use crate::net::ftp::find::{
    found_ahead, found_among, found_below, matching, search, whole_reports_hold_every_match,
    HitView, ReportView, SearchEnd, TreeSearch,
};
use crate::net::ftp::paths::{joined_path, traversal_root};
use crate::net::ftp::remove::{
    bottom_up, collecting, delete, removals_among, the_directory_goes_last, CollectEnd, DeletePlan,
    RemovalView,
};
use crate::net::ftp::stats::{tally, tree_stats, RemoteTreeStats, TreeCount};
use crate::net::ftp::traverse::directory_visits;
use crate::net::ftp::walk::{WalkMove, WalkView};
use crate::net::ftp::traverse::{
    files_ahead, files_among, files_below, FileView, VisitView, World,
};
use crate::net::ftp::walk::{complete_walks_find_every_file, walk, walk_metadata, TreeWalk, WalkEnd};
use crate::net::error::NetError;
use crate::net::search::holds_every_word;
use crate::net::transfer_rules::RemoteFileMetadata;
use crate::text::lowercase;

verus! {

/// Below the directory the server lists the entry at the end of a way of names: each name but the
/// last is that of a directory in the one before it.
pub open spec fn leads_to(world: World, dir: Seq<char>, names: Seq<Seq<char>>, entry: EntryView) -> bool
    decreases names.len(),
{
    if names.len() == 0 {
        false
    } else if names.len() == 1 {
        entry.name == names[0] && world(dir).0.contains(entry)
    } else {
        (exists|i: int|
            0 <= i < world(dir).0.len() && (#[trigger] world(dir).0[i]).is_dir && world(dir).0[i].name
                == names[0]) && leads_to(world, joined_path(dir, names[0]), names.skip(1), entry)
    }
}

/// The path at the end of a way of names.
pub open spec fn path_along(dir: Seq<char>, names: Seq<Seq<char>>) -> Seq<char>
    decreases names.len(),
{
    if names.len() == 0 {
        dir
    } else {
        path_along(joined_path(dir, names[0]), names.skip(1))
    }
}

// --- walks -------------------------------------------------------------------------------------

proof fn lemma_files_of_entry(
    world: World,
    dir: Seq<char>,
    depth: nat,
    entries: Seq<EntryView>,
    i: int,
    file: FileView,
)
    requires
        depth < 64,
        0 <= i < entries.len(),
        !entries[i].is_dir ==> file == (FileView {
            path: joined_path(dir, entries[i].name),
            size: entries[i].size,
            mtime: entries[i].mtime,
        }),
        entries[i].is_dir ==> files_below(world, joined_path(dir, entries[i].name), depth + 1).contains(
            file,
        ),
    ensures
        files_among(world, dir, depth, entries).contains(file),
    decreases entries.len(),
{
    let all = files_among(world, dir, depth, entries);
    let rest = files_among(world, dir, depth, entries.skip(1));
    let path = joined_path(dir, entries[0].name);
    let first = if entries[0].is_dir {
        files_below(world, path, depth + 1)
    } else {
        seq![FileView { path, size: entries[0].size, mtime: entries[0].mtime }]
    };
    assert(all == first + rest);
    if i == 0 {
        if entries[0].is_dir {
            let k = choose|k: int| 0 <= k < first.len() && first[k] == file;
            assert(all[k] == file);
        } else {
            assert(all[0] == file);
        }
    } else {
        assert(entries.skip(1)[i - 1] == entries[i]);
        lemma_files_of_entry(world, dir, depth, entries.skip(1), i - 1, file);
        let k = choose|k: int| 0 <= k < rest.len() && rest[k] == file;
        assert(all[first.len() + k] == file);
    }
}

proof fn lemma_files_along(
    world: World,
    dir: Seq<char>,
    depth: nat,
    names: Seq<Seq<char>>,
    entry: EntryView,
)
    requires
        leads_to(world, dir, names, entry),
        !entry.is_dir,
        depth + names.len() <= 64,
    ensures
        files_below(world, dir, depth).contains(
            (FileView { path: path_along(dir, names), size: entry.size, mtime: entry.mtime }),
        ),
    decreases names.len(),
{
    let file = FileView { path: path_along(dir, names), size: entry.size, mtime: entry.mtime };
    let entries = world(dir).0;
    let next = joined_path(dir, names[0]);
    if names.len() == 1 {
        let i = choose|i: int| 0 <= i < entries.len() && entries[i] == entry;
        assert(names.skip(1) =~= Seq::<Seq<char>>::empty());
        assert(path_along(next, names.skip(1)) == next);
        lemma_files_of_entry(world, dir, depth, entries, i, file);
    } else {
        let i = choose|i: int|
            0 <= i < entries.len() && (#[trigger] entries[i]).is_dir && entries[i].name == names[0];
        lemma_files_along(world, next, depth + 1, names.skip(1), entry);
        lemma_files_of_entry(world, dir, depth, entries, i, file);
    }
}

/// A walk that is complete has found every file of the tree, however deep it lies within the limit,
/// with its own path, size and time.
pub proof fn walks_find_files_at_every_depth(
    root: &str,
    start: TreeWalk,
    world: World,
    files: Seq<FileView>,
    names: Seq<Seq<char>>,
    entry: EntryView,
)
    requires
        call_ensures(walk_metadata, (root,), start),
        start@.outcome(world) == WalkEnd::Complete(files),
        leads_to(world, traversal_root(root@), names, entry),
        !entry.is_dir,
        names.len() <= 64,
    ensures
        files.contains(
            (FileView {
                path: path_along(traversal_root(root@), names),
                size: entry.size,
                mtime: entry.mtime,
            }),
        ),
{
    let dir = traversal_root(root@);
    complete_walks_find_every_file(start@, world, files);
    let enter = VisitView::Enter { path: dir, depth: 0 };
    assert(start@.ahead =~= seq![enter]);
    assert(seq![enter].skip(1) =~= Seq::<VisitView>::empty());
    assert(files_ahead(world, seq![enter]) =~= files_below(world, dir, 0)) by {
        reveal_with_fuel(files_ahead, 2);
    }
    assert(start@.files + files_below(world, dir, 0) =~= files_below(world, dir, 0));
    lemma_files_along(world, dir, 0, names, entry);
}

/// A finished walk gives the files that it has found, unless something was left out.
pub proof fn incomplete_walks_give_nothing(
    w: TreeWalk,
    truncated: bool,
    r: Result<Vec<RemoteFileMetadata>, NetError>,
    files: Vec<RemoteFileMetadata>,
    pairs: Vec<(String, u64)>,
    i: int,
)
    requires
        call_ensures(TreeWalk::finish, (w, truncated), r),
        call_ensures(walk, (files,), pairs),
        0 <= i < files@.len(),
    ensures
        truncated ==> r is Err,
        !truncated ==> (r matches Ok(found) && found@ == w.files@),
        pairs@.len() == files@.len(),
        pairs@[i].0@ == files@[i].path@,
        pairs@[i].1 == files@[i].size,
{
}

// --- searches ----------------------------------------------------------------------------------

proof fn lemma_hits_of_entry(
    world: World,
    dir: Seq<char>,
    depth: nat,
    entries: Seq<EntryView>,
    i: int,
    hit: HitView,
)
    requires
        depth < 32,
        0 <= i < entries.len(),
        hit == (HitView {
            path: joined_path(dir, entries[i].name),
            is_dir: entries[i].is_dir,
            size: entries[i].size,
            mtime: entries[i].mtime,
        }) || (entries[i].is_dir && found_below(
            world,
            joined_path(dir, entries[i].name),
            depth + 1,
        ).contains(hit)),
    ensures
        found_among(world, dir, depth, entries).contains(hit),
    decreases entries.len(),
{
    let all = found_among(world, dir, depth, entries);
    let rest = found_among(world, dir, depth, entries.skip(1));
    let path = joined_path(dir, entries[0].name);
    let below = if entries[0].is_dir {
        found_below(world, path, depth + 1)
    } else {
        Seq::empty()
    };
    let own = HitView {
        path,
        is_dir: entries[0].is_dir,
        size: entries[0].size,
        mtime: entries[0].mtime,
    };
    assert(all == seq![own] + below + rest);
    if i == 0 {
        if hit == own {
            assert(all[0] == hit);
        } else {
            let k = choose|k: int| 0 <= k < below.len() && below[k] == hit;
            assert(all[1 + k] == hit);
        }
    } else {
        assert(entries.skip(1)[i - 1] == entries[i]);
        lemma_hits_of_entry(world, dir, depth, entries.skip(1), i - 1, hit);
        let k = choose|k: int| 0 <= k < rest.len() && rest[k] == hit;
        assert(all[1 + below.len() + k] == hit);
    }
}

proof fn lemma_hits_along(
    world: World,
    dir: Seq<char>,
    depth: nat,
    names: Seq<Seq<char>>,
    entry: EntryView,
)
    requires
        leads_to(world, dir, names, entry),
        depth + names.len() <= 32,
    ensures
        found_below(world, dir, depth).contains(
            (HitView {
                path: path_along(dir, names),
                is_dir: entry.is_dir,
                size: entry.size,
                mtime: entry.mtime,
            }),
        ),
    decreases names.len(),
{
    let hit = HitView {
        path: path_along(dir, names),
        is_dir: entry.is_dir,
        size: entry.size,
        mtime: entry.mtime,
    };
    let entries = world(dir).0;
    let next = joined_path(dir, names[0]);
    if names.len() == 1 {
        let i = choose|i: int| 0 <= i < entries.len() && entries[i] == entry;
        assert(names.skip(1) =~= Seq::<Seq<char>>::empty());
        assert(path_along(next, names.skip(1)) == next);
        lemma_hits_of_entry(world, dir, depth, entries, i, hit);
    } else {
        let i = choose|i: int|
            0 <= i < entries.len() && (#[trigger] entries[i]).is_dir && entries[i].name == names[0];
        lemma_hits_along(world, next, depth + 1, names.skip(1), entry);
        lemma_hits_of_entry(world, dir, depth, entries, i, hit);
    }
}

/// A search that is not cut short reports every file and folder of the tree whose path holds every
/// word of the query, with its own path, kind, size and time.
pub proof fn searches_find_matches_at_every_depth(
    root: &str,
    query: &str,
    start: TreeSearch,
    world: World,
    report: ReportView,
    names: Seq<Seq<char>>,
    entry: EntryView,
)
    requires
        call_ensures(search, (root, query), Ok::<TreeSearch, NetError>(start)),
        start@.outcome(world) == SearchEnd::Done(report),
        !report.truncated,
        leads_to(world, traversal_root(root@), names, entry),
        names.len() <= 32,
        holds_every_word(lowercase(path_along(traversal_root(root@), names)), query@),
    ensures
        report.hits.contains(
            (HitView {
                path: path_along(traversal_root(root@), names),
                is_dir: entry.is_dir,
                size: entry.size,
                mtime: entry.mtime,
            }),
        ),
{
    broadcast use vstd::seq_lib::group_filter_ensures;

    let dir = traversal_root(root@);
    let hit = HitView {
        path: path_along(dir, names),
        is_dir: entry.is_dir,
        size: entry.size,
        mtime: entry.mtime,
    };
    whole_reports_hold_every_match(start@, world, report);
    let enter = VisitView::Enter { path: dir, depth: 0 };
    assert(start@.ahead =~= seq![enter]);
    assert(seq![enter].skip(1) =~= Seq::<VisitView>::empty());
    assert(found_ahead(world, seq![enter]) =~= found_below(world, dir, 0)) by {
        reveal_with_fuel(found_ahead, 2);
    }
    lemma_hits_along(world, dir, 0, names, entry);
    let found = found_below(world, dir, 0);
    let wanted = |h: HitView| crate::net::ftp::find::matches_query(h.path, query@);
    assert(wanted(hit));
    assert(found.filter(wanted).contains(hit));
    assert(start@.report.hits + matching(found, query@) =~= matching(found, query@));
}

// --- counts ------------------------------------------------------------------------------------

/// A further file adds its size and itself to the statistics, and its time where that is the newest.
pub proof fn statistics_add_up(stats: RemoteTreeStats, files: Seq<FileView>, file: FileView)
    requires
        tally(stats, files).files_scanned < usize::MAX,
    ensures
        ({
            let before = tally(stats, files);
            let after = tally(stats, files.push(file));
            &&& before.size + file.size <= u64::MAX ==> after.size == before.size + file.size
            &&& after.files_scanned == before.files_scanned + 1
            &&& after.truncated == before.truncated
            &&& file.mtime is None ==> after.newest_mtime == before.newest_mtime
            &&& before.newest_mtime is None ==> after.newest_mtime == file.mtime
            &&& before.newest_mtime matches Some(a) ==> (file.mtime matches Some(b)
                ==> after.newest_mtime == Some(
                if a >= b {
                    a
                } else {
                    b
                },
            ))
        }),
        tally(stats, Seq::empty()) == stats,
    decreases files.len(),
{
    lemma_tally_push(stats, files, file);
}

proof fn lemma_tally_push(stats: RemoteTreeStats, files: Seq<FileView>, file: FileView)
    ensures
        tally(stats, files.push(file)) == crate::net::ftp::stats::counted(tally(stats, files), file),
    decreases files.len(),
{
    if files.len() == 0 {
        assert(files.push(file).skip(1) =~= Seq::<FileView>::empty());
        reveal_with_fuel(tally, 2);
    } else {
        assert(files.push(file)[0] == files[0]);
        assert(files.push(file).skip(1) =~= files.skip(1).push(file));
        lemma_tally_push(crate::net::ftp::stats::counted(stats, files[0]), files.skip(1), file);
    }
}

/// A count starts at its root with nothing counted, and looks at as many files as it was asked for,
/// within the limit.
pub proof fn counts_start_at_their_root(root: &str, max_files: usize, start: TreeCount)
    requires
        call_ensures(tree_stats, (root, max_files), start),
    ensures
        start@.ahead == seq![VisitView::Enter { path: traversal_root(root@), depth: 0 }],
        start.stats.size == 0,
        start.stats.files_scanned == 0,
        start.stats.newest_mtime is None,
        !start.stats.truncated,
        0 < max_files <= 100000 ==> start.budget == max_files,
        max_files == 0 || max_files > 100000 ==> start.budget == 100000,
{
}

// --- deletions ---------------------------------------------------------------------------------

proof fn lemma_removal_of_entry(
    world: World,
    dir: Seq<char>,
    depth: nat,
    entries: Seq<EntryView>,
    i: int,
    removal: RemovalView,
)
    requires
        depth < 64,
        0 <= i < entries.len(),
        !entries[i].is_dir ==> removal == (RemovalView {
            path: joined_path(dir, entries[i].name),
            directory: false,
        }),
        entries[i].is_dir ==> bottom_up(world, joined_path(dir, entries[i].name), depth + 1).contains(
            removal,
        ),
    ensures
        removals_among(world, dir, depth, entries).contains(removal),
    decreases entries.len(),
{
    let all = removals_among(world, dir, depth, entries);
    let rest = removals_among(world, dir, depth, entries.skip(1));
    let path = joined_path(dir, entries[0].name);
    let first = if entries[0].is_dir {
        bottom_up(world, path, depth + 1)
    } else {
        seq![RemovalView { path, directory: false }]
    };
    assert(all == first + rest);
    if i == 0 {
        if entries[0].is_dir {
            let k = choose|k: int| 0 <= k < first.len() && first[k] == removal;
            assert(all[k] == removal);
        } else {
            assert(all[0] == removal);
        }
    } else {
        assert(entries.skip(1)[i - 1] == entries[i]);
        lemma_removal_of_entry(world, dir, depth, entries.skip(1), i - 1, removal);
        let k = choose|k: int| 0 <= k < rest.len() && rest[k] == removal;
        assert(all[first.len() + k] == removal);
    }
}

proof fn lemma_removals_along(
    world: World,
    dir: Seq<char>,
    depth: nat,
    names: Seq<Seq<char>>,
    entry: EntryView,
)
    requires
        leads_to(world, dir, names, entry),
        depth + names.len() < 64,
    ensures
        bottom_up(world, dir, depth).contains(
            (RemovalView { path: path_along(dir, names), directory: entry.is_dir }),
        ),
    decreases names.len(),
{
    let removal = RemovalView { path: path_along(dir, names), directory: entry.is_dir };
    let entries = world(dir).0;
    let next = joined_path(dir, names[0]);
    let among = removals_among(world, dir, depth, entries);
    if names.len() == 1 {
        let i = choose|i: int| 0 <= i < entries.len() && entries[i] == entry;
        assert(names.skip(1) =~= Seq::<Seq<char>>::empty());
        assert(path_along(next, names.skip(1)) == next);
        if entry.is_dir {
            let below = bottom_up(world, next, depth + 1);
            assert(below.last() == removal);
            assert(below[below.len() - 1] == removal);
        }
        lemma_removal_of_entry(world, dir, depth, entries, i, removal);
    } else {
        let i = choose|i: int|
            0 <= i < entries.len() && (#[trigger] entries[i]).is_dir && entries[i].name == names[0];
        lemma_removals_along(world, next, depth + 1, names.skip(1), entry);
        lemma_removal_of_entry(world, dir, depth, entries, i, removal);
    }
    let k = choose|k: int| 0 <= k < among.len() && among[k] == removal;
    assert(bottom_up(world, dir, depth)[k] == removal);
}

/// A directory is deleted with everything in it at whatever depth within the limit: files as files,
/// directories as directories.
pub proof fn deletions_take_everything_along(
    world: World,
    dir: Seq<char>,
    removals: Seq<RemovalView>,
    names: Seq<Seq<char>>,
    entry: EntryView,
)
    requires
        collecting(dir).outcome(world) == CollectEnd::Complete(removals),
        leads_to(world, dir, names, entry),
        names.len() < 64,
    ensures
        removals.contains(
            (RemovalView { path: path_along(dir, names), directory: entry.is_dir }),
        ),
        removals.contains((RemovalView { path: dir, directory: true })),
{
    the_directory_goes_last(world, dir, removals);
    lemma_removals_along(world, dir, 0, names, entry);
    assert(removals[removals.len() - 1] == (RemovalView { path: dir, directory: true }));
}

/// A file is deleted as it is, and a directory only after its tree was listed.
pub proof fn files_are_deleted_alone(path: &str, is_dir: bool, plan: DeletePlan)
    requires
        call_ensures(delete, (path, is_dir), Ok::<DeletePlan, NetError>(plan)),
    ensures
        is_dir ==> (plan matches DeletePlan::Tree(tree) && tree@.ahead == seq![
            VisitView::Enter { path: path@, depth: 0 },
        ] && tree@.removals.len() == 0),
        !is_dir ==> (plan matches DeletePlan::File(run) && run@.removals == seq![
            RemovalView { path: path@, directory: false },
        ] && run@.done == 0 && run@.failure is None),
{
}

// --- listings that were cut off ----------------------------------------------------------------

/// Some directory ahead was cut off.
pub open spec fn has_cut_off(ahead: Seq<VisitView>) -> bool {
    exists|i: int|
        0 <= i < ahead.len() && (#[trigger] ahead[i] matches VisitView::Leave { truncated, .. }
            && truncated)
}

proof fn lemma_cut_off_walk(walk: WalkView, world: World)
    requires
        has_cut_off(walk.ahead),
    ensures
        !(walk.outcome(world) is Complete),
    decreases 10000 - walk.directories, walk.ahead.len(),
{
    let i = choose|i: int|
        0 <= i < walk.ahead.len() && (#[trigger] walk.ahead[i] matches VisitView::Leave {
            truncated,
            ..
        } && truncated);
    match walk.next() {
        WalkMove::End(end) => {},
        WalkMove::List(path) => {
            let then = walk.listed(world(path).0, world(path).1);
            let front = then.ahead.len() - walk.ahead.skip(1).len();
            assert(i > 0);
            assert(walk.ahead.skip(1)[i - 1] == walk.ahead[i]);
            assert(then.ahead[front + (i - 1)] == walk.ahead[i]);
            lemma_cut_off_walk(then, world);
        },
        WalkMove::Go(then) => {
            assert(i > 0);
            assert(then.ahead[i - 1] == walk.ahead[i]);
            lemma_cut_off_walk(then, world);
        },
    }
}

/// A walk whose root was not listed whole is not complete.
pub proof fn cut_off_listings_are_never_complete(root: &str, start: TreeWalk, world: World)
    requires
        call_ensures(walk_metadata, (root,), start),
        world(traversal_root(root@)).1,
    ensures
        !(start@.outcome(world) is Complete),
{
    let dir = traversal_root(root@);
    match start@.next() {
        WalkMove::End(end) => {},
        WalkMove::List(path) => {
            assert(path == dir);
            let then = start@.listed(world(path).0, world(path).1);
            let visits = directory_visits(dir, 0, world(dir).0, true);
            assert(visits[visits.len() - 1] == VisitView::Leave { path: dir, truncated: true });
            assert(then.ahead[visits.len() - 1] == visits[visits.len() - 1]);
            lemma_cut_off_walk(then, world);
        },
        WalkMove::Go(then) => {},
    }
}

} // verus!
