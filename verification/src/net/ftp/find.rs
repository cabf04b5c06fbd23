//! Searching a remote tree by name.

use vstd::prelude::*;

use crate::model::entry::{entry_views, EntryView, RemoteEntry};
use crate::net::error::NetError;
use crate::net::ftp::paths::{joined_path, start_directory, traversal_root};
use crate::net::ftp::traverse::{
    directory_visits, entry_visits, lemma_upcoming_pop, push_directory, upcoming, Visit, VisitView,
    World,
};
use crate::net::safe::{has_low_byte, validate_ftp_path};
use crate::net::search::{
    holds_every_word, remote_search_matches, MAX_REMOTE_SEARCH_DEPTH, MAX_REMOTE_SEARCH_DIRECTORIES,
    MAX_REMOTE_SEARCH_ENTRIES, MAX_REMOTE_SEARCH_RESULTS,
};
use crate::text::lowercase;

verus! {

#[derive(Debug, PartialEq, Eq)]
pub struct RemoteSearchHit {
    pub path: String,
    pub is_dir: bool,
    pub size: u64,
    pub mtime: Option<i64>,
}

pub ghost struct HitView {
    pub path: Seq<char>,
    pub is_dir: bool,
    pub size: u64,
    pub mtime: Option<i64>,
}

impl View for RemoteSearchHit {
    type V = HitView;

    open spec fn view(&self) -> HitView {
        HitView { path: self.path@, is_dir: self.is_dir, size: self.size, mtime: self.mtime }
    }
}

pub open spec fn hit_views(hits: Seq<RemoteSearchHit>) -> Seq<HitView> {
    hits.map_values(|h: RemoteSearchHit| h@)
}

#[derive(Debug, PartialEq, Eq)]
pub struct RemoteSearchReport {
    pub hits: Vec<RemoteSearchHit>,
    pub entries_scanned: usize,
    pub directories_scanned: usize,
    pub truncated: bool,
}

pub ghost struct ReportView {
    pub hits: Seq<HitView>,
    pub entries_scanned: nat,
    pub directories_scanned: nat,
    pub truncated: bool,
}

impl View for RemoteSearchReport {
    type V = ReportView;

    open spec fn view(&self) -> ReportView {
        ReportView {
            hits: hit_views(self.hits@),
            entries_scanned: self.entries_scanned as nat,
            directories_scanned: self.directories_scanned as nat,
            truncated: self.truncated,
        }
    }
}

pub open spec fn empty_report() -> ReportView {
    ReportView {
        hits: Seq::empty(),
        entries_scanned: 0,
        directories_scanned: 0,
        truncated: false,
    }
}

impl Default for RemoteSearchReport {
    fn default() -> (r: Self)
        ensures
            r@ == empty_report(),
    {
        let r = RemoteSearchReport {
            hits: Vec::new(),
            entries_scanned: 0,
            directories_scanned: 0,
            truncated: false,
        };
        assert(r@.hits =~= Seq::empty());
        r
    }
}

pub open spec fn hit_of(path: Seq<char>, entry: EntryView) -> HitView {
    HitView { path, is_dir: entry.is_dir, size: entry.size, mtime: entry.mtime }
}

pub open spec fn matches_query(path: Seq<char>, query: Seq<char>) -> bool {
    holds_every_word(lowercase(path), query)
}

/// The entries of a directory and everything below them, in the order in which they are visited.
pub open spec fn found_among(
    world: World,
    dir: Seq<char>,
    depth: nat,
    entries: Seq<EntryView>,
) -> Seq<HitView>
    decreases MAX_REMOTE_SEARCH_DEPTH - depth, 0nat, entries.len(),
{
    if entries.len() == 0 || depth >= MAX_REMOTE_SEARCH_DEPTH {
        Seq::empty()
    } else {
        let path = joined_path(dir, entries[0].name);
        let below = if entries[0].is_dir {
            found_below(world, path, depth + 1)
        } else {
            Seq::empty()
        };
        seq![hit_of(path, entries[0])] + below + found_among(world, dir, depth, entries.skip(1))
    }
}

/// Everything below a directory.
pub open spec fn found_below(world: World, dir: Seq<char>, depth: nat) -> Seq<HitView>
    decreases MAX_REMOTE_SEARCH_DEPTH - depth, 1nat, 0nat,
{
    if depth >= MAX_REMOTE_SEARCH_DEPTH {
        Seq::empty()
    } else {
        found_among(world, dir, depth, world(dir).0)
    }
}

/// What the visits lead to.
pub open spec fn found_ahead(world: World, visits: Seq<VisitView>) -> Seq<HitView>
    decreases visits.len(),
{
    if visits.len() == 0 {
        Seq::empty()
    } else {
        let first = match visits[0] {
            VisitView::Enter { path, depth } => found_below(world, path, depth),
            VisitView::Found { path, entry } => seq![hit_of(path, entry)],
            VisitView::Leave { .. } => Seq::empty(),
        };
        first + found_ahead(world, visits.skip(1))
    }
}

/// Those whose path matches the query.
pub open spec fn matching(found: Seq<HitView>, query: Seq<char>) -> Seq<HitView> {
    found.filter(|h: HitView| matches_query(h.path, query))
}

proof fn lemma_matching_add(a: Seq<HitView>, b: Seq<HitView>, query: Seq<char>)
    ensures
        matching(a + b, query) == matching(a, query) + matching(b, query),
{
    Seq::filter_distributes_over_add(a, b, |h: HitView| matches_query(h.path, query));
}

proof fn lemma_found_add(world: World, a: Seq<VisitView>, b: Seq<VisitView>)
    ensures
        found_ahead(world, a + b) == found_ahead(world, a) + found_ahead(world, b),
    decreases a.len(),
{
    if a.len() == 0 {
        assert(a + b =~= b);
    } else {
        lemma_found_add(world, a.skip(1), b);
        assert((a + b).skip(1) =~= a.skip(1) + b);
        assert((a + b)[0] == a[0]);
    }
    assert(found_ahead(world, a + b) =~= found_ahead(world, a) + found_ahead(world, b));
}

proof fn lemma_entry_found(world: World, dir: Seq<char>, depth: nat, entries: Seq<EntryView>)
    requires
        depth < MAX_REMOTE_SEARCH_DEPTH,
    ensures
        found_ahead(world, entry_visits(dir, depth, entries)) == found_among(
            world,
            dir,
            depth,
            entries,
        ),
    decreases entries.len(),
{
    if entries.len() > 0 {
        lemma_entry_found(world, dir, depth, entries.skip(1));
        let path = joined_path(dir, entries[0].name);
        let rest = entry_visits(dir, depth, entries.skip(1));
        let visits = entry_visits(dir, depth, entries);
        let found = seq![VisitView::Found { path, entry: entries[0] }];
        if entries[0].is_dir {
            let enter = seq![VisitView::Enter { path, depth: depth + 1 }];
            assert(visits =~= found + (enter + rest));
            assert(visits.skip(1) =~= enter + rest);
            assert((enter + rest).skip(1) =~= rest);
            assert(found_ahead(world, enter + rest) =~= found_below(world, path, depth + 1)
                + found_ahead(world, rest));
            assert(found_ahead(world, visits) =~= found_among(world, dir, depth, entries));
        } else {
            assert(visits.skip(1) =~= rest);
            assert(found_ahead(world, visits) =~= found_among(world, dir, depth, entries));
        }
    }
}

pub ghost enum SearchEnd {
    Done(ReportView),
    Cancelled,
    Unsafe,
}

pub ghost struct SearchView {
    pub ahead: Seq<VisitView>,
    pub query: Seq<char>,
    pub report: ReportView,
}

pub ghost enum SearchMove {
    End(SearchEnd),
    List(Seq<char>),
    Go(SearchView),
}

impl SearchView {
    pub open spec fn cut_short(self, entries_scanned: nat) -> SearchMove {
        SearchMove::End(
            SearchEnd::Done(ReportView { truncated: true, entries_scanned, ..self.report }),
        )
    }

    /// The next move, given whether the user has cancelled the search.
    pub open spec fn next(self, cancelled: bool) -> SearchMove {
        if self.ahead.len() == 0 {
            SearchMove::End(SearchEnd::Done(self.report))
        } else {
            let rest = SearchView { ahead: self.ahead.skip(1), ..self };
            let scanned = self.report.entries_scanned;
            match self.ahead[0] {
                VisitView::Enter { path, depth } => if cancelled {
                    SearchMove::End(SearchEnd::Cancelled)
                } else if depth >= MAX_REMOTE_SEARCH_DEPTH || self.report.directories_scanned
                    >= MAX_REMOTE_SEARCH_DIRECTORIES || scanned >= MAX_REMOTE_SEARCH_ENTRIES {
                    self.cut_short(scanned)
                } else if has_low_byte(path) {
                    SearchMove::End(SearchEnd::Unsafe)
                } else {
                    SearchMove::List(path)
                },
                VisitView::Found { path, entry } => if cancelled {
                    SearchMove::End(SearchEnd::Cancelled)
                } else if scanned >= MAX_REMOTE_SEARCH_ENTRIES {
                    self.cut_short(scanned)
                } else if !matches_query(path, self.query) {
                    SearchMove::Go(
                        SearchView {
                            report: ReportView { entries_scanned: scanned + 1, ..self.report },
                            ..rest
                        },
                    )
                } else if self.report.hits.len() >= MAX_REMOTE_SEARCH_RESULTS {
                    self.cut_short(scanned + 1)
                } else {
                    SearchMove::Go(
                        SearchView {
                            report: ReportView {
                                hits: self.report.hits.push(hit_of(path, entry)),
                                entries_scanned: scanned + 1,
                                ..self.report
                            },
                            ..rest
                        },
                    )
                },
                VisitView::Leave { .. } => SearchMove::Go(rest),
            }
        }
    }

    /// The search after the directory that it asked for has been listed. Of a listing that was cut
    /// off one entry is still looked at, and then the search ends.
    pub open spec fn listed(self, entries: Seq<EntryView>, truncated: bool) -> SearchView {
        match self.ahead[0] {
            VisitView::Enter { path, depth } => {
                let report = ReportView {
                    directories_scanned: self.report.directories_scanned + 1,
                    truncated: self.report.truncated || truncated,
                    ..self.report
                };
                if truncated {
                    SearchView {
                        ahead: if entries.len() == 0 {
                            Seq::empty()
                        } else {
                            seq![
                                VisitView::Found {
                                    path: joined_path(path, entries[0].name),
                                    entry: entries[0],
                                },
                            ]
                        },
                        report,
                        ..self
                    }
                } else {
                    SearchView {
                        ahead: directory_visits(path, depth, entries, false) + self.ahead.skip(1),
                        report,
                        ..self
                    }
                }
            },
            _ => self,
        }
    }

    /// How a search that nobody cancels ends on a server that lists its directories as `world` says.
    pub open spec fn outcome(self, world: World) -> SearchEnd
        decreases
            MAX_REMOTE_SEARCH_DIRECTORIES - self.report.directories_scanned,
            self.ahead.len(),
    {
        match self.next(false) {
            SearchMove::End(end) => end,
            SearchMove::List(path) => self.listed(world(path).0, world(path).1).outcome(world),
            SearchMove::Go(then) => then.outcome(world),
        }
    }
}

proof fn lemma_matching_none(query: Seq<char>)
    ensures
        matching(Seq::empty(), query) == Seq::<HitView>::empty(),
{
    reveal(Seq::filter);
}

proof fn lemma_matching_one(hit: HitView, query: Seq<char>)
    ensures
        matching(seq![hit], query) == (if matches_query(hit.path, query) {
            seq![hit]
        } else {
            Seq::<HitView>::empty()
        }),
{
    reveal_with_fuel(Seq::filter, 2);
    assert(seq![hit].drop_last() =~= Seq::empty());
    lemma_matching_none(query);
    assert(seq![hit].last() == hit);
    assert(Seq::<HitView>::empty().push(hit) =~= seq![hit]);
}

/// Listing a directory does not change what lies ahead.
proof fn lemma_listing_keeps_found(
    world: World,
    dir: Seq<char>,
    depth: nat,
    rest: Seq<VisitView>,
)
    requires
        depth < MAX_REMOTE_SEARCH_DEPTH,
    ensures
        found_ahead(world, directory_visits(dir, depth, world(dir).0, false) + rest)
            == found_below(world, dir, depth) + found_ahead(world, rest),
{
    let entries = world(dir).0;
    let leave = seq![VisitView::Leave { path: dir, truncated: false }];
    lemma_entry_found(world, dir, depth, entries);
    assert(directory_visits(dir, depth, entries, false) + rest =~= entry_visits(
        dir,
        depth,
        entries,
    ) + (leave + rest));
    lemma_found_add(world, entry_visits(dir, depth, entries), leave + rest);
    assert((leave + rest).skip(1) =~= rest);
    assert(found_ahead(world, leave + rest) =~= found_ahead(world, rest));
}

/// A visit moves a match from what lies ahead to the hits.
proof fn lemma_visit(search: SearchView, then: SearchView, world: World)
    requires
        search.next(false) == SearchMove::Go(then),
    ensures
        then.report.hits + matching(found_ahead(world, then.ahead), search.query)
            == search.report.hits + matching(found_ahead(world, search.ahead), search.query),
        then.report.entries_scanned + found_ahead(world, then.ahead).len()
            == search.report.entries_scanned + found_ahead(world, search.ahead).len(),
{
    let query = search.query;
    let all = found_ahead(world, search.ahead);
    let rest = found_ahead(world, search.ahead.skip(1));
    match search.ahead[0] {
        VisitView::Found { path, entry } => {
            let hit = hit_of(path, entry);
            assert(all =~= seq![hit] + rest);
            lemma_matching_add(seq![hit], rest, query);
            lemma_matching_one(hit, query);
            assert(then.report.hits + matching(rest, query) =~= search.report.hits + matching(
                all,
                query,
            ));
        },
        _ => {
            assert(all =~= rest);
        },
    }
}

/// The counters of a report are within their limits, and each of its hits matches.
pub open spec fn sound_report(report: ReportView, query: Seq<char>) -> bool {
    &&& report.hits.len() <= MAX_REMOTE_SEARCH_RESULTS
    &&& report.entries_scanned <= MAX_REMOTE_SEARCH_ENTRIES
    &&& report.directories_scanned <= MAX_REMOTE_SEARCH_DIRECTORIES
    &&& forall|i: int|
        0 <= i < report.hits.len() ==> matches_query((#[trigger] report.hits[i]).path, query)
}

/// Whatever the server lists, a search stays within its limits and reports only what matches.
pub proof fn searches_are_bounded_and_sound(search: SearchView, world: World, report: ReportView)
    requires
        sound_report(search.report, search.query),
        search.outcome(world) == SearchEnd::Done(report),
    ensures
        sound_report(report, search.query),
        search.report.truncated ==> report.truncated,
    decreases
        MAX_REMOTE_SEARCH_DIRECTORIES - search.report.directories_scanned,
        search.ahead.len(),
{
    match search.next(false) {
        SearchMove::End(_) => {},
        SearchMove::List(path) => {
            searches_are_bounded_and_sound(
                search.listed(world(path).0, world(path).1),
                world,
                report,
            );
        },
        SearchMove::Go(then) => {
            searches_are_bounded_and_sound(then, world, report);
        },
    }
}

/// A report that is not marked as truncated holds every match below the directories ahead, in the
/// order in which the directories list them.
pub proof fn whole_reports_hold_every_match(search: SearchView, world: World, report: ReportView)
    requires
        sound_report(search.report, search.query),
        search.outcome(world) == SearchEnd::Done(report),
        !report.truncated,
    ensures
        report.hits == search.report.hits + matching(
            found_ahead(world, search.ahead),
            search.query,
        ),
        report.entries_scanned == search.report.entries_scanned + found_ahead(
            world,
            search.ahead,
        ).len(),
    decreases
        MAX_REMOTE_SEARCH_DIRECTORIES - search.report.directories_scanned,
        search.ahead.len(),
{
    let query = search.query;
    let all = found_ahead(world, search.ahead);
    match search.next(false) {
        SearchMove::End(_) => {
            assert(all =~= Seq::empty());
            lemma_matching_none(query);
            assert(report.hits =~= search.report.hits + matching(all, query));
        },
        SearchMove::List(path) => {
            let then = search.listed(world(path).0, world(path).1);
            searches_are_bounded_and_sound(then, world, report);
            whole_reports_hold_every_match(then, world, report);
            let depth = search.ahead[0]->Enter_depth;
            lemma_listing_keeps_found(world, path, depth, search.ahead.skip(1));
        },
        SearchMove::Go(then) => {
            assert(sound_report(then.report, query));
            whole_reports_hold_every_match(then, world, report);
            lemma_visit(search, then, world);
        },
    }
}

/// What a search asks for.
#[derive(Debug, PartialEq, Eq)]
pub enum SearchStep {
    /// Go on with the next step.
    Continue,
    /// Change to this directory, list it and hand the entries to `listed`.
    List(String),
    /// The report is ready.
    Finished,
    Failed(NetError),
}

/// A search of a remote tree.
#[derive(Debug, PartialEq, Eq)]
pub struct TreeSearch {
    pub ahead: Vec<Visit>,
    pub query: String,
    pub report: RemoteSearchReport,
}

impl View for TreeSearch {
    type V = SearchView;

    open spec fn view(&self) -> SearchView {
        SearchView { ahead: upcoming(self.ahead@), query: self.query@, report: self.report@ }
    }
}

impl TreeSearch {
    /// Make the next visit, unless the search has been cancelled.
    pub fn step(&mut self, cancelled: bool) -> (r: SearchStep)
        ensures
            match old(self)@.next(cancelled) {
                SearchMove::End(SearchEnd::Done(report)) => r == SearchStep::Finished
                    && final(self).report@ == report,
                SearchMove::End(SearchEnd::Cancelled) => r == SearchStep::Failed(
                    NetError::Cancelled,
                ),
                SearchMove::End(SearchEnd::Unsafe) => r matches SearchStep::Failed(e) && (e
                    matches NetError::InvalidPath(m) && m@
                    == "remote path contains a control character (CRLF/NUL injection guard)"@),
                SearchMove::List(path) => (r matches SearchStep::List(p) && p@ == path)
                    && *final(self) == *old(self),
                SearchMove::Go(then) => r == SearchStep::Continue && final(self)@ == then,
            },
    {
        let n: usize = self.ahead.len();
        if n == 0 {
            return SearchStep::Finished;
        }
        proof {
            lemma_upcoming_pop(self.ahead@);
        }
        if let Visit::Enter { path, depth } = &self.ahead[n - 1] {
            if cancelled {
                return SearchStep::Failed(NetError::Cancelled);
            }
            if *depth >= MAX_REMOTE_SEARCH_DEPTH || self.report.directories_scanned
                >= MAX_REMOTE_SEARCH_DIRECTORIES || self.report.entries_scanned
                >= MAX_REMOTE_SEARCH_ENTRIES {
                self.report.truncated = true;
                return SearchStep::Finished;
            }
            return match validate_ftp_path(path.as_str()) {
                Err(e) => SearchStep::Failed(e),
                Ok(()) => SearchStep::List(path.clone()),
            };
        }
        match self.ahead.pop() {
            Some(Visit::Found { path, entry }) => {
                if cancelled {
                    return SearchStep::Failed(NetError::Cancelled);
                }
                if self.report.entries_scanned >= MAX_REMOTE_SEARCH_ENTRIES {
                    self.report.truncated = true;
                    return SearchStep::Finished;
                }
                self.report.entries_scanned = self.report.entries_scanned + 1;
                if remote_search_matches(path.as_str(), self.query.as_str()) {
                    if self.report.hits.len() >= MAX_REMOTE_SEARCH_RESULTS {
                        self.report.truncated = true;
                        return SearchStep::Finished;
                    }
                    let ghost before = self.report.hits@;
                    self.report.hits.push(
                        RemoteSearchHit {
                            path,
                            is_dir: entry.is_dir,
                            size: entry.size,
                            mtime: entry.mtime,
                        },
                    );
                    assert(hit_views(self.report.hits@) =~= hit_views(before).push(
                        hit_of(path@, entry@),
                    ));
                }
                SearchStep::Continue
            },
            _ => SearchStep::Continue,
        }
    }

    /// The directory that the last step asked for has been listed.
    pub fn listed(&mut self, entries: Vec<RemoteEntry>, truncated: bool)
        requires
            old(self)@.next(false) is List,
        ensures
            final(self)@ == old(self)@.listed(entry_views(entries@), truncated),
    {
        proof {
            lemma_upcoming_pop(self.ahead@);
        }
        match self.ahead.pop() {
            Some(Visit::Enter { path, depth }) => {
                self.report.directories_scanned = self.report.directories_scanned + 1;
                if truncated {
                    self.report.truncated = true;
                    self.ahead = Vec::new();
                    if entries.len() > 0 {
                        let first: RemoteEntry = entries[0].clone();
                        let at: String = crate::net::ftp::paths::join_remote_path(
                            path.as_str(),
                            first.name.as_str(),
                        );
                        self.ahead.push(Visit::Found { path: at, entry: first });
                    }
                    assert(self@.ahead =~= old(self)@.listed(
                        entry_views(entries@),
                        truncated,
                    ).ahead);
                } else {
                    push_directory(&mut self.ahead, path.as_str(), depth, entries, false);
                }
            },
            _ => {},
        }
    }
}

/// Start a search below a directory for a normalized query.
pub fn search(root_dir: &str, normalized_query: &str) -> (r: Result<TreeSearch, NetError>)
    ensures
        r is Ok <==> !has_low_byte(traversal_root(root_dir@)),
        r matches Ok(search) ==> search@ == (SearchView {
            ahead: seq![VisitView::Enter { path: traversal_root(root_dir@), depth: 0 }],
            query: normalized_query@,
            report: empty_report(),
        }),
        r matches Err(e) ==> e matches NetError::InvalidPath(m) && m@
            == "remote path contains a control character (CRLF/NUL injection guard)"@,
{
    let root: String = start_directory(root_dir);
    match validate_ftp_path(root.as_str()) {
        Err(e) => {
            return Err(e);
        },
        Ok(()) => {},
    }
    let mut ahead: Vec<Visit> = Vec::new();
    ahead.push(Visit::Enter { path: root, depth: 0 });
    let r = TreeSearch {
        ahead,
        query: normalized_query.to_owned(),
        report: RemoteSearchReport::default(),
    };
    assert(r@.ahead =~= seq![VisitView::Enter { path: traversal_root(root_dir@), depth: 0 }]);
    Ok(r)
}

} // verus!
