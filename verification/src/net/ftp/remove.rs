//! Deleting a remote directory with everything in it.
//!
//! The whole tree is listed before anything is deleted, and then deleted from the bottom up.

use vstd::prelude::*;

use crate::model::entry::{entry_views, EntryView, RemoteEntry};
use crate::net::error::NetError;
use crate::net::ftp::paths::joined_path;
use crate::net::ftp::transport::{ftp_error, FtpFailure};
use crate::net::ftp::traverse::{
    directory_visits, entry_visits, lemma_upcoming_pop, push_directory, upcoming, Visit, VisitView,
    World, MAX_RECURSION_DEPTH, MAX_REMOTE_DIRECTORIES, MAX_REMOTE_FILES,
};
use crate::net::safe::{has_low_byte, validate_ftp_path};

verus! {

/// One path to delete, and whether it is a directory.
#[derive(Debug, PartialEq, Eq)]
pub struct Removal {
    pub path: String,
    pub directory: bool,
}

pub ghost struct RemovalView {
    pub path: Seq<char>,
    pub directory: bool,
}

impl View for Removal {
    type V = RemovalView;

    open spec fn view(&self) -> RemovalView {
        RemovalView { path: self.path@, directory: self.directory }
    }
}

pub open spec fn removal_views(removals: Seq<Removal>) -> Seq<RemovalView> {
    removals.map_values(|r: Removal| r@)
}

/// What may be collected at most.
pub const MAX_REMOVALS: usize = MAX_REMOTE_FILES + MAX_REMOTE_DIRECTORIES;

/// The removals of the entries of a directory and of everything below them.
pub open spec fn removals_among(
    world: World,
    dir: Seq<char>,
    depth: nat,
    entries: Seq<EntryView>,
) -> Seq<RemovalView>
    decreases MAX_RECURSION_DEPTH - depth, 0nat, entries.len(),
{
    if entries.len() == 0 || depth >= MAX_RECURSION_DEPTH {
        Seq::empty()
    } else {
        let path = joined_path(dir, entries[0].name);
        let first = if entries[0].is_dir {
            bottom_up(world, path, depth + 1)
        } else {
            seq![RemovalView { path, directory: false }]
        };
        first + removals_among(world, dir, depth, entries.skip(1))
    }
}

/// Everything in a directory, and then the directory itself.
pub open spec fn bottom_up(world: World, dir: Seq<char>, depth: nat) -> Seq<RemovalView>
    decreases MAX_RECURSION_DEPTH - depth, 1nat, 0nat,
{
    if depth >= MAX_RECURSION_DEPTH {
        Seq::empty()
    } else {
        removals_among(world, dir, depth, world(dir).0).push(
            RemovalView { path: dir, directory: true },
        )
    }
}

/// The removals that the visits lead to.
pub open spec fn removals_ahead(world: World, visits: Seq<VisitView>) -> Seq<RemovalView>
    decreases visits.len(),
{
    if visits.len() == 0 {
        Seq::empty()
    } else {
        let first = match visits[0] {
            VisitView::Enter { path, depth } => bottom_up(world, path, depth),
            VisitView::Found { path, entry } => if entry.is_dir {
                Seq::empty()
            } else {
                seq![RemovalView { path, directory: false }]
            },
            VisitView::Leave { path, .. } => seq![RemovalView { path, directory: true }],
        };
        first + removals_ahead(world, visits.skip(1))
    }
}

proof fn lemma_removals_add(world: World, a: Seq<VisitView>, b: Seq<VisitView>)
    ensures
        removals_ahead(world, a + b) == removals_ahead(world, a) + removals_ahead(world, b),
    decreases a.len(),
{
    if a.len() == 0 {
        assert(a + b =~= b);
    } else {
        lemma_removals_add(world, a.skip(1), b);
        assert((a + b).skip(1) =~= a.skip(1) + b);
        assert((a + b)[0] == a[0]);
    }
    assert(removals_ahead(world, a + b) =~= removals_ahead(world, a) + removals_ahead(world, b));
}

proof fn lemma_entry_removals(world: World, dir: Seq<char>, depth: nat, entries: Seq<EntryView>)
    requires
        depth < MAX_RECURSION_DEPTH,
    ensures
        removals_ahead(world, entry_visits(dir, depth, entries)) == removals_among(
            world,
            dir,
            depth,
            entries,
        ),
    decreases entries.len(),
{
    if entries.len() > 0 {
        lemma_entry_removals(world, dir, depth, entries.skip(1));
        let path = joined_path(dir, entries[0].name);
        let rest = entry_visits(dir, depth, entries.skip(1));
        let visits = entry_visits(dir, depth, entries);
        if entries[0].is_dir {
            let found = seq![VisitView::Found { path, entry: entries[0] }];
            let enter = seq![VisitView::Enter { path, depth: depth + 1 }];
            assert(visits =~= found + (enter + rest));
            assert(visits.skip(1) =~= enter + rest);
            assert((enter + rest).skip(1) =~= rest);
            assert(removals_ahead(world, enter + rest) =~= bottom_up(world, path, depth + 1)
                + removals_ahead(world, rest));
            assert(removals_ahead(world, visits) =~= removals_ahead(world, enter + rest));
        } else {
            assert(visits.skip(1) =~= rest);
        }
    }
}

/// How the collection ends.
pub ghost enum CollectEnd {
    Complete(Seq<RemovalView>),
    Limited,
    CutOff,
    Unsafe,
}

pub ghost struct CollectView {
    pub ahead: Seq<VisitView>,
    pub removals: Seq<RemovalView>,
    pub directories: nat,
}

pub ghost enum CollectMove {
    End(CollectEnd),
    List(Seq<char>),
    Go(CollectView),
}

impl CollectView {
    pub open spec fn next(self) -> CollectMove {
        if self.ahead.len() == 0 {
            CollectMove::End(CollectEnd::Complete(self.removals))
        } else {
            let rest = CollectView { ahead: self.ahead.skip(1), ..self };
            match self.ahead[0] {
                VisitView::Enter { path, depth } => if depth >= MAX_RECURSION_DEPTH
                    || self.directories >= MAX_REMOTE_DIRECTORIES {
                    CollectMove::End(CollectEnd::Limited)
                } else if has_low_byte(path) {
                    CollectMove::End(CollectEnd::Unsafe)
                } else {
                    CollectMove::List(path)
                },
                VisitView::Found { path, entry } => if self.removals.len() >= MAX_REMOVALS {
                    CollectMove::End(CollectEnd::Limited)
                } else if entry.is_dir {
                    CollectMove::Go(rest)
                } else {
                    CollectMove::Go(
                        CollectView {
                            removals: self.removals.push(RemovalView { path, directory: false }),
                            ..rest
                        },
                    )
                },
                VisitView::Leave { path, truncated } => if truncated {
                    CollectMove::End(CollectEnd::CutOff)
                } else {
                    CollectMove::Go(
                        CollectView {
                            removals: self.removals.push(RemovalView { path, directory: true }),
                            ..rest
                        },
                    )
                },
            }
        }
    }

    /// The collection after the directory that it asked for has been listed. Nothing of a listing
    /// that was cut off is looked at.
    pub open spec fn listed(self, entries: Seq<EntryView>, truncated: bool) -> CollectView {
        match self.ahead[0] {
            VisitView::Enter { path, depth } => CollectView {
                ahead: directory_visits(
                    path,
                    depth,
                    if truncated {
                        Seq::empty()
                    } else {
                        entries
                    },
                    truncated,
                ) + self.ahead.skip(1),
                removals: self.removals,
                directories: self.directories + 1,
            },
            _ => self,
        }
    }

    /// How the collection ends on a server that lists its directories as `world` says.
    pub open spec fn outcome(self, world: World) -> CollectEnd
        decreases MAX_REMOTE_DIRECTORIES - self.directories, self.ahead.len(),
    {
        match self.next() {
            CollectMove::End(end) => end,
            CollectMove::List(path) => self.listed(world(path).0, world(path).1).outcome(world),
            CollectMove::Go(then) => then.outcome(world),
        }
    }
}

/// What is deleted is exactly the tree as the server lists it, from the bottom up: everything in a
/// directory goes before the directory itself. If any of it could not be seen, nothing is deleted.
pub proof fn trees_are_deleted_bottom_up(
    collect: CollectView,
    world: World,
    removals: Seq<RemovalView>,
)
    requires
        collect.outcome(world) == CollectEnd::Complete(removals),
    ensures
        removals == collect.removals + removals_ahead(world, collect.ahead),
    decreases MAX_REMOTE_DIRECTORIES - collect.directories, collect.ahead.len(),
{
    match collect.next() {
        CollectMove::End(_) => {
            assert(removals =~= collect.removals + removals_ahead(world, collect.ahead));
        },
        CollectMove::List(path) => {
            let entries = world(path).0;
            let truncated = world(path).1;
            let depth = collect.ahead[0]->Enter_depth;
            let then = collect.listed(entries, truncated);
            let rest = collect.ahead.skip(1);
            let leave = seq![VisitView::Leave { path, truncated }];
            if truncated {
                assert(then.ahead =~= leave + rest);
                assert(then.outcome(world) == CollectEnd::CutOff);
            } else {
                trees_are_deleted_bottom_up(then, world, removals);
                lemma_entry_removals(world, path, depth, entries);
                assert(then.ahead =~= entry_visits(path, depth, entries) + (leave + rest));
                lemma_removals_add(world, entry_visits(path, depth, entries), leave + rest);
                assert((leave + rest).skip(1) =~= rest);
                assert(removals_ahead(world, leave + rest) =~= seq![
                    RemovalView { path, directory: true },
                ] + removals_ahead(world, rest));
                assert(removals_ahead(world, then.ahead) =~= bottom_up(world, path, depth)
                    + removals_ahead(world, rest));
            }
        },
        CollectMove::Go(then) => {
            trees_are_deleted_bottom_up(then, world, removals);
            assert(collect.removals + removals_ahead(world, collect.ahead) =~= then.removals
                + removals_ahead(world, then.ahead));
        },
    }
}

/// Deleting one directory ends with that directory itself.
pub proof fn the_directory_goes_last(world: World, dir: Seq<char>, removals: Seq<RemovalView>)
    requires
        collecting(dir).outcome(world) == CollectEnd::Complete(removals),
    ensures
        removals == bottom_up(world, dir, 0),
        removals.len() > 0,
        removals.last() == (RemovalView { path: dir, directory: true }),
{
    let ahead = seq![VisitView::Enter { path: dir, depth: 0 }];
    let start = CollectView { ahead, removals: Seq::empty(), directories: 0 };
    trees_are_deleted_bottom_up(start, world, removals);
    assert(ahead.skip(1) =~= Seq::empty());
    assert(removals_ahead(world, ahead.skip(1)) =~= Seq::empty());
    assert(removals =~= bottom_up(world, dir, 0));
}

/// What the collection asks for.
#[derive(Debug, PartialEq, Eq)]
pub enum CollectStep {
    /// Go on with the next step.
    Continue,
    /// Change to this directory, list it and hand the entries to `listed`.
    List(String),
    /// Everything has been seen.
    Finished,
    /// Nothing may be deleted.
    Failed(NetError),
}

/// The removals of a tree while they are collected.
#[derive(Debug, PartialEq, Eq)]
pub struct DeleteTree {
    pub ahead: Vec<Visit>,
    pub removals: Vec<Removal>,
    pub directories: usize,
}

impl View for DeleteTree {
    type V = CollectView;

    open spec fn view(&self) -> CollectView {
        CollectView {
            ahead: upcoming(self.ahead@),
            removals: removal_views(self.removals@),
            directories: self.directories as nat,
        }
    }
}

/// What a collection that ended early is reported as.
pub open spec fn collect_error(e: NetError, end: CollectEnd) -> bool {
    match end {
        CollectEnd::Complete(_) => false,
        CollectEnd::Limited => ftp_error(
            e,
            "remote folder exceeds recursive-delete safety limits"@,
        ),
        CollectEnd::CutOff => ftp_error(
            e,
            "remote folder listing was truncated; refusing incomplete delete"@,
        ),
        CollectEnd::Unsafe => e matches NetError::InvalidPath(m) && m@
            == "remote path contains a control character (CRLF/NUL injection guard)"@,
    }
}

fn limited() -> (r: CollectStep)
    ensures
        r matches CollectStep::Failed(e) && collect_error(e, CollectEnd::Limited),
{
    CollectStep::Failed(
        NetError::Ftp("remote folder exceeds recursive-delete safety limits".to_owned()),
    )
}

impl DeleteTree {
    /// Make the next visit. A collection that has failed stays where it is: it never finishes.
    pub fn step(&mut self) -> (r: CollectStep)
        ensures
            match old(self)@.next() {
                CollectMove::End(CollectEnd::Complete(_)) => r == CollectStep::Finished
                    && *final(self) == *old(self),
                CollectMove::End(end) => (r matches CollectStep::Failed(e) && collect_error(e, end))
                    && *final(self) == *old(self),
                CollectMove::List(path) => (r matches CollectStep::List(p) && p@ == path)
                    && *final(self) == *old(self),
                CollectMove::Go(then) => r == CollectStep::Continue && final(self)@ == then,
            },
    {
        let n: usize = self.ahead.len();
        if n == 0 {
            return CollectStep::Finished;
        }
        proof {
            lemma_upcoming_pop(self.ahead@);
        }
        match &self.ahead[n - 1] {
            Visit::Enter { path, depth } => {
                if *depth >= MAX_RECURSION_DEPTH || self.directories >= MAX_REMOTE_DIRECTORIES {
                    return limited();
                }
                return match validate_ftp_path(path.as_str()) {
                    Err(e) => CollectStep::Failed(e),
                    Ok(()) => CollectStep::List(path.clone()),
                };
            },
            Visit::Found { .. } => {
                if self.removals.len() >= MAX_REMOVALS {
                    return limited();
                }
            },
            Visit::Leave { truncated, .. } => {
                if *truncated {
                    return CollectStep::Failed(
                        NetError::Ftp(
                            "remote folder listing was truncated; refusing incomplete delete".to_owned(),
                        ),
                    );
                }
            },
        }
        let ghost before = self.removals@;
        match self.ahead.pop() {
            Some(Visit::Found { path, entry }) => {
                if !entry.is_dir {
                    self.removals.push(Removal { path, directory: false });
                    assert(removal_views(self.removals@) =~= removal_views(before).push(
                        RemovalView { path: path@, directory: false },
                    ));
                }
            },
            Some(Visit::Leave { path, truncated: _ }) => {
                self.removals.push(Removal { path, directory: true });
                assert(removal_views(self.removals@) =~= removal_views(before).push(
                    RemovalView { path: path@, directory: true },
                ));
            },
            _ => {},
        }
        CollectStep::Continue
    }

    /// The directory that the last step asked for has been listed.
    pub fn listed(&mut self, entries: Vec<RemoteEntry>, truncated: bool)
        requires
            old(self)@.next() is List,
        ensures
            final(self)@ == old(self)@.listed(entry_views(entries@), truncated),
    {
        proof {
            lemma_upcoming_pop(self.ahead@);
        }
        match self.ahead.pop() {
            Some(Visit::Enter { path, depth }) => {
                let seen: Vec<RemoteEntry> = if truncated {
                    Vec::new()
                } else {
                    entries
                };
                assert(truncated ==> entry_views(seen@) =~= Seq::empty());
                push_directory(&mut self.ahead, path.as_str(), depth, seen, truncated);
                self.directories = self.directories + 1;
            },
            _ => {},
        }
    }
}

// --- the removals ------------------------------------------------------------------------------

/// What a run over removals asks for.
#[derive(Debug, PartialEq, Eq)]
pub enum RemovalStep {
    RemoveFile(String),
    RemoveDirectory(String),
    Finished(Result<(), NetError>),
}

pub ghost enum RemovalMove {
    Remove(RemovalView),
    /// All is done, or a removal has failed with this text.
    End(Result<(), Seq<char>>),
}

/// Removals that are carried out one after another.
#[derive(Debug, PartialEq, Eq)]
pub struct RemovalRun {
    pub removals: Vec<Removal>,
    pub done: usize,
    pub failure: Option<FtpFailure>,
}

pub ghost struct RunView {
    pub removals: Seq<RemovalView>,
    pub done: nat,
    pub failure: Option<Seq<char>>,
}

impl View for RemovalRun {
    type V = RunView;

    open spec fn view(&self) -> RunView {
        RunView {
            removals: removal_views(self.removals@),
            done: self.done as nat,
            failure: match self.failure {
                Some(failure) => Some(failure.text@),
                None => None,
            },
        }
    }
}

/// What the server answers to the removals, by their positions: the text of a refusal, or nothing.
pub type Answers = spec_fn(int) -> Result<(), Seq<char>>;

impl RunView {
    pub open spec fn of(removals: Seq<RemovalView>) -> RunView {
        RunView { removals, done: 0, failure: None }
    }

    /// The next removal, unless one has failed or none is left.
    pub open spec fn next(self) -> RemovalMove {
        match self.failure {
            Some(text) => RemovalMove::End(Err(text)),
            None => if self.done < self.removals.len() {
                RemovalMove::Remove(self.removals[self.done as int])
            } else {
                RemovalMove::End(Ok(()))
            },
        }
    }

    pub open spec fn answered(self, answer: Result<(), Seq<char>>) -> RunView {
        match answer {
            Ok(()) => RunView { done: self.done + 1, ..self },
            Err(text) => RunView { failure: Some(text), ..self },
        }
    }

    /// What is attempted from here on, and how the run ends.
    pub open spec fn outcome(self, answers: Answers) -> (
        Seq<RemovalView>,
        Result<(), Seq<char>>,
    )
        decreases
                (if self.failure is Some {
                    0
                } else {
                    self.removals.len() - self.done + 1
                }),
    {
        match self.next() {
            RemovalMove::End(end) => (Seq::empty(), end),
            RemovalMove::Remove(removal) => {
                let (attempted, end) = self.answered(answers(self.done as int)).outcome(answers);
                (seq![removal] + attempted, end)
            },
        }
    }
}

impl RemovalRun {
    /// What comes next. Nothing does after a failure: the run is over, with that failure.
    pub fn step(&self) -> (r: RemovalStep)
        ensures
            match self@.next() {
                RemovalMove::Remove(removal) => if removal.directory {
                    r matches RemovalStep::RemoveDirectory(path) && path@ == removal.path
                } else {
                    r matches RemovalStep::RemoveFile(path) && path@ == removal.path
                },
                RemovalMove::End(Ok(())) => r == RemovalStep::Finished(Ok(())),
                RemovalMove::End(Err(text)) => r matches RemovalStep::Finished(Err(e))
                    && ftp_error(e, text),
            },
    {
        match &self.failure {
            Some(failure) => RemovalStep::Finished(Err(failure.clone().into_error())),
            None => {
                if self.done >= self.removals.len() {
                    return RemovalStep::Finished(Ok(()));
                }
                let removal: &Removal = &self.removals[self.done];
                assert(self@.removals[self.done as int] == removal@);
                if removal.directory {
                    RemovalStep::RemoveDirectory(removal.path.clone())
                } else {
                    RemovalStep::RemoveFile(removal.path.clone())
                }
            },
        }
    }

    /// The server has answered to the removal that the last step asked for.
    pub fn answered(&mut self, answer: Result<(), FtpFailure>)
        requires
            old(self)@.next() is Remove,
        ensures
            final(self)@ == old(self)@.answered(
                match answer {
                    Ok(()) => Ok(()),
                    Err(failure) => Err(failure.text@),
                },
            ),
    {
        let count: usize = self.removals.len();
        assert(self.done < count);
        match answer {
            Ok(()) => {
                self.done = self.done + 1;
            },
            Err(failure) => {
                self.failure = Some(failure);
            },
        }
    }
}

/// All removals before a position succeed.
pub open spec fn succeed_before(answers: Answers, from: int, to: int) -> bool {
    forall|i: int| from <= i < to ==> #[trigger] answers(i) is Ok
}

proof fn lemma_run_succeeds(run: RunView, answers: Answers)
    requires
        run.failure is None,
        run.done <= run.removals.len(),
        succeed_before(answers, run.done as int, run.removals.len() as int),
    ensures
        run.outcome(answers) == (run.removals.skip(run.done as int), Ok::<(), Seq<char>>(())),
    decreases run.removals.len() - run.done,
{
    let n = run.done as int;
    if n < run.removals.len() {
        assert(answers(n) is Ok);
        let then = run.answered(answers(n));
        lemma_run_succeeds(then, answers);
        assert(run.removals.skip(n) =~= seq![run.removals[n]] + run.removals.skip(n + 1));
    } else {
        assert(run.removals.skip(n) =~= Seq::empty());
    }
}

proof fn lemma_run_fails(run: RunView, answers: Answers, at: int, text: Seq<char>)
    requires
        run.failure is None,
        run.done <= at < run.removals.len(),
        succeed_before(answers, run.done as int, at),
        answers(at) == Err::<(), Seq<char>>(text),
    ensures
        run.outcome(answers) == (
            run.removals.subrange(run.done as int, at + 1),
            Err::<(), Seq<char>>(text),
        ),
    decreases at - run.done,
{
    let n = run.done as int;
    let then = run.answered(answers(n));
    if n < at {
        assert(answers(n) is Ok);
        lemma_run_fails(then, answers, at, text);
        assert(run.removals.subrange(n, at + 1) =~= seq![run.removals[n]]
            + run.removals.subrange(n + 1, at + 1));
    } else {
        assert(then.outcome(answers) == (Seq::<RemovalView>::empty(), Err::<(), Seq<char>>(text)));
        assert(run.removals.subrange(n, at + 1) =~= seq![run.removals[n]] + Seq::<
            RemovalView,
        >::empty());
    }
}

/// Removals end at the first failure, with that failure: nothing further is removed. Where none
/// fails, all of them are carried out, each once and in order.
pub proof fn removals_end_at_the_first_failure(removals: Seq<RemovalView>, answers: Answers)
    ensures
        succeed_before(answers, 0, removals.len() as int) ==> RunView::of(removals).outcome(answers)
            == (removals, Ok::<(), Seq<char>>(())),
        forall|at: int|
            0 <= at < removals.len() && succeed_before(answers, 0, at) && (#[trigger] answers(
                at,
            )) is Err ==> RunView::of(removals).outcome(answers) == (
                removals.take(at + 1),
                answers(at),
            ),
{
    let run = RunView::of(removals);
    if succeed_before(answers, 0, removals.len() as int) {
        lemma_run_succeeds(run, answers);
        assert(removals.skip(0) =~= removals);
    }
    assert forall|at: int|
        0 <= at < removals.len() && succeed_before(answers, 0, at) && (#[trigger] answers(
            at,
        )) is Err implies run.outcome(answers) == (removals.take(at + 1), answers(at)) by {
        lemma_run_fails(run, answers, at, answers(at)->Err_0);
        assert(removals.subrange(0, at + 1) =~= removals.take(at + 1));
    }
}

/// How the deletion of a directory ends.
pub ghost enum DeleteEnd {
    Deleted,
    /// Not everything could be seen.
    Refused(CollectEnd),
    /// A removal has failed with this text.
    Failed(Seq<char>),
}

/// The collection at the start.
pub open spec fn collecting(dir: Seq<char>) -> CollectView {
    CollectView {
        ahead: seq![VisitView::Enter { path: dir, depth: 0 }],
        removals: Seq::empty(),
        directories: 0,
    }
}

/// What is removed, or attempted, of a directory, and how its deletion ends.
pub open spec fn tree_deletion(world: World, dir: Seq<char>, answers: Answers) -> (
    Seq<RemovalView>,
    DeleteEnd,
) {
    match collecting(dir).outcome(world) {
        CollectEnd::Complete(removals) => match RunView::of(removals).outcome(answers) {
            (attempted, Ok(())) => (attempted, DeleteEnd::Deleted),
            (attempted, Err(text)) => (attempted, DeleteEnd::Failed(text)),
        },
        end => (Seq::empty(), DeleteEnd::Refused(end)),
    }
}

/// A directory is deleted from the bottom up, itself last, or up to the first removal that fails. If
/// any of it could not be seen, nothing is removed at all.
pub proof fn a_directory_is_deleted_up_to_the_first_failure(
    world: World,
    dir: Seq<char>,
    answers: Answers,
)
    ensures
        ({
            let (attempted, end) = tree_deletion(world, dir, answers);
            let tree = bottom_up(world, dir, 0);
            match end {
                DeleteEnd::Refused(_) => attempted.len() == 0,
                DeleteEnd::Deleted => attempted == tree && succeed_before(
                    answers,
                    0,
                    tree.len() as int,
                ) && tree.last() == (RemovalView { path: dir, directory: true }),
                DeleteEnd::Failed(text) => {
                    &&& 0 < attempted.len() <= tree.len()
                    &&& attempted == tree.take(attempted.len() as int)
                    &&& succeed_before(answers, 0, attempted.len() - 1)
                    &&& answers(attempted.len() - 1) == Err::<(), Seq<char>>(text)
                },
            }
        }),
{
    if let CollectEnd::Complete(removals) = collecting(dir).outcome(world) {
        the_directory_goes_last(world, dir, removals);
        removals_end_at_the_first_failure(removals, answers);
        if !succeed_before(answers, 0, removals.len() as int) {
            let at = lemma_first_failure(answers, 0, removals.len() as int);
            assert(RunView::of(removals).outcome(answers) == (removals.take(at + 1), answers(at)));
        }
    }
}

proof fn lemma_first_failure(answers: Answers, from: int, to: int) -> (at: int)
    requires
        from <= to,
        !succeed_before(answers, from, to),
    ensures
        from <= at < to,
        succeed_before(answers, from, at),
        answers(at) is Err,
    decreases to - from,
{
    if from < to && answers(from) is Err {
        from
    } else {
        lemma_first_failure(answers, from + 1, to)
    }
}

impl DeleteTree {
    /// Start to remove what was collected, once everything has been seen.
    pub fn start(self) -> (r: RemovalRun)
        requires
            self@.next() matches CollectMove::End(end) && end is Complete,
        ensures
            self@.next() == CollectMove::End(CollectEnd::Complete(r@.removals)),
            r@ == RunView::of(r@.removals),
    {
        RemovalRun { removals: self.removals, done: 0, failure: None }
    }
}

/// How a remote item is deleted.
#[derive(Debug, PartialEq, Eq)]
pub enum DeletePlan {
    /// Delete this one file.
    File(RemovalRun),
    /// List the tree first.
    Tree(DeleteTree),
}

/// Start deleting a remote file, or a directory with everything in it.
pub fn delete(remote_path: &str, is_dir: bool) -> (r: Result<DeletePlan, NetError>)
    ensures
        r is Ok <==> !has_low_byte(remote_path@),
        r matches Ok(plan) ==> (match plan {
            DeletePlan::File(run) => !is_dir && run@ == RunView::of(
                seq![RemovalView { path: remote_path@, directory: false }],
            ),
            DeletePlan::Tree(tree) => is_dir && tree@ == collecting(remote_path@),
        }),
        r matches Err(e) ==> e matches NetError::InvalidPath(m) && m@
            == "remote path contains a control character (CRLF/NUL injection guard)"@,
{
    match validate_ftp_path(remote_path) {
        Err(e) => {
            return Err(e);
        },
        Ok(()) => {},
    }
    if !is_dir {
        let mut removals: Vec<Removal> = Vec::new();
        removals.push(Removal { path: remote_path.to_owned(), directory: false });
        let run = RemovalRun { removals, done: 0, failure: None };
        assert(run@.removals =~= seq![RemovalView { path: remote_path@, directory: false }]);
        return Ok(DeletePlan::File(run));
    }
    let mut ahead: Vec<Visit> = Vec::new();
    ahead.push(Visit::Enter { path: remote_path.to_owned(), depth: 0 });
    let tree = DeleteTree { ahead, removals: Vec::new(), directories: 0 };
    assert(tree@.ahead =~= seq![VisitView::Enter { path: remote_path@, depth: 0 }]);
    assert(tree@.removals =~= Seq::empty());
    Ok(DeletePlan::Tree(tree))
}

} // verus!
