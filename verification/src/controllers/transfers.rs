//! The panel of transfers: its rows and how the queue is controlled from it.

use std::collections::HashMap;

use vstd::prelude::*;
use vstd::std_specs::hash::group_hash_axioms;

use crate::controllers::state::TransferRowState;
use crate::model::transfer::TransferPriority;
use crate::text::same_text;

verus! {

broadcast use group_hash_axioms;

// --- rows --------------------------------------------------------------------------------------

#[derive(Debug, PartialEq, Eq)]
pub struct TransferRow {
    pub id: i32,
    pub name: String,
    pub direction: String,
    pub state: String,
    pub priority: String,
    pub done: i32,
    pub total: i32,
    pub progress_text: String,
    pub message: String,
}

pub ghost struct RowView {
    pub id: i32,
    pub name: Seq<char>,
    pub direction: Seq<char>,
    pub state: Seq<char>,
    pub priority: Seq<char>,
    pub done: i32,
    pub total: i32,
    pub progress_text: Seq<char>,
    pub message: Seq<char>,
}

impl View for TransferRow {
    type V = RowView;

    open spec fn view(&self) -> RowView {
        RowView {
            id: self.id,
            name: self.name@,
            direction: self.direction@,
            state: self.state@,
            priority: self.priority@,
            done: self.done,
            total: self.total,
            progress_text: self.progress_text@,
            message: self.message@,
        }
    }
}

impl Clone for TransferRow {
    fn clone(&self) -> (r: Self)
        ensures
            r == *self,
    {
        TransferRow {
            id: self.id,
            name: self.name.clone(),
            direction: self.direction.clone(),
            state: self.state.clone(),
            priority: self.priority.clone(),
            done: self.done,
            total: self.total,
            progress_text: self.progress_text.clone(),
            message: self.message.clone(),
        }
    }
}

pub open spec fn row_views(rows: Seq<TransferRow>) -> Seq<RowView> {
    rows.map_values(|r: TransferRow| r@)
}

/// The row is in the state.
pub open spec fn is_in(row: RowView, state: TransferRowState) -> bool {
    row.state == state.word()
}

pub(crate) fn in_state(row: &TransferRow, state: TransferRowState) -> (r: bool)
    ensures
        r == is_in(row@, state),
{
    same_text(row.state.as_str(), state.as_str())
}

/// Nothing more will happen to the transfer.
pub open spec fn is_finished(row: RowView) -> bool {
    ||| is_in(row, TransferRowState::Done)
    ||| is_in(row, TransferRowState::Failed)
    ||| is_in(row, TransferRowState::Cancelled)
    ||| is_in(row, TransferRowState::Recovered)
}

fn finished(row: &TransferRow) -> (r: bool)
    ensures
        r == is_finished(row@),
{
    in_state(row, TransferRowState::Done) || in_state(row, TransferRowState::Failed) || in_state(
        row,
        TransferRowState::Cancelled,
    ) || in_state(row, TransferRowState::Recovered)
}

/// The transfer has not started.
pub open spec fn is_waiting(row: RowView) -> bool {
    is_in(row, TransferRowState::Queued) || is_in(row, TransferRowState::Paused)
}

fn waiting(row: &TransferRow) -> (r: bool)
    ensures
        r == is_waiting(row@),
{
    in_state(row, TransferRowState::Queued) || in_state(row, TransferRowState::Paused)
}

/// The rows of the transfers that go on, in their order.
pub open spec fn unfinished(rows: Seq<RowView>) -> Seq<RowView>
    decreases rows.len(),
{
    if rows.len() == 0 {
        Seq::empty()
    } else if is_finished(rows[0]) {
        unfinished(rows.skip(1))
    } else {
        seq![rows[0]] + unfinished(rows.skip(1))
    }
}

/// The transfers that are finished, the last one first.
pub open spec fn finished_ids(rows: Seq<RowView>) -> Seq<i32>
    decreases rows.len(),
{
    if rows.len() == 0 {
        Seq::empty()
    } else if is_finished(rows[0]) {
        finished_ids(rows.skip(1)).push(rows[0].id)
    } else {
        finished_ids(rows.skip(1))
    }
}

/// The first row of a transfer.
pub open spec fn first_row(rows: Seq<RowView>, id: i32, from: int) -> Option<int>
    decreases rows.len() - from,
{
    if from < 0 || from >= rows.len() {
        None
    } else if rows[from].id == id {
        Some(from)
    } else {
        first_row(rows, id, from + 1)
    }
}

// --- the panel ---------------------------------------------------------------------------------

/// Where each transfer stands among the rows.
pub open spec fn index_of(rows: Seq<RowView>) -> Map<i32, usize>
    decreases rows.len(),
{
    if rows.len() == 0 {
        Map::empty()
    } else {
        index_of(rows.drop_last()).insert(rows.last().id, (rows.len() - 1) as usize)
    }
}

/// The index holds a row of each transfer that the panel shows, and of no other.
pub proof fn the_index_finds_every_transfer(rows: Seq<RowView>, id: i32)
    requires
        rows.len() <= usize::MAX,
    ensures
        index_of(rows).contains_key(id) <==> exists|i: int|
            0 <= i < rows.len() && (#[trigger] rows[i]).id == id,
        index_of(rows).contains_key(id) ==> {
            let i = index_of(rows)[id];
            i < rows.len() && rows[i as int].id == id
        },
    decreases rows.len(),
{
    if rows.len() > 0 {
        let front = rows.drop_last();
        the_index_finds_every_transfer(front, id);
        let n = rows.len() - 1;
        assert(rows[n] == rows.last());
        if rows.last().id != id {
            if index_of(front).contains_key(id) {
                let i = choose|i: int| 0 <= i < front.len() && (#[trigger] front[i]).id == id;
                assert(rows[i].id == id);
                assert(rows[index_of(front)[id] as int] == front[index_of(front)[id] as int]);
            } else {
                assert forall|i: int| 0 <= i < rows.len() implies (#[trigger] rows[i]).id != id by {
                    if i < n {
                        assert(rows[i] == front[i]);
                    }
                }
            }
        }
    }
}

/// Rows of the same transfers have the same index.
proof fn lemma_same_index(a: Seq<RowView>, b: Seq<RowView>)
    requires
        a.len() == b.len(),
        forall|i: int| 0 <= i < a.len() ==> (#[trigger] a[i]).id == b[i].id,
    ensures
        index_of(a) == index_of(b),
    decreases a.len(),
{
    if a.len() > 0 {
        assert forall|i: int| 0 <= i < a.drop_last().len() implies (#[trigger] a.drop_last()[i]).id
            == b.drop_last()[i].id by {
            assert(a.drop_last()[i] == a[i]);
        }
        lemma_same_index(a.drop_last(), b.drop_last());
        assert(a[a.len() - 1].id == b[b.len() - 1].id);
    }
}

/// The rows with one transfer changed, if it is among them.
pub open spec fn changed(rows: Seq<RowView>, id: i32, change: spec_fn(RowView) -> RowView) -> Seq<
    RowView,
> {
    if index_of(rows).contains_key(id) {
        let i = index_of(rows)[id] as int;
        rows.update(i, change(rows[i]))
    } else {
        rows
    }
}

/// The nearest waiting row of the same priority before a row.
pub open spec fn neighbour_before(rows: Seq<RowView>, at: int, from: int) -> Option<int>
    decreases from,
{
    if from <= 0 || from > rows.len() {
        None
    } else if is_waiting(rows[from - 1]) && rows[from - 1].priority == rows[at].priority {
        Some(from - 1)
    } else {
        neighbour_before(rows, at, from - 1)
    }
}

/// The nearest waiting row of the same priority after a row.
pub open spec fn neighbour_after(rows: Seq<RowView>, at: int, from: int) -> Option<int>
    decreases rows.len() - from,
{
    if from < 0 || from >= rows.len() {
        None
    } else if is_waiting(rows[from]) && rows[from].priority == rows[at].priority {
        Some(from)
    } else {
        neighbour_after(rows, at, from + 1)
    }
}

/// What moving a row comes to.
#[derive(Debug, Clone, Copy, PartialEq, Eq, Structural)]
pub enum MoveStep {
    /// The panel shows no such transfer.
    Unknown,
    /// The transfer has started or is over.
    NotWaiting,
    /// It is the first or the last of its priority.
    AtEdge,
    /// The queue has to swap two transfers, which stand in these rows.
    Swap { at: usize, other: usize },
}

pub open spec fn move_of(rows: Seq<RowView>, id: i32, direction: int) -> MoveStep {
    match first_row(rows, id, 0) {
        None => MoveStep::Unknown,
        Some(at) => if !is_waiting(rows[at]) {
            MoveStep::NotWaiting
        } else {
            let found = if direction < 0 {
                neighbour_before(rows, at, at)
            } else {
                neighbour_after(rows, at, at + 1)
            };
            match found {
                None => MoveStep::AtEdge,
                Some(other) => MoveStep::Swap { at: at as usize, other: other as usize },
            }
        },
    }
}

pub open spec fn swapped(rows: Seq<RowView>, a: int, b: int) -> Seq<RowView> {
    rows.update(a, rows[b]).update(b, rows[a])
}

/// The rows of the panel and where each transfer stands among them.
#[derive(Debug)]
pub struct TransferPanel {
    pub rows: Vec<TransferRow>,
    pub index: HashMap<i32, usize>,
}

impl View for TransferPanel {
    type V = Seq<RowView>;

    open spec fn view(&self) -> Seq<RowView> {
        row_views(self.rows@)
    }
}

impl TransferPanel {
    pub open spec fn wf(&self) -> bool {
        self.index@ == index_of(self@)
    }

    pub fn new() -> (r: TransferPanel)
        ensures
            r.wf(),
            r@ == Seq::<RowView>::empty(),
    {
        let r = TransferPanel { rows: Vec::new(), index: HashMap::new() };
        assert(r@ =~= Seq::<RowView>::empty());
        r
    }

    /// Add a row at the end.
    pub fn jobs_push(&mut self, row: TransferRow)
        requires
            old(self).wf(),
        ensures
            final(self).wf(),
            final(self)@ == old(self)@.push(row@),
    {
        let n: usize = self.rows.len();
        let id: i32 = row.id;
        self.index.insert(id, n);
        self.rows.push(row);
        assert(self@ =~= old(self)@.push(row@));
        assert(self@.drop_last() =~= old(self)@);
    }

    /// The row of a transfer, by the index.
    pub fn row_of(&self, id: i32) -> (r: Option<usize>)
        requires
            self.wf(),
        ensures
            r == (if index_of(self@).contains_key(id) {
                Some(index_of(self@)[id])
            } else {
                None
            }),
            r matches Some(i) ==> i < self.rows@.len() && self.rows@[i as int].id == id,
    {
        let n: usize = self.rows.len();
        assert(self@.len() == n);
        proof {
            the_index_finds_every_transfer(self@, id);
        }
        match self.index.get(&id) {
            Some(i) => {
                assert(self@[*i as int] == self.rows@[*i as int]@);
                Some(*i)
            },
            None => None,
        }
    }

    /// Build the index anew.
    pub fn rebuild_transfer_index(&mut self)
        ensures
            final(self).wf(),
            final(self).rows@ == old(self).rows@,
    {
        self.index.clear();
        let mut i: usize = 0;
        assert(self@.take(0) =~= Seq::<RowView>::empty());
        while i < self.rows.len()
            invariant
                i <= self.rows@.len(),
                self.rows@ == old(self).rows@,
                self.index@ == index_of(self@.take(i as int)),
            decreases self.rows@.len() - i,
        {
            let id: i32 = self.rows[i].id;
            assert(self@.take(i + 1).drop_last() =~= self@.take(i as int));
            assert(self@.take(i + 1).last() == self.rows@[i as int]@);
            self.index.insert(id, i);
            i += 1;
        }
        assert(self@.take(self@.len() as int) =~= self@);
    }

    /// Replace a row by one of the same transfer.
    fn set_row(&mut self, i: usize, row: TransferRow)
        requires
            old(self).wf(),
            i < old(self).rows@.len(),
            row.id == old(self).rows@[i as int].id,
        ensures
            final(self).wf(),
            final(self)@ == old(self)@.update(i as int, row@),
    {
        self.rows.set(i, row);
        assert(self@ =~= old(self)@.update(i as int, row@));
        proof {
            lemma_same_index(old(self)@, self@);
        }
    }

    /// Remove the rows of finished transfers. The transfers are forgotten, the last one first.
    pub fn clear_finished(&mut self) -> (forgotten: Vec<i32>)
        requires
            old(self).wf(),
        ensures
            final(self).wf(),
            final(self)@ == unfinished(old(self)@),
            forgotten@ == finished_ids(old(self)@),
    {
        let ghost all = self@;
        let mut forgotten: Vec<i32> = Vec::new();
        let mut i: usize = self.rows.len();
        assert(all.take(all.len() as int) + unfinished(all.skip(all.len() as int)) =~= all);
        while i > 0
            invariant
                i <= all.len(),
                self@ == all.take(i as int) + unfinished(all.skip(i as int)),
                forgotten@ == finished_ids(all.skip(i as int)),
            decreases i,
        {
            let ghost before = self@;
            i -= 1;
            let ghost rest = all.skip(i as int);
            assert(rest[0] == all[i as int]);
            assert(rest.skip(1) =~= all.skip(i + 1));
            assert(before[i as int] == all[i as int]);
            assert(self.rows@.len() == before.len());
            assert(self.rows@[i as int]@ == before[i as int]);
            if finished(&self.rows[i]) {
                forgotten.push(self.rows[i].id);
                self.rows.remove(i);
                assert(self@ =~= before.remove(i as int));
                assert(self@ =~= all.take(i as int) + unfinished(rest));
            } else {
                assert(self@ =~= all.take(i as int) + unfinished(rest));
            }
        }
        assert(all.skip(0) =~= all);
        assert(self@ =~= unfinished(all));
        self.rebuild_transfer_index();
        forgotten
    }

    fn first_row_of(&self, id: i32) -> (r: Option<usize>)
        ensures
            match first_row(self@, id, 0) {
                Some(i) => r == Some(i as usize) && 0 <= i < self.rows@.len(),
                None => r is None,
            },
    {
        let mut i: usize = 0;
        while i < self.rows.len()
            invariant
                i <= self.rows@.len(),
                first_row(self@, id, i as int) == first_row(self@, id, 0),
            decreases self.rows@.len() - i,
        {
            assert(self@[i as int] == self.rows@[i as int]@);
            if self.rows[i].id == id {
                return Some(i);
            }
            i += 1;
        }
        None
    }

    /// Remove the first row of a transfer; whether there was one, and the transfer is forgotten.
    pub fn dismiss(&mut self, id: i32) -> (r: bool)
        requires
            old(self).wf(),
        ensures
            final(self).wf(),
            match first_row(old(self)@, id, 0) {
                Some(i) => r && final(self)@ == old(self)@.remove(i),
                None => !r && final(self)@ == old(self)@,
            },
    {
        let found: Option<usize> = self.first_row_of(id);
        match found {
            Some(i) => {
                self.rows.remove(i);
                assert(self@ =~= old(self)@.remove(i as int));
            },
            None => {},
        }
        self.rebuild_transfer_index();
        found.is_some()
    }

    /// A transfer is being cancelled.
    pub fn cancelling(&mut self, id: i32)
        requires
            old(self).wf(),
        ensures
            final(self).wf(),
            final(self)@ == changed(
                old(self)@,
                id,
                |row: RowView| RowView { message: "cancelling…"@, ..row },
            ),
    {
        match self.row_of(id) {
            None => {},
            Some(i) => {
                let mut row: TransferRow = self.rows[i].clone();
                assert(self@[i as int] == row@);
                row.message = "cancelling…".to_owned();
                self.set_row(i, row);
            },
        }
    }

    /// A transfer is queued again; `progress` is the text for nothing done yet.
    pub fn retrying(&mut self, id: i32, progress: String)
        requires
            old(self).wf(),
        ensures
            final(self).wf(),
            final(self)@ == changed(
                old(self)@,
                id,
                |row: RowView|
                    RowView {
                        done: 0,
                        progress_text: progress@,
                        state: "queued"@,
                        message: if row.direction == "download"@ || row.direction == "upload"@ {
                            "resuming safely…"@
                        } else {
                            "retrying…"@
                        },
                        ..row
                    },
            ),
    {
        match self.row_of(id) {
            None => {},
            Some(i) => {
                let mut row: TransferRow = self.rows[i].clone();
                assert(self@[i as int] == row@);
                let resumable: bool = same_text(row.direction.as_str(), "download") || same_text(
                    row.direction.as_str(),
                    "upload",
                );
                row.done = 0;
                row.progress_text = progress;
                row.state = "queued".to_owned();
                row.message = if resumable {
                    "resuming safely…".to_owned()
                } else {
                    "retrying…".to_owned()
                };
                self.set_row(i, row);
            },
        }
    }

    /// A waiting transfer was paused, or taken up again.
    pub fn pausing(&mut self, id: i32, paused: bool)
        requires
            old(self).wf(),
        ensures
            final(self).wf(),
            final(self)@ == changed(
                old(self)@,
                id,
                |row: RowView|
                    RowView {
                        state: if paused {
                            "paused"@
                        } else {
                            "queued"@
                        },
                        message: if paused {
                            "paused before start"@
                        } else {
                            "waiting"@
                        },
                        ..row
                    },
            ),
    {
        match self.row_of(id) {
            None => {},
            Some(i) => {
                let mut row: TransferRow = self.rows[i].clone();
                assert(self@[i as int] == row@);
                if paused {
                    row.state = "paused".to_owned();
                    row.message = "paused before start".to_owned();
                } else {
                    row.state = "queued".to_owned();
                    row.message = "waiting".to_owned();
                }
                self.set_row(i, row);
            },
        }
    }

    /// A transfer got another priority.
    pub fn prioritizing(&mut self, id: i32, priority: String)
        requires
            old(self).wf(),
        ensures
            final(self).wf(),
            final(self)@ == changed(
                old(self)@,
                id,
                |row: RowView| RowView { priority: priority@, ..row },
            ),
    {
        match self.row_of(id) {
            None => {},
            Some(i) => {
                let mut row: TransferRow = self.rows[i].clone();
                assert(self@[i as int] == row@);
                row.priority = priority;
                self.set_row(i, row);
            },
        }
    }

    /// How far a transfer is; `progress` is the text for that.
    pub fn jobs_set(
        &mut self,
        id: i32,
        state: String,
        done: i32,
        total: i32,
        progress: String,
        message: String,
    )
        requires
            old(self).wf(),
        ensures
            final(self).wf(),
            final(self)@ == changed(
                old(self)@,
                id,
                |row: RowView|
                    RowView {
                        state: state@,
                        done,
                        total,
                        progress_text: progress@,
                        message: message@,
                        ..row
                    },
            ),
    {
        match self.row_of(id) {
            None => {},
            Some(i) => {
                let mut row: TransferRow = self.rows[i].clone();
                assert(self@[i as int] == row@);
                row.state = state;
                row.done = done;
                row.total = total;
                row.progress_text = progress;
                row.message = message;
                self.set_row(i, row);
            },
        }
    }

    fn find_before(&self, at: usize) -> (r: Option<usize>)
        requires
            at < self.rows@.len(),
        ensures
            match neighbour_before(self@, at as int, at as int) {
                Some(i) => r == Some(i as usize) && 0 <= i < at,
                None => r is None,
            },
    {
        let mut from: usize = at;
        while from > 0
            invariant
                from <= at < self.rows@.len(),
                neighbour_before(self@, at as int, from as int) == neighbour_before(
                    self@,
                    at as int,
                    at as int,
                ),
            decreases from,
        {
            assert(self@[from - 1] == self.rows@[from - 1]@);
            assert(self@[at as int] == self.rows@[at as int]@);
            if waiting(&self.rows[from - 1]) && same_text(
                self.rows[from - 1].priority.as_str(),
                self.rows[at].priority.as_str(),
            ) {
                return Some(from - 1);
            }
            from -= 1;
        }
        None
    }

    fn find_after(&self, at: usize) -> (r: Option<usize>)
        requires
            at < self.rows@.len(),
        ensures
            match neighbour_after(self@, at as int, at + 1) {
                Some(i) => r == Some(i as usize) && at < i < self.rows@.len(),
                None => r is None,
            },
    {
        let n: usize = self.rows.len();
        let mut from: usize = at + 1;
        while from < n
            invariant
                at < from <= n == self.rows@.len(),
                neighbour_after(self@, at as int, from as int) == neighbour_after(
                    self@,
                    at as int,
                    at + 1,
                ),
            decreases self.rows@.len() - from,
        {
            assert(self@[from as int] == self.rows@[from as int]@);
            assert(self@[at as int] == self.rows@[at as int]@);
            if waiting(&self.rows[from]) && same_text(
                self.rows[from].priority.as_str(),
                self.rows[at].priority.as_str(),
            ) {
                return Some(from);
            }
            from += 1;
        }
        None
    }

    /// What moving a transfer in the queue comes to: a waiting transfer changes places with its
    /// neighbour of the same priority.
    pub fn plan_move(&self, id: i32, direction: i32) -> (r: MoveStep)
        ensures
            r == move_of(self@, id, direction as int),
            r matches MoveStep::Swap { at, other } ==> at < self@.len() && other < self@.len(),
    {
        let n: usize = self.rows.len();
        assert(self@.len() == n);
        let at: usize = match self.first_row_of(id) {
            None => {
                return MoveStep::Unknown;
            },
            Some(i) => i,
        };
        assert(self@[at as int] == self.rows@[at as int]@);
        if !waiting(&self.rows[at]) {
            return MoveStep::NotWaiting;
        }
        let found: Option<usize> = if direction < 0 {
            self.find_before(at)
        } else {
            self.find_after(at)
        };
        match found {
            None => MoveStep::AtEdge,
            Some(other) => MoveStep::Swap { at, other },
        }
    }

    /// The queue has swapped two transfers; so do their rows.
    pub fn swap_rows(&mut self, at: usize, other: usize)
        requires
            at < old(self)@.len(),
            other < old(self)@.len(),
        ensures
            final(self).wf(),
            final(self)@ == swapped(old(self)@, at as int, other as int),
    {
        let a: TransferRow = self.rows[at].clone();
        let b: TransferRow = self.rows[other].clone();
        self.rows.set(at, b);
        self.rows.set(other, a);
        assert(self@ =~= swapped(old(self)@, at as int, other as int));
        self.rebuild_transfer_index();
    }
}

/// The priority that a word stands for.
pub fn transfer_priority(value: &str) -> (r: Option<TransferPriority>)
    ensures
        r == (if value@ == "low"@ {
            Some(TransferPriority::Low)
        } else if value@ == "normal"@ {
            Some(TransferPriority::Normal)
        } else if value@ == "high"@ {
            Some(TransferPriority::High)
        } else {
            None
        }),
{
    if same_text(value, "low") {
        Some(TransferPriority::Low)
    } else if same_text(value, "normal") {
        Some(TransferPriority::Normal)
    } else if same_text(value, "high") {
        Some(TransferPriority::High)
    } else {
        None
    }
}

// --- laws --------------------------------------------------------------------------------------

/// Clearing keeps no finished transfer and drops no other, and it forgets exactly those that it
/// drops.
pub proof fn clearing_drops_finished_transfers_alone(rows: Seq<RowView>)
    ensures
        forall|i: int|
            0 <= i < unfinished(rows).len() ==> !is_finished(#[trigger] unfinished(rows)[i]),
        forall|row: RowView|
            #![trigger unfinished(rows).contains(row)]
            unfinished(rows).contains(row) <==> rows.contains(row) && !is_finished(row),
        unfinished(rows).len() + finished_ids(rows).len() == rows.len(),
        forall|id: i32|
            #![trigger finished_ids(rows).contains(id)]
            finished_ids(rows).contains(id) <==> exists|i: int|
                0 <= i < rows.len() && is_finished(#[trigger] rows[i]) && rows[i].id == id,
    decreases rows.len(),
{
    if rows.len() > 0 {
        let rest = rows.skip(1);
        clearing_drops_finished_transfers_alone(rest);
        let kept = unfinished(rows);
        let gone = finished_ids(rows);
        if !is_finished(rows[0]) {
            assert forall|i: int| 0 <= i < kept.len() implies !is_finished(#[trigger] kept[i]) by {
                if i > 0 {
                    assert(kept[i] == unfinished(rest)[i - 1]);
                }
            }
        }
        assert forall|row: RowView|
            #![trigger unfinished(rows).contains(row)]
            unfinished(rows).contains(row) <==> rows.contains(row) && !is_finished(row) by {
            if kept.contains(row) {
                let i = choose|i: int| 0 <= i < kept.len() && kept[i] == row;
                if is_finished(rows[0]) {
                    assert(unfinished(rest).contains(row));
                    let j = choose|j: int| 0 <= j < rest.len() && rest[j] == row;
                    assert(rows[j + 1] == row);
                } else if i > 0 {
                    assert(unfinished(rest)[i - 1] == row);
                    assert(unfinished(rest).contains(row));
                    let j = choose|j: int| 0 <= j < rest.len() && rest[j] == row;
                    assert(rows[j + 1] == row);
                } else {
                    assert(rows[0] == row);
                }
            }
            if rows.contains(row) && !is_finished(row) {
                let j = choose|j: int| 0 <= j < rows.len() && rows[j] == row;
                if j == 0 {
                    assert(kept[0] == row);
                } else {
                    assert(rest[j - 1] == row);
                    assert(rest.contains(row));
                    assert(unfinished(rest).contains(row));
                    let k = choose|k: int|
                        0 <= k < unfinished(rest).len() && unfinished(rest)[k] == row;
                    if is_finished(rows[0]) {
                        assert(kept[k] == row);
                    } else {
                        assert(kept[k + 1] == row);
                    }
                }
            }
        }
        assert forall|id: i32|
            #![trigger finished_ids(rows).contains(id)]
            finished_ids(rows).contains(id) <==> exists|i: int|
                0 <= i < rows.len() && is_finished(#[trigger] rows[i]) && rows[i].id == id by {
            if gone.contains(id) {
                let k = choose|k: int| 0 <= k < gone.len() && gone[k] == id;
                if is_finished(rows[0]) && k == gone.len() - 1 {
                    assert(is_finished(rows[0]) && rows[0].id == id);
                } else {
                    assert(finished_ids(rest)[k] == id);
                    assert(finished_ids(rest).contains(id));
                    let j = choose|j: int|
                        0 <= j < rest.len() && is_finished(#[trigger] rest[j]) && rest[j].id == id;
                    assert(rows[j + 1] == rest[j]);
                }
            }
            if exists|i: int|
                0 <= i < rows.len() && is_finished(#[trigger] rows[i]) && rows[i].id == id {
                let i = choose|i: int|
                    0 <= i < rows.len() && is_finished(#[trigger] rows[i]) && rows[i].id == id;
                if i == 0 {
                    assert(gone[gone.len() - 1] == id);
                } else {
                    assert(rest[i - 1] == rows[i]);
                    assert(finished_ids(rest).contains(id));
                    let k = choose|k: int|
                        0 <= k < finished_ids(rest).len() && finished_ids(rest)[k] == id;
                    assert(gone[k] == id);
                }
            }
        }
    }
}

proof fn lemma_first_row(rows: Seq<RowView>, id: i32, from: int)
    requires
        0 <= from <= rows.len(),
    ensures
        match first_row(rows, id, from) {
            Some(i) => from <= i < rows.len() && rows[i].id == id && forall|j: int|
                from <= j < i ==> (#[trigger] rows[j]).id != id,
            None => forall|j: int| from <= j < rows.len() ==> (#[trigger] rows[j]).id != id,
        },
    decreases rows.len() - from,
{
    if from < rows.len() && rows[from].id != id {
        lemma_first_row(rows, id, from + 1);
    }
}

/// A row that could change places with the one at `at`.
pub open spec fn could_swap(rows: Seq<RowView>, at: int, i: int) -> bool {
    is_waiting(rows[i]) && rows[i].priority == rows[at].priority
}

proof fn lemma_neighbour_before(rows: Seq<RowView>, at: int, from: int)
    requires
        0 <= from <= at < rows.len(),
    ensures
        match neighbour_before(rows, at, from) {
            Some(i) => 0 <= i < from && could_swap(rows, at, i) && forall|j: int|
                i < j < from ==> !#[trigger] could_swap(rows, at, j),
            None => forall|j: int| 0 <= j < from ==> !#[trigger] could_swap(rows, at, j),
        },
    decreases from,
{
    if from > 0 {
        assert(could_swap(rows, at, from - 1) == (is_waiting(rows[from - 1])
            && rows[from - 1].priority == rows[at].priority));
        if !could_swap(rows, at, from - 1) {
            lemma_neighbour_before(rows, at, from - 1);
        }
    }
}

proof fn lemma_neighbour_after(rows: Seq<RowView>, at: int, from: int, to: int)
    requires
        0 <= at < rows.len(),
        0 <= from <= to < rows.len(),
        could_swap(rows, at, to),
        forall|j: int| from <= j < to ==> !#[trigger] could_swap(rows, at, j),
    ensures
        neighbour_after(rows, at, from) == Some(to),
    decreases to - from,
{
    if from < to {
        assert(!could_swap(rows, at, from));
        lemma_neighbour_after(rows, at, from + 1, to);
    }
}

/// No two rows show the same transfer.
pub open spec fn distinct_rows(rows: Seq<RowView>) -> bool {
    forall|i: int, j: int|
        0 <= i < j < rows.len() ==> (#[trigger] rows[i]).id != (#[trigger] rows[j]).id
}

/// Moving a transfer up and down again leaves the queue as it was.
pub proof fn moving_up_and_down_changes_nothing(rows: Seq<RowView>, id: i32)
    requires
        rows.len() <= usize::MAX,
        distinct_rows(rows),
        move_of(rows, id, -1) is Swap,
    ensures
        ({
            let at = move_of(rows, id, -1)->at as int;
            let other = move_of(rows, id, -1)->other as int;
            let after = swapped(rows, at, other);
            &&& 0 <= other < at < rows.len()
            &&& move_of(after, id, 1) == MoveStep::Swap { at: other as usize, other: at as usize }
            &&& swapped(after, other, at) == rows
        }),
{
    lemma_first_row(rows, id, 0);
    let at = first_row(rows, id, 0)->0;
    lemma_neighbour_before(rows, at, at);
    let other = neighbour_before(rows, at, at)->0;
    assert(could_swap(rows, at, other));
    let after = swapped(rows, at, other);
    assert(after[other] == rows[at]);
    assert(after[at] == rows[other]);
    lemma_first_row(after, id, 0);
    let found = first_row(after, id, 0);
    assert(after[other].id == id);
    assert(found is Some);
    let k = found->0;
    if k != other {
        assert(k < other);
        assert(after[k] == rows[k]);
        assert(rows[k].id == id && rows[at].id == id);
        assert(rows[k].id != rows[at].id);
    }
    assert(could_swap(after, other, at));
    assert forall|j: int| other + 1 <= j < at implies !#[trigger] could_swap(after, other, j) by {
        assert(after[j] == rows[j]);
        assert(!could_swap(rows, at, j));
    }
    lemma_neighbour_after(after, other, other + 1, at);
    assert(swapped(after, other, at) =~= rows);
}

/// A move changes no row but the two that change places, and these have the same priority and have
/// not started.
pub proof fn moves_stay_within_a_priority(rows: Seq<RowView>, id: i32, direction: int)
    requires
        rows.len() <= usize::MAX,
        move_of(rows, id, direction) is Swap,
    ensures
        ({
            let at = move_of(rows, id, direction)->at as int;
            let other = move_of(rows, id, direction)->other as int;
            let after = swapped(rows, at, other);
            &&& 0 <= at < rows.len() && 0 <= other < rows.len() && at != other
            &&& rows[at].id == id
            &&& is_waiting(rows[at]) && is_waiting(rows[other])
            &&& rows[at].priority == rows[other].priority
            &&& after.len() == rows.len()
            &&& forall|i: int|
                0 <= i < rows.len() && i != at && i != other ==> #[trigger] after[i] == rows[i]
        }),
{
    lemma_first_row(rows, id, 0);
    let at = first_row(rows, id, 0)->0;
    if direction < 0 {
        lemma_neighbour_before(rows, at, at);
    } else {
        lemma_found_after(rows, at, at + 1);
    }
}

proof fn lemma_found_after(rows: Seq<RowView>, at: int, from: int)
    requires
        0 <= at < rows.len(),
        0 <= from,
    ensures
        neighbour_after(rows, at, from) matches Some(i) ==> from <= i < rows.len() && could_swap(
            rows,
            at,
            i,
        ),
    decreases rows.len() - from,
{
    if from < rows.len() && !could_swap(rows, at, from) {
        lemma_found_after(rows, at, from + 1);
    }
}

} // verus!
