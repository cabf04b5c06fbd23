//! What happens to the rows of the transfer panel, and what is told of them.

use vstd::prelude::*;

use crate::controllers::state::TransferRowState;
use crate::controllers::transfer_report::{
    active_done, active_total, concurrency_limit, count_in, count_rows, dock_progress, item_views,
    move_outcome, parse_mbps, pause_outcome, priority_outcome, resolve_transfer_error,
    retry_outcome, transfer_counts, transfer_error_category, transfer_report,
    transfer_summary_from_rows, DockProgress, IdSource, RetryAnswer, TransferReport,
};
use crate::controllers::transfers::{
    distinct_rows, first_row, index_of, neighbour_after, neighbour_before, row_views,
    the_index_finds_every_transfer, transfer_priority, unfinished, MoveStep, RowView, TransferPanel,
    TransferRow,
};
use crate::model::transfer::TransferPriority;
use crate::numerals::{decimal, decimal_reads_back};
use crate::pieces::{contains_text, joined, lemma_trimmed_fixed};
use crate::text::{ascii_lowercase, is_white_space};

verus! {

// --- the panel ---------------------------------------------------------------------------------

/// Only the rows of one transfer are different, and they show the same transfer as before.
pub open spec fn only_row_of(before: Seq<RowView>, after: Seq<RowView>, id: i32) -> bool {
    &&& after.len() == before.len()
    &&& forall|i: int| 0 <= i < before.len() && (#[trigger] before[i]).id != id ==> after[i] == before[i]
    &&& forall|i: int|
        0 <= i < before.len() ==> (#[trigger] after[i]).id == before[i].id && after[i].name
            == before[i].name && after[i].direction == before[i].direction
}

proof fn lemma_row_of(rows: Seq<RowView>, id: i32, i: int)
    requires
        rows.len() <= usize::MAX,
        distinct_rows(rows),
        0 <= i < rows.len(),
        rows[i].id == id,
    ensures
        index_of(rows).contains_key(id),
        index_of(rows)[id] == i,
{
    the_index_finds_every_transfer(rows, id);
}

/// A new row comes last; the others stay.
pub proof fn new_rows_come_last(panel: &mut TransferPanel, row: TransferRow)
    requires
        old(panel).wf(),
        call_ensures(TransferPanel::jobs_push, (panel, row), ()),
    ensures
        final(panel)@.len() == old(panel)@.len() + 1,
        final(panel)@[old(panel)@.len() as int] == row@,
        forall|i: int| 0 <= i < old(panel)@.len() ==> final(panel)@[i] == #[trigger] old(panel)@[i],
{
}

/// A report of progress changes the state, the numbers and the texts of its transfer, and nothing
/// else.
pub proof fn progress_goes_to_its_row(
    panel: &mut TransferPanel,
    id: i32,
    state: String,
    done: i32,
    total: i32,
    progress: String,
    message: String,
    i: int,
)
    requires
        old(panel).wf(),
        distinct_rows(old(panel)@),
        call_ensures(TransferPanel::jobs_set, (panel, id, state, done, total, progress, message), ()),
        0 <= i < old(panel)@.len(),
        old(panel)@[i].id == id,
    ensures
        only_row_of(old(panel)@, final(panel)@, id),
        final(panel)@[i].state == state@,
        final(panel)@[i].done == done,
        final(panel)@[i].total == total,
        final(panel)@[i].progress_text == progress@,
        final(panel)@[i].message == message@,
        final(panel)@[i].priority == old(panel)@[i].priority,
{
    assert(old(panel).rows@.len() == old(panel).rows.len());
    lemma_row_of(old(panel)@, id, i);
}

/// A transfer that is tried again is queued with nothing done, and keeps its size and priority.
pub proof fn retries_start_over(panel: &mut TransferPanel, id: i32, progress: String, i: int)
    requires
        old(panel).wf(),
        distinct_rows(old(panel)@),
        call_ensures(TransferPanel::retrying, (panel, id, progress), ()),
        0 <= i < old(panel)@.len(),
        old(panel)@[i].id == id,
    ensures
        only_row_of(old(panel)@, final(panel)@, id),
        final(panel)@[i].state == "queued"@,
        final(panel)@[i].done == 0,
        final(panel)@[i].total == old(panel)@[i].total,
        final(panel)@[i].progress_text == progress@,
        final(panel)@[i].priority == old(panel)@[i].priority,
        old(panel)@[i].direction == "download"@ || old(panel)@[i].direction == "upload"@
            ==> final(panel)@[i].message == "resuming safely…"@,
{
    assert(old(panel).rows@.len() == old(panel).rows.len());
    lemma_row_of(old(panel)@, id, i);
}

/// A transfer is paused and taken up again; its numbers stay.
pub proof fn pauses_hold_their_row(panel: &mut TransferPanel, id: i32, paused: bool, i: int)
    requires
        old(panel).wf(),
        distinct_rows(old(panel)@),
        call_ensures(TransferPanel::pausing, (panel, id, paused), ()),
        0 <= i < old(panel)@.len(),
        old(panel)@[i].id == id,
    ensures
        only_row_of(old(panel)@, final(panel)@, id),
        paused ==> final(panel)@[i].state == "paused"@,
        !paused ==> final(panel)@[i].state == "queued"@,
        final(panel)@[i].done == old(panel)@[i].done,
        final(panel)@[i].total == old(panel)@[i].total,
        final(panel)@[i].priority == old(panel)@[i].priority,
{
    assert(old(panel).rows@.len() == old(panel).rows.len());
    lemma_row_of(old(panel)@, id, i);
}

/// A transfer gets the priority that was chosen; nothing else of its
/// row changes.
pub proof fn priorities_go_to_their_row(
    panel: &mut TransferPanel,
    id: i32,
    priority: String,
    i: int,
)
    requires
        old(panel).wf(),
        distinct_rows(old(panel)@),
        call_ensures(TransferPanel::prioritizing, (panel, id, priority), ()),
        0 <= i < old(panel)@.len(),
        old(panel)@[i].id == id,
    ensures
        only_row_of(old(panel)@, final(panel)@, id),
        final(panel)@[i] == (RowView { priority: priority@, ..old(panel)@[i] }),
{
    assert(old(panel).rows@.len() == old(panel).rows.len());
    lemma_row_of(old(panel)@, id, i);
}

/// A transfer that is being cancelled says so, and nothing else of its row changes.
pub proof fn cancellations_are_shown(panel: &mut TransferPanel, id: i32, i: int)
    requires
        old(panel).wf(),
        distinct_rows(old(panel)@),
        call_ensures(TransferPanel::cancelling, (panel, id), ()),
        0 <= i < old(panel)@.len(),
        old(panel)@[i].id == id,
    ensures
        only_row_of(old(panel)@, final(panel)@, id),
        final(panel)@[i] == (RowView { message: "cancelling…"@, ..old(panel)@[i] }),
{
    assert(old(panel).rows@.len() == old(panel).rows.len());
    lemma_row_of(old(panel)@, id, i);
}

/// What happens to a transfer that the panel does not show changes nothing.
pub proof fn unknown_transfers_change_nothing(panel: &mut TransferPanel, id: i32, paused: bool)
    requires
        old(panel).wf(),
        call_ensures(TransferPanel::pausing, (panel, id, paused), ()),
        forall|i: int| 0 <= i < old(panel)@.len() ==> (#[trigger] old(panel)@[i]).id != id,
    ensures
        final(panel)@ == old(panel)@,
{
    assert(old(panel).rows@.len() == old(panel).rows.len());
    the_index_finds_every_transfer(old(panel)@, id);
}

proof fn lemma_first(rows: Seq<RowView>, id: i32, from: int)
    requires
        0 <= from <= rows.len(),
    ensures
        match first_row(rows, id, from) {
            Some(i) => from <= i < rows.len() && rows[i].id == id && forall|j: int|
                from <= j < i ==> (#[trigger] rows[j]).id != id,
            None => forall|j: int| from <= j < rows.len() ==> (#[trigger] rows[j]).id != id,
        },
    decreases rows.len() - from,
{
    if from < rows.len() && rows[from].id != id {
        lemma_first(rows, id, from + 1);
    }
}

/// A dismissed row is gone, and the others stay in their order.
pub proof fn dismissed_rows_are_gone(panel: &mut TransferPanel, id: i32, r: bool, i: int)
    requires
        old(panel).wf(),
        distinct_rows(old(panel)@),
        call_ensures(TransferPanel::dismiss, (panel, id), r),
        0 <= i < old(panel)@.len(),
        old(panel)@[i].id == id,
    ensures
        r,
        final(panel)@ == old(panel)@.remove(i),
{
    lemma_first(old(panel)@, id, 0);
}

/// Clearing takes out the rows that are done, failed, cancelled or recovered, and leaves those that
/// run, wait or are paused.
pub proof fn only_what_is_over_is_cleared(panel: &mut TransferPanel, forgotten: Vec<i32>, row: RowView)
    requires
        old(panel).wf(),
        call_ensures(TransferPanel::clear_finished, (panel,), forgotten),
        old(panel)@.contains(row),
    ensures
        row.state == "active"@ || row.state == "queued"@ || row.state == "paused"@
            ==> final(panel)@.contains(row),
        row.state == "done"@ || row.state == "failed"@ || row.state == "cancelled"@ || row.state
            == "recovered"@ ==> !final(panel)@.contains(row) && forgotten@.contains(row.id),
{
    lemma_state_words();
    crate::controllers::transfers::clearing_drops_finished_transfers_alone(old(panel)@);
    assert(unfinished(old(panel)@).contains(row) <==> old(panel)@.contains(row)
        && !crate::controllers::transfers::is_finished(row));
    let i = choose|i: int| 0 <= i < old(panel)@.len() && old(panel)@[i] == row;
    assert(crate::controllers::transfers::finished_ids(old(panel)@).contains(row.id)
        || !crate::controllers::transfers::is_finished(old(panel)@[i]));
}

proof fn lemma_state_words()
    ensures
        "active"@ != "queued"@,
        "active"@ != "paused"@,
        "active"@ != "done"@,
        "active"@ != "failed"@,
        "active"@ != "cancelled"@,
        "active"@ != "recovered"@,
        "queued"@ != "paused"@,
        "queued"@ != "done"@,
        "queued"@ != "failed"@,
        "queued"@ != "cancelled"@,
        "queued"@ != "recovered"@,
        "paused"@ != "done"@,
        "paused"@ != "failed"@,
        "paused"@ != "cancelled"@,
        "paused"@ != "recovered"@,
        "done"@ != "failed"@,
        "done"@ != "cancelled"@,
        "done"@ != "recovered"@,
        "failed"@ != "cancelled"@,
        "failed"@ != "recovered"@,
        "cancelled"@ != "recovered"@,
{
    reveal_strlit("active");
    reveal_strlit("queued");
    reveal_strlit("paused");
    reveal_strlit("done");
    reveal_strlit("failed");
    reveal_strlit("cancelled");
    reveal_strlit("recovered");
    assert("active"@[0] == 'a');
    assert("queued"@[0] == 'q');
    assert("paused"@[0] == 'p');
    assert("done"@[0] == 'd');
    assert("failed"@[0] == 'f');
    assert("cancelled"@[0] == 'c');
    assert("recovered"@[0] == 'r');
}

/// The row waits to be started.
pub open spec fn waits(row: RowView) -> bool {
    row.state == "queued"@ || row.state == "paused"@
}

proof fn lemma_before(rows: Seq<RowView>, at: int, from: int)
    requires
        0 <= from <= at < rows.len(),
    ensures
        match neighbour_before(rows, at, from) {
            Some(i) => 0 <= i < from && waits(rows[i]) && rows[i].priority == rows[at].priority
                && forall|j: int|
                i < j < from ==> !(waits(#[trigger] rows[j]) && rows[j].priority == rows[at].priority),
            None => forall|j: int|
                0 <= j < from ==> !(waits(#[trigger] rows[j]) && rows[j].priority == rows[at].priority),
        },
    decreases from,
{
    if from > 0 && !(waits(rows[from - 1]) && rows[from - 1].priority == rows[at].priority) {
        lemma_before(rows, at, from - 1);
    }
}

proof fn lemma_after(rows: Seq<RowView>, at: int, from: int)
    requires
        0 <= at < rows.len(),
        0 <= from <= rows.len(),
    ensures
        match neighbour_after(rows, at, from) {
            Some(i) => from <= i < rows.len() && waits(rows[i]) && rows[i].priority
                == rows[at].priority && forall|j: int|
                from <= j < i ==> !(waits(#[trigger] rows[j]) && rows[j].priority == rows[at].priority),
            None => forall|j: int|
                from <= j < rows.len() ==> !(waits(#[trigger] rows[j]) && rows[j].priority
                    == rows[at].priority),
        },
    decreases rows.len() - from,
{
    if from < rows.len() && !(waits(rows[from]) && rows[from].priority == rows[at].priority) {
        lemma_after(rows, at, from + 1);
    }
}

/// A waiting transfer changes places with the nearest waiting one of its priority, before it for a
/// move up and after it for a move down; one that has started is not moved.
pub proof fn moves_go_to_the_nearest_neighbour(
    panel: &TransferPanel,
    id: i32,
    direction: i32,
    r: MoveStep,
    i: int,
)
    requires
        distinct_rows(panel@),
        call_ensures(TransferPanel::plan_move, (panel, id, direction), r),
        0 <= i < panel@.len(),
        panel@[i].id == id,
    ensures
        !waits(panel@[i]) ==> r is NotWaiting,
        waits(panel@[i]) ==> r is AtEdge || r is Swap,
        r matches MoveStep::Swap { at, other } ==> at == i && other < panel@.len() && waits(
            panel@[other as int],
        ) && panel@[other as int].priority == panel@[i].priority,
        r matches MoveStep::Swap { at, other } ==> (direction < 0 ==> other < i && forall|j: int|
            other < j < i ==> !(waits(#[trigger] panel@[j]) && panel@[j].priority
                == panel@[i].priority)),
        r matches MoveStep::Swap { at, other } ==> (direction >= 0 ==> other > i && forall|j: int|
            i < j < other ==> !(waits(#[trigger] panel@[j]) && panel@[j].priority
                == panel@[i].priority)),
        r is AtEdge && direction < 0 ==> forall|j: int|
            0 <= j < i ==> !(waits(#[trigger] panel@[j]) && panel@[j].priority == panel@[i].priority),
        r is AtEdge && direction >= 0 ==> forall|j: int|
            i < j < panel@.len() ==> !(waits(#[trigger] panel@[j]) && panel@[j].priority
                == panel@[i].priority),
{
    assert(panel.rows@.len() == panel.rows.len());
    lemma_first(panel@, id, 0);
    lemma_before(panel@, i, i);
    lemma_after(panel@, i, i + 1);
}

/// Two rows that change places do just that.
pub proof fn swapped_rows_change_places(panel: &mut TransferPanel, at: usize, other: usize)
    requires
        at < old(panel)@.len(),
        other < old(panel)@.len(),
        call_ensures(TransferPanel::swap_rows, (panel, at, other), ()),
    ensures
        final(panel)@.len() == old(panel)@.len(),
        final(panel)@[at as int] == old(panel)@[other as int],
        final(panel)@[other as int] == old(panel)@[at as int],
        forall|i: int|
            0 <= i < old(panel)@.len() && i != at && i != other ==> #[trigger] final(panel)@[i]
                == old(panel)@[i],
{
}

/// The words of the priorities stand for them.
pub proof fn priority_words_are_read(value: &str, r: Option<TransferPriority>)
    requires
        call_ensures(transfer_priority, (value,), r),
    ensures
        value@ == "low"@ <==> r == Some(TransferPriority::Low),
        value@ == "normal"@ <==> r == Some(TransferPriority::Normal),
        value@ == "high"@ <==> r == Some(TransferPriority::High),
{
    reveal_strlit("low");
    reveal_strlit("normal");
    reveal_strlit("high");
    assert("low"@.len() == 3);
    assert("normal"@.len() == 6);
    assert("high"@.len() == 4);
}

// --- what is told ------------------------------------------------------------------------------

/// A further row is counted in its own state, and in no other.
pub proof fn rows_are_counted_by_their_state(rows: Seq<RowView>, row: RowView, state: TransferRowState)
    ensures
        count_in(Seq::empty(), state) == 0,
        row.state == state.word() ==> count_in(rows.push(row), state) == count_in(rows, state) + 1,
        row.state != state.word() ==> count_in(rows.push(row), state) == count_in(rows, state),
{
    assert(rows.push(row).drop_last() =~= rows);
}

/// The numbers beside the summary are those of the rows that are done, and of those that run, wait or
/// are paused.
pub proof fn counts_are_of_done_and_coming(rows: &Vec<TransferRow>, r: (usize, usize), n: usize, state: TransferRowState)
    requires
        call_ensures(transfer_counts, (rows,), r),
        call_ensures(count_rows, (rows, state), n),
    ensures
        state == TransferRowState::Done ==> r.0 == n,
        r.1 == count_in(row_views(rows@), TransferRowState::Active) + count_in(
            row_views(rows@),
            TransferRowState::Queued,
        ) + count_in(row_views(rows@), TransferRowState::Paused),
        n == count_in(row_views(rows@), state),
{
}

/// The summary leads with how many of all transfers are done.
pub proof fn summaries_lead_with_what_is_done(rows: &Vec<TransferRow>, speed: Option<&str>, r: String)
    requires
        call_ensures(transfer_summary_from_rows, (rows, speed), r),
        rows@.len() > 0,
        count_in(row_views(rows@), TransferRowState::Done) == rows@.len(),
    ensures
        r@ == decimal(rows@.len()) + " / "@ + decimal(rows@.len()) + " done"@,
{
    let v = row_views(rows@);
    crate::controllers::transfer_report::states_are_exclusive(v);
    let lead = decimal(v.len()) + " / "@ + decimal(v.len()) + " done"@;
    let parts = crate::controllers::transfer_report::summary_parts(
        v,
        match speed {
            Some(s) => Some(s@),
            None => None,
        },
    );
    assert(parts =~= seq![lead]);
    assert(parts.drop_last() =~= Seq::<Seq<char>>::empty());
    reveal_with_fuel(joined, 2);
}

/// Each part of the summary is the number of transfers in its state.
pub proof fn summaries_name_every_state(rows: &Vec<TransferRow>, r: String, n: nat)
    requires
        call_ensures(transfer_summary_from_rows, (rows, None::<&str>), r),
        rows@.len() > 0,
        n > 0,
    ensures
        count_in(row_views(rows@), TransferRowState::Active) == n && n == rows@.len() ==> r@ == decimal(0)
            + " / "@ + decimal(n) + " done"@ + " · "@ + (decimal(n) + " active"@),
        count_in(row_views(rows@), TransferRowState::Queued) == n && n == rows@.len() ==> r@ == decimal(0)
            + " / "@ + decimal(n) + " done"@ + " · "@ + (decimal(n) + " queued"@),
        count_in(row_views(rows@), TransferRowState::Paused) == n && n == rows@.len() ==> r@ == decimal(0)
            + " / "@ + decimal(n) + " done"@ + " · "@ + (decimal(n) + " paused"@),
        count_in(row_views(rows@), TransferRowState::Failed) == n && n == rows@.len() ==> r@ == decimal(0)
            + " / "@ + decimal(n) + " done"@ + " · "@ + (decimal(n) + " failed"@),
        count_in(row_views(rows@), TransferRowState::Cancelled) == n && n == rows@.len() ==> r@
            == decimal(0) + " / "@ + decimal(n) + " done"@ + " · "@ + (decimal(n) + " cancelled"@),
        count_in(row_views(rows@), TransferRowState::Recovered) == n && n == rows@.len() ==> r@
            == decimal(0) + " / "@ + decimal(n) + " done"@ + " · "@ + (decimal(n) + " recovered"@),
{
    let v = row_views(rows@);
    crate::controllers::transfer_report::states_are_exclusive(v);
    let lead = decimal(0) + " / "@ + decimal(v.len()) + " done"@;
    let parts = crate::controllers::transfer_report::summary_parts(v, None);
    lemma_two(lead, decimal(n) + " active"@);
    lemma_two(lead, decimal(n) + " queued"@);
    lemma_two(lead, decimal(n) + " paused"@);
    lemma_two(lead, decimal(n) + " failed"@);
    lemma_two(lead, decimal(n) + " cancelled"@);
    lemma_two(lead, decimal(n) + " recovered"@);
    if n == v.len() {
        if count_in(v, TransferRowState::Active) == n {
            assert(parts =~= seq![lead, decimal(n) + " active"@]);
        } else if count_in(v, TransferRowState::Queued) == n {
            assert(parts =~= seq![lead, decimal(n) + " queued"@]);
        } else if count_in(v, TransferRowState::Paused) == n {
            assert(parts =~= seq![lead, decimal(n) + " paused"@]);
        } else if count_in(v, TransferRowState::Failed) == n {
            assert(parts =~= seq![lead, decimal(n) + " failed"@]);
        } else if count_in(v, TransferRowState::Cancelled) == n {
            assert(parts =~= seq![lead, decimal(n) + " cancelled"@]);
        } else if count_in(v, TransferRowState::Recovered) == n {
            assert(parts =~= seq![lead, decimal(n) + " recovered"@]);
        }
    }
}

proof fn lemma_two(a: Seq<char>, b: Seq<char>)
    ensures
        joined(seq![a, b], " · "@) == a + " · "@ + b,
{
    assert(seq![a, b].drop_last() =~= seq![a]);
    assert(seq![a].drop_last() =~= Seq::<Seq<char>>::empty());
    reveal_with_fuel(joined, 3);
    assert(joined(seq![a, b], " · "@) =~= a + " · "@ + b);
}

/// The icon shows the bytes of the transfers that run: a further running one adds its own, no more
/// of them than its size; another adds nothing.
pub proof fn running_bytes_add_up(rows: Seq<RowView>, row: RowView)
    ensures
        active_total(Seq::empty()) == 0,
        active_done(Seq::empty()) == 0,
        row.state == "active"@ && row.total >= 0 ==> active_total(rows.push(row)) == active_total(rows)
            + row.total,
        row.state == "active"@ && 0 <= row.done <= row.total ==> active_done(rows.push(row))
            == active_done(rows) + row.done,
        row.state == "active"@ && row.done > row.total >= 0 ==> active_done(rows.push(row))
            == active_done(rows) + row.total,
        row.state != "active"@ ==> active_total(rows.push(row)) == active_total(rows) && active_done(
            rows.push(row),
        ) == active_done(rows),
{
    assert(rows.push(row).drop_last() =~= rows);
}

/// The icon shows those bytes where a size is known, and else how many transfers run.
pub proof fn the_icon_shows_the_running_bytes(rows: &Vec<TransferRow>, r: DockProgress)
    requires
        call_ensures(dock_progress, (rows,), r),
    ensures
        active_total(row_views(rows@)) > 0 ==> (r matches DockProgress::Bytes { done, total } && done
            == active_done(row_views(rows@)) && total == active_total(row_views(rows@))),
        active_total(row_views(rows@)) == 0 && count_in(row_views(rows@), TransferRowState::Active) == 0
            ==> r is Idle,
        active_total(row_views(rows@)) == 0 && count_in(row_views(rows@), TransferRowState::Active) > 0
            ==> r is Average,
{
}

/// A failure is reported by its kind alone, which its text names; a cancelled transfer is its own
/// kind, and one that did not fail has none.
pub proof fn failures_are_reported_by_their_kind(state: &str, message: &str, r: Option<&'static str>)
    requires
        call_ensures(transfer_error_category, (state, message), r),
    ensures
        state@ == "cancelled"@ ==> (r matches Some(w) && w@ == "cancelled"@),
        state@ != "cancelled"@ && state@ != "failed"@ ==> r is None,
        state@ == "failed"@ ==> r is Some,
        state@ == "failed"@ && (contains_text(ascii_lowercase(message@), "permission"@)
            || contains_text(ascii_lowercase(message@), "denied"@)) ==> r->0@ == "permission"@,
        state@ == "failed"@ && r->0@ == "authentication"@ ==> contains_text(
            ascii_lowercase(message@),
            "auth"@,
        ) || contains_text(ascii_lowercase(message@), "login"@),
        state@ == "failed"@ && r->0@ == "storage"@ ==> contains_text(ascii_lowercase(message@), "space"@)
            || contains_text(ascii_lowercase(message@), "disk"@),
        state@ == "failed"@ && r->0@ == "network"@ ==> contains_text(
            ascii_lowercase(message@),
            "timeout"@,
        ) || contains_text(ascii_lowercase(message@), "network"@) || contains_text(
            ascii_lowercase(message@),
            "connection"@,
        ),
        state@ == "failed"@ && r->0@ == "conflict"@ ==> contains_text(
            ascii_lowercase(message@),
            "exist"@,
        ) || contains_text(ascii_lowercase(message@), "conflict"@),
        state@ == "failed"@ && r->0@ == "other"@ ==> !contains_text(ascii_lowercase(message@), "auth"@)
            && !contains_text(ascii_lowercase(message@), "disk"@) && !contains_text(
            ascii_lowercase(message@),
            "timeout"@,
        ) && !contains_text(ascii_lowercase(message@), "exist"@),
{
    lemma_state_words();
    lemma_kinds();
}

proof fn lemma_kinds()
    ensures
        "permission"@ != "authentication"@,
        "permission"@ != "storage"@,
        "permission"@ != "network"@,
        "permission"@ != "conflict"@,
        "permission"@ != "other"@,
        "authentication"@ != "storage"@,
        "authentication"@ != "network"@,
        "authentication"@ != "conflict"@,
        "authentication"@ != "other"@,
        "storage"@ != "network"@,
        "storage"@ != "conflict"@,
        "storage"@ != "other"@,
        "network"@ != "conflict"@,
        "network"@ != "other"@,
        "conflict"@ != "other"@,
{
    reveal_strlit("permission");
    reveal_strlit("authentication");
    reveal_strlit("storage");
    reveal_strlit("network");
    reveal_strlit("conflict");
    reveal_strlit("other");
    assert("permission"@[0] == 'p');
    assert("authentication"@[0] == 'a');
    assert("storage"@[0] == 's');
    assert("network"@[0] == 'n');
    assert("conflict"@[0] == 'c');
    assert("other"@[0] == 'o');
}

/// A report has one item for each row, numbered from one, with its direction, state, priority and
/// bytes.
pub proof fn reports_have_an_item_for_each_row(
    rows: &Vec<TransferRow>,
    time: u64,
    r: TransferReport,
    i: int,
)
    requires
        call_ensures(transfer_report, (rows, time), r),
        0 <= i < rows@.len(),
    ensures
        r.generated_unix_seconds == time,
        r.items@.len() == rows@.len(),
        r.items@[i].ordinal == i + 1,
        r.items@[i].direction@ == rows@[i].direction@,
        r.items@[i].state@ == rows@[i].state@,
        r.items@[i].priority@ == rows@[i].priority@,
        rows@[i].done >= 0 ==> r.items@[i].displayed_bytes_done == rows@[i].done,
        rows@[i].total >= 0 ==> r.items@[i].displayed_bytes_total == rows@[i].total,
        rows@[i].done < 0 ==> r.items@[i].displayed_bytes_done == 0,
{
    let views = item_views(r.items@);
    assert(views.len() == rows@.len());
    assert(views[i] == r.items@[i]@);
    assert(row_views(rows@)[i] == rows@[i]@);
}

/// The number before the unit is the rate.
pub proof fn rates_are_read(number: Seq<char>, message: &str, r: Option<String>)
    requires
        call_ensures(parse_mbps, (message,), r),
        number.len() > 0,
        forall|i: int| 0 <= i < number.len() ==> !is_white_space(#[trigger] number[i]),
        message@ == number + " MB/s"@,
    ensures
        r matches Some(text) && text@ == number,
{
    reveal_strlit(" MB/s");
    reveal_strlit("MB/s");
    let m = message@;
    let n = number.len() as int;
    assert(m[0] == number[0]);
    assert(m.last() == 's');
    lemma_trimmed_fixed(m);
    let sp = seq![' '];
    assert(sp[0] == ' ');
    assert(sp.contains(' '));
    assert forall|i: int| 0 <= i < n implies !sp.contains(#[trigger] m[i]) by {
        assert(m[i] == number[i]);
    }
    assert(m[n] == " MB/s"@[0]);
    crate::pieces::lemma_first_of(m, sp, n);
    assert(m.skip(n + 1) =~= "MB/s"@);
    assert(m.skip(n + 1).take(4) =~= "MB/s"@);
    assert(m.take(n) =~= number);
}

/// What the queue answered is what is told: an accepted change as done, another as refused.
pub proof fn answers_of_the_queue_are_told(
    accepted: bool,
    paused: bool,
    value: &str,
    answer: RetryAnswer,
    p: Result<&'static str, &'static str>,
    q: Result<&'static str, &'static str>,
    t: Result<&'static str, &'static str>,
)
    requires
        call_ensures(pause_outcome, (accepted, paused), p),
        call_ensures(priority_outcome, (value, accepted), q),
        call_ensures(retry_outcome, (answer,), t),
    ensures
        p is Ok <==> accepted,
        q is Ok <==> accepted && (value@ == "low"@ || value@ == "normal"@ || value@ == "high"@),
        t is Ok <==> answer is Queued,
{
}

/// A move is told as it went.
pub proof fn moves_are_told(step: MoveStep, accepted: bool, r: Option<Result<&'static str, &'static str>>)
    requires
        call_ensures(move_outcome, (step, accepted), r),
    ensures
        step is Unknown ==> r is None,
        step is NotWaiting ==> (r matches Some(told) && told is Err),
        step is AtEdge ==> (r matches Some(told) && told is Ok),
        step is Swap ==> (r matches Some(told) && (told is Ok <==> accepted)),
{
}

/// The number of transfers at once is the one that was asked for, within its bounds.
pub proof fn limits_are_kept_within_bounds(requested: i32, min: usize, max: usize, r: usize)
    requires
        call_ensures(concurrency_limit, (requested, min, max), r),
        min <= max,
    ensures
        min <= requested <= max ==> r == requested,
        requested < min ==> r == min,
        requested > max ==> r == max,
{
}

/// A decision about a failed file goes to the batch whose number it names.
pub proof fn decisions_go_to_their_batch(
    n: usize,
    batch: &str,
    go_on: bool,
    r: Option<(usize, &'static str)>,
)
    requires
        call_ensures(resolve_transfer_error, (batch, go_on), r),
        batch@ == decimal(n as nat),
    ensures
        r matches Some(pair) && pair.0 == n && pair.1@ == if go_on {
            "failed file skipped — continuing batch"@
        } else {
            "stopping remaining files in this batch…"@
        },
{
    decimal_reads_back(n as nat);
}

/// Identities are given out one after the other from one on, and after everything that is in use.
pub proof fn identities_follow_each_other(
    source: &mut IdSource,
    fresh: IdSource,
    r: usize,
)
    requires
        call_ensures(IdSource::new, (), fresh),
        call_ensures(IdSource::fresh_xfer_id, (source,), r),
    ensures
        fresh.next == 1,
        r == old(source).next,
        r < usize::MAX ==> final(source).next == r + 1,
{
}

/// What is in use is never given out again.
pub proof fn reserved_identities_are_passed_over(source: &mut IdSource, existing: usize)
    requires
        call_ensures(IdSource::reserve_xfer_ids_after, (source, existing), ()),
        existing < usize::MAX,
    ensures
        final(source).next > existing,
        final(source).next >= old(source).next,
        old(source).next > existing ==> final(source).next == old(source).next,
        old(source).next <= existing ==> final(source).next == existing + 1,
{
}

} // verus!
