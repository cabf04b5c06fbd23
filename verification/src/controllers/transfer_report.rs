//! What the panel of transfers says: its summary, its messages and the report that can be handed on.

use vstd::prelude::*;
use vstd::slice::slice_subrange;

use crate::controllers::state::TransferRowState;
use crate::controllers::transfers::{
    in_state, is_in, row_views, transfer_priority, MoveStep, RowView, TransferRow,
};
use crate::numerals::{decimal, parse_unsigned, to_decimal, unsigned_value};
use crate::pieces::{
    contains, contains_text, find_any, first_of, has_prefix, join, joined, starts_with, trim, trimmed,
    views,
};
use crate::text::{ascii_lowercase, chars_of, plus, same_text, string_of, to_ascii_lower};

verus! {

pub const MAX_TRANSFER_REPORT_BYTES: usize = 2097152;

// --- outcomes ----------------------------------------------------------------------------------

/// The line about a transfer that was to be paused or taken up again; `accepted` is what the queue
/// said.
pub fn pause_outcome(accepted: bool, paused: bool) -> (r: Result<&'static str, &'static str>)
    ensures
        match r {
            Ok(status) => accepted && status@ == if paused {
                "Queued transfer paused."@
            } else {
                "Transfer resumed in the queue."@
            },
            Err(error) => !accepted && error@
                == "Only a transfer that is still queued can be paused."@,
        },
{
    if !accepted {
        return Err("Only a transfer that is still queued can be paused.");
    }
    if paused {
        Ok("Queued transfer paused.")
    } else {
        Ok("Transfer resumed in the queue.")
    }
}

/// The line about a transfer that was to get another priority; `accepted` is what the queue said of
/// a priority that there is.
pub fn priority_outcome(value: &str, accepted: bool) -> (r: Result<&'static str, &'static str>)
    ensures
        ({
            let known = value@ == "low"@ || value@ == "normal"@ || value@ == "high"@;
            match r {
                Ok(status) => known && accepted && status@ == "Transfer priority updated."@,
                Err(error) => !(known && accepted) && error@ == if !known {
                    "Invalid transfer priority."@
                } else {
                    "Priority can be changed only while a transfer is queued."@
                },
            }
        }),
{
    if transfer_priority(value).is_none() {
        return Err("Invalid transfer priority.");
    }
    if !accepted {
        return Err("Priority can be changed only while a transfer is queued.");
    }
    Ok("Transfer priority updated.")
}

/// The line about a transfer that was to be moved, if there is one; `accepted` is what the queue said
/// of a swap.
pub fn move_outcome(step: MoveStep, accepted: bool) -> (r: Option<Result<&'static str, &'static str>>)
    ensures
        match step {
            MoveStep::Unknown => r is None,
            MoveStep::NotWaiting => r matches Some(Err(e)) && e@
                == "Only queued transfers can be reordered."@,
            MoveStep::AtEdge => r matches Some(Ok(s)) && s@
                == "Transfer is already at the edge of its priority group."@,
            MoveStep::Swap { .. } => if accepted {
                r matches Some(Ok(s)) && s@ == "Transfer queue reordered."@
            } else {
                r matches Some(Err(e)) && e@ == "Transfer started before it could be reordered."@
            },
        },
{
    match step {
        MoveStep::Unknown => None,
        MoveStep::NotWaiting => Some(Err("Only queued transfers can be reordered.")),
        MoveStep::AtEdge => Some(
            Ok("Transfer is already at the edge of its priority group."),
        ),
        MoveStep::Swap { .. } => if accepted {
            Some(Ok("Transfer queue reordered."))
        } else {
            Some(Err("Transfer started before it could be reordered."))
        },
    }
}

/// What the queue said of a transfer that was to be tried again.
#[derive(Debug, Clone, Copy, PartialEq, Eq, Structural)]
pub enum RetryAnswer {
    Queued,
    NotFound,
    QueueFull,
}

pub fn retry_outcome(answer: RetryAnswer) -> (r: Result<&'static str, &'static str>)
    ensures
        match answer {
            RetryAnswer::Queued => r matches Ok(s) && s@ == "transfer queued again"@,
            RetryAnswer::NotFound => r matches Err(e) && e@
                == "Retry data is no longer available."@,
            RetryAnswer::QueueFull => r matches Err(e) && e@ == "Transfer queue is full."@,
        },
{
    match answer {
        RetryAnswer::Queued => Ok("transfer queued again"),
        RetryAnswer::NotFound => Err("Retry data is no longer available."),
        RetryAnswer::QueueFull => Err("Transfer queue is full."),
    }
}

/// How many transfers run at once after a number was asked for.
pub fn concurrency_limit(requested: i32, min: usize, max: usize) -> (r: usize)
    requires
        min <= max,
    ensures
        min <= r <= max,
        min <= requested <= max ==> r == requested,
        requested < min ==> r == min,
        requested > max ==> r == max,
{
    let wanted: usize = if requested < 0 {
        0
    } else {
        requested as usize
    };
    if wanted < min {
        min
    } else if wanted > max {
        max
    } else {
        wanted
    }
}

pub fn concurrency_text(applied: usize) -> (r: String)
    ensures
        r@ == "Parallel server transfers: "@ + decimal(applied as nat) + "."@,
{
    let number: String = string_of(&to_decimal(applied as u64));
    plus(plus("Parallel server transfers: ".to_owned(), number.as_str()), ".")
}

/// The batch that a decision about a failure concerns, and the line about it.
pub fn resolve_transfer_error(batch: &str, should_continue: bool) -> (r: Option<
    (usize, &'static str),
>)
    ensures
        match unsigned_value(batch@, usize::MAX as nat) {
            Some(n) => r matches Some(pair) && pair.0 == n && pair.1@ == (if should_continue {
                "failed file skipped — continuing batch"@
            } else {
                "stopping remaining files in this batch…"@
            }),
            None => r is None,
        },
{
    let chars: Vec<char> = chars_of(batch);
    match parse_unsigned(&chars, usize::MAX as u64) {
        None => None,
        Some(n) => Some(
            (
                n as usize,
                if should_continue {
                    "failed file skipped — continuing batch"
                } else {
                    "stopping remaining files in this batch…"
                },
            ),
        ),
    }
}

// --- the report --------------------------------------------------------------------------------

/// The kind of an error, which tells nothing of files or servers.
pub open spec fn category_of(state: Seq<char>, message: Seq<char>) -> Option<Seq<char>> {
    let text = ascii_lowercase(message);
    if state == "cancelled"@ {
        Some("cancelled"@)
    } else if state != "failed"@ {
        None
    } else if contains_text(text, "permission"@) || contains_text(text, "denied"@) {
        Some("permission"@)
    } else if contains_text(text, "auth"@) || contains_text(text, "login"@) {
        Some("authentication"@)
    } else if contains_text(text, "space"@) || contains_text(text, "disk"@) {
        Some("storage"@)
    } else if contains_text(text, "timeout"@) || contains_text(text, "network"@) || contains_text(
        text,
        "connection"@,
    ) {
        Some("network"@)
    } else if contains_text(text, "exist"@) || contains_text(text, "conflict"@) {
        Some("conflict"@)
    } else {
        Some("other"@)
    }
}

fn has_word(text: &[char], word: &str) -> (r: bool)
    ensures
        r == contains_text(text@, word@),
{
    let wanted: Vec<char> = chars_of(word);
    contains(text, &wanted)
}

pub open spec fn word_of(word: Option<&'static str>) -> Option<Seq<char>> {
    match word {
        Some(w) => Some(w@),
        None => None,
    }
}

pub fn transfer_error_category(state: &str, message: &str) -> (r: Option<&'static str>)
    ensures
        word_of(r) == category_of(state@, message@),
{
    if same_text(state, "cancelled") {
        return Some("cancelled");
    }
    if !same_text(state, "failed") {
        return None;
    }
    let chars: Vec<char> = chars_of(message);
    let text: Vec<char> = to_ascii_lower(&chars);
    Some(
        if has_word(&text, "permission") || has_word(&text, "denied") {
            "permission"
        } else if has_word(&text, "auth") || has_word(&text, "login") {
            "authentication"
        } else if has_word(&text, "space") || has_word(&text, "disk") {
            "storage"
        } else if has_word(&text, "timeout") || has_word(&text, "network") || has_word(
            &text,
            "connection",
        ) {
            "network"
        } else if has_word(&text, "exist") || has_word(&text, "conflict") {
            "conflict"
        } else {
            "other"
        },
    )
}

/// One transfer of the report: no name, no path, no server and no message.
#[derive(Debug, PartialEq, Eq)]
pub struct ReportItem {
    pub ordinal: usize,
    pub direction: String,
    pub state: String,
    pub priority: String,
    pub displayed_bytes_done: u64,
    pub displayed_bytes_total: u64,
    pub error_category: Option<&'static str>,
}

pub ghost struct ItemView {
    pub ordinal: nat,
    pub direction: Seq<char>,
    pub state: Seq<char>,
    pub priority: Seq<char>,
    pub done: nat,
    pub total: nat,
    pub category: Option<Seq<char>>,
}

impl View for ReportItem {
    type V = ItemView;

    open spec fn view(&self) -> ItemView {
        ItemView {
            ordinal: self.ordinal as nat,
            direction: self.direction@,
            state: self.state@,
            priority: self.priority@,
            done: self.displayed_bytes_done as nat,
            total: self.displayed_bytes_total as nat,
            category: word_of(self.error_category),
        }
    }
}

pub open spec fn at_least_none(n: i32) -> nat {
    if n < 0 {
        0
    } else {
        n as nat
    }
}

pub open spec fn item_of(row: RowView, ordinal: nat) -> ItemView {
    ItemView {
        ordinal,
        direction: row.direction,
        state: row.state,
        priority: row.priority,
        done: at_least_none(row.done),
        total: at_least_none(row.total),
        category: category_of(row.state, row.message),
    }
}

pub open spec fn items_of(rows: Seq<RowView>) -> Seq<ItemView> {
    Seq::new(rows.len(), |i: int| item_of(rows[i], (i + 1) as nat))
}

pub open spec fn item_views(items: Seq<ReportItem>) -> Seq<ItemView> {
    items.map_values(|i: ReportItem| i@)
}

fn none_below(n: i32) -> (r: u64)
    ensures
        r == at_least_none(n),
{
    if n < 0 {
        0
    } else {
        n as u64
    }
}

/// The transfers of the report, in the order of the rows.
pub fn transfer_report_items(rows: &Vec<TransferRow>) -> (r: Vec<ReportItem>)
    ensures
        item_views(r@) == items_of(row_views(rows@)),
{
    let mut items: Vec<ReportItem> = Vec::new();
    let mut i: usize = 0;
    while i < rows.len()
        invariant
            i <= rows@.len(),
            items@.len() == i,
            forall|j: int|
                0 <= j < i ==> (#[trigger] items@[j])@ == item_of(rows@[j]@, (j + 1) as nat),
        decreases rows@.len() - i,
    {
        let row: &TransferRow = &rows[i];
        items.push(
            ReportItem {
                ordinal: i + 1,
                direction: row.direction.clone(),
                state: row.state.clone(),
                priority: row.priority.clone(),
                displayed_bytes_done: none_below(row.done),
                displayed_bytes_total: none_below(row.total),
                error_category: transfer_error_category(row.state.as_str(), row.message.as_str()),
            },
        );
        i += 1;
    }
    assert(item_views(items@) =~= items_of(row_views(rows@)));
    items
}

/// A report about the transfers. It holds no name, path, server or message.
#[derive(Debug, PartialEq, Eq)]
pub struct TransferReport {
    pub schema: &'static str,
    pub generated_unix_seconds: u64,
    pub privacy: &'static str,
    pub items: Vec<ReportItem>,
}

/// The report about the transfers, made at a given time.
pub fn transfer_report(rows: &Vec<TransferRow>, generated_unix_seconds: u64) -> (r: TransferReport)
    ensures
        r.schema@ == "gmacftp-redacted-transfer-report-v1"@,
        r.generated_unix_seconds == generated_unix_seconds,
        r.privacy@ == "filenames, paths, server identities and raw error messages omitted"@,
        item_views(r.items@) == items_of(row_views(rows@)),
{
    TransferReport {
        schema: "gmacftp-redacted-transfer-report-v1",
        generated_unix_seconds,
        privacy: "filenames, paths, server identities and raw error messages omitted",
        items: transfer_report_items(rows),
    }
}

/// A report is handed out only where it is not too long.
pub fn check_report_size(bytes: usize) -> (r: Result<(), String>)
    ensures
        r is Ok <==> bytes <= MAX_TRANSFER_REPORT_BYTES,
        r matches Err(e) ==> e@ == "transfer report exceeds its safe size limit"@,
{
    if bytes > MAX_TRANSFER_REPORT_BYTES {
        return Err("transfer report exceeds its safe size limit".to_owned());
    }
    Ok(())
}

/// Two rows differ in what a report must not tell: the name, the texts and which transfer it is.
pub open spec fn alike_in_a_report(a: RowView, b: RowView) -> bool {
    &&& a.direction == b.direction
    &&& a.state == b.state
    &&& a.priority == b.priority
    &&& a.done == b.done
    &&& a.total == b.total
    &&& category_of(a.state, a.message) == category_of(b.state, b.message)
}

/// A report holds no names, paths, servers or messages: whatever they are, it reads the same.
pub proof fn reports_are_redacted(a: Seq<RowView>, b: Seq<RowView>)
    requires
        a.len() == b.len(),
        forall|i: int| 0 <= i < a.len() ==> alike_in_a_report(#[trigger] a[i], b[i]),
    ensures
        items_of(a) == items_of(b),
{
    assert forall|i: int| 0 <= i < a.len() implies items_of(a)[i] == items_of(b)[i] by {
        assert(alike_in_a_report(a[i], b[i]));
    }
    assert(items_of(a) =~= items_of(b));
}

// --- the summary -------------------------------------------------------------------------------

/// How many rows are in a state.
pub open spec fn count_in(rows: Seq<RowView>, state: TransferRowState) -> nat
    decreases rows.len(),
{
    if rows.len() == 0 {
        0
    } else {
        count_in(rows.drop_last(), state) + if is_in(rows.last(), state) {
            1nat
        } else {
            0nat
        }
    }
}

pub fn count_rows(rows: &Vec<TransferRow>, state: TransferRowState) -> (r: usize)
    ensures
        r == count_in(row_views(rows@), state),
        r <= rows@.len(),
{
    let mut n: usize = 0;
    let mut i: usize = 0;
    while i < rows.len()
        invariant
            i <= rows@.len(),
            n <= i,
            n == count_in(row_views(rows@).take(i as int), state),
        decreases rows@.len() - i,
    {
        let ghost all = row_views(rows@);
        assert(all.take(i + 1).drop_last() =~= all.take(i as int));
        assert(all.take(i + 1).last() == rows@[i as int]@);
        if in_state(&rows[i], state) {
            n += 1;
        }
        i += 1;
    }
    assert(row_views(rows@).take(rows@.len() as int) =~= row_views(rows@));
    n
}

/// `n` and a word, unless there are none.
pub open spec fn part(n: nat, word: Seq<char>) -> Seq<Seq<char>> {
    if n > 0 {
        seq![decimal(n) + word]
    } else {
        Seq::empty()
    }
}

/// The parts of the summary; it leads with the overall progress.
pub open spec fn summary_parts(rows: Seq<RowView>, speed: Option<Seq<char>>) -> Seq<Seq<char>> {
    let active = count_in(rows, TransferRowState::Active);
    let rate = if active > 0 && speed is Some {
        seq![speed->0 + " MB/s"@]
    } else {
        Seq::empty()
    };
    seq![decimal(count_in(rows, TransferRowState::Done)) + " / "@ + decimal(rows.len()) + " done"@]
        + part(active, " active"@) + rate + part(
        count_in(rows, TransferRowState::Queued),
        " queued"@,
    ) + part(count_in(rows, TransferRowState::Paused), " paused"@) + part(
        count_in(rows, TransferRowState::Failed),
        " failed"@,
    ) + part(count_in(rows, TransferRowState::Cancelled), " cancelled"@) + part(
        count_in(rows, TransferRowState::Recovered),
        " recovered"@,
    )
}

pub open spec fn summary_text(rows: Seq<RowView>, speed: Option<Seq<char>>) -> Seq<char> {
    if rows.len() == 0 {
        "0 transfers"@
    } else {
        joined(summary_parts(rows, speed), " · "@)
    }
}

fn push_part(parts: &mut Vec<Vec<char>>, n: usize, word: &str)
    ensures
        views(final(parts)@) == views(old(parts)@) + part(n as nat, word@),
{
    let ghost before = views(parts@);
    if n > 0 {
        let mut text: Vec<char> = to_decimal(n as u64);
        let chars: Vec<char> = chars_of(word);
        crate::pieces::extend_chars(&mut text, &chars);
        parts.push(text);
        assert(views(parts@) =~= before + part(n as nat, word@));
    } else {
        assert(views(parts@) =~= before + part(n as nat, word@));
    }
}

/// The summary of the panel; `speed` is the rate of all running transfers together, if it is known.
pub fn transfer_summary_from_rows(rows: &Vec<TransferRow>, speed: Option<&str>) -> (r: String)
    ensures
        r@ == summary_text(
            row_views(rows@),
            match speed {
                Some(s) => Some(s@),
                None => None,
            },
        ),
{
    if rows.len() == 0 {
        assert(row_views(rows@).len() == 0);
        return "0 transfers".to_owned();
    }
    let done: usize = count_rows(rows, TransferRowState::Done);
    let active: usize = count_rows(rows, TransferRowState::Active);
    let ghost rate_text: Option<Seq<char>> = match speed {
        Some(s) => Some(s@),
        None => None,
    };
    let ghost all = row_views(rows@);
    let mut parts: Vec<Vec<char>> = Vec::new();
    let mut lead: Vec<char> = to_decimal(done as u64);
    let slash: Vec<char> = chars_of(" / ");
    let total: Vec<char> = to_decimal(rows.len() as u64);
    let tail: Vec<char> = chars_of(" done");
    crate::pieces::extend_chars(&mut lead, &slash);
    crate::pieces::extend_chars(&mut lead, &total);
    crate::pieces::extend_chars(&mut lead, &tail);
    parts.push(lead);
    let ghost first = seq![
        decimal(count_in(all, TransferRowState::Done)) + " / "@ + decimal(all.len()) + " done"@,
    ];
    assert(views(parts@) =~= first);
    push_part(&mut parts, active, " active");
    let ghost with_active = views(parts@);
    let ghost rate = if active > 0 && rate_text is Some {
        seq![rate_text->0 + " MB/s"@]
    } else {
        Seq::empty()
    };
    if active > 0 {
        match speed {
            Some(s) => {
                let mut text: Vec<char> = chars_of(s);
                let unit: Vec<char> = chars_of(" MB/s");
                crate::pieces::extend_chars(&mut text, &unit);
                parts.push(text);
            },
            None => {},
        }
    }
    assert(views(parts@) =~= with_active + rate);
    push_part(&mut parts, count_rows(rows, TransferRowState::Queued), " queued");
    push_part(&mut parts, count_rows(rows, TransferRowState::Paused), " paused");
    push_part(&mut parts, count_rows(rows, TransferRowState::Failed), " failed");
    push_part(&mut parts, count_rows(rows, TransferRowState::Cancelled), " cancelled");
    push_part(&mut parts, count_rows(rows, TransferRowState::Recovered), " recovered");
    assert(views(parts@) =~= summary_parts(all, rate_text));
    let separator: Vec<char> = chars_of(" · ");
    string_of(&join(&parts, &separator))
}

/// The number of a message such as `1.5 MB/s`.
pub open spec fn rate_of(message: Seq<char>) -> Option<Seq<char>> {
    let text = trimmed(message);
    let cut = first_of(text, seq![' ']);
    if cut < text.len() && has_prefix(text.skip(cut + 1), "MB/s"@) {
        Some(text.take(cut))
    } else {
        None
    }
}

/// The text before the unit of a rate; the number that it stands for is read by the caller.
pub fn parse_mbps(message: &str) -> (r: Option<String>)
    ensures
        r is Some <==> rate_of(message@) is Some,
        r matches Some(text) ==> rate_of(message@) == Some(text@),
{
    let chars: Vec<char> = chars_of(message);
    let text: &[char] = trim(&chars);
    let space: [char; 1] = [' '];
    assert(space@ =~= seq![' ']);
    let cut: usize = find_any(text, space.as_slice());
    if cut >= text.len() {
        return None;
    }
    let rest: &[char] = slice_subrange(text, cut + 1, text.len());
    assert(rest@ =~= text@.skip(cut + 1));
    let unit: Vec<char> = chars_of("MB/s");
    if !starts_with(rest, &unit) {
        return None;
    }
    let number: &[char] = slice_subrange(text, 0, cut);
    assert(number@ =~= text@.take(cut as int));
    Some(string_of(number))
}

/// What the icon of the program shows of the running transfers.
#[derive(Debug, Clone, Copy, PartialEq, Eq, Structural)]
pub enum DockProgress {
    /// Nothing runs.
    Idle,
    /// So many bytes of so many.
    Bytes { done: u128, total: u128 },
    /// No size is known; the progress is the average of this many rows.
    Average { rows: usize },
}

pub open spec fn active_total(rows: Seq<RowView>) -> nat
    decreases rows.len(),
{
    if rows.len() == 0 {
        0
    } else {
        active_total(rows.drop_last()) + if is_in(rows.last(), TransferRowState::Active) {
            at_least_none(rows.last().total)
        } else {
            0nat
        }
    }
}

pub open spec fn capped_done(row: RowView) -> nat {
    if at_least_none(row.done) < at_least_none(row.total) {
        at_least_none(row.done)
    } else {
        at_least_none(row.total)
    }
}

pub open spec fn active_done(rows: Seq<RowView>) -> nat
    decreases rows.len(),
{
    if rows.len() == 0 {
        0
    } else {
        active_done(rows.drop_last()) + if is_in(rows.last(), TransferRowState::Active) {
            capped_done(rows.last())
        } else {
            0nat
        }
    }
}

pub open spec fn dock_of(rows: Seq<RowView>) -> DockProgress {
    if active_total(rows) > 0 {
        DockProgress::Bytes { done: active_done(rows) as u128, total: active_total(rows) as u128 }
    } else if count_in(rows, TransferRowState::Active) > 0 {
        DockProgress::Average { rows: count_in(rows, TransferRowState::Active) as usize }
    } else {
        DockProgress::Idle
    }
}

/// The progress of the running transfers.
pub fn dock_progress(rows: &Vec<TransferRow>) -> (r: DockProgress)
    ensures
        r == dock_of(row_views(rows@)),
        active_done(row_views(rows@)) <= active_total(row_views(rows@)) <= u128::MAX,
{
    let mut total: u128 = 0;
    let mut done: u128 = 0;
    let mut i: usize = 0;
    while i < rows.len()
        invariant
            i <= rows@.len(),
            total == active_total(row_views(rows@).take(i as int)),
            done == active_done(row_views(rows@).take(i as int)),
            done <= total <= i * 0x1_0000_0000,
        decreases rows@.len() - i,
    {
        let ghost all = row_views(rows@);
        assert(all.take(i + 1).drop_last() =~= all.take(i as int));
        assert(all.take(i + 1).last() == rows@[i as int]@);
        if in_state(&rows[i], TransferRowState::Active) {
            let of: u64 = none_below(rows[i].total);
            let so_far: u64 = none_below(rows[i].done);
            total = total + of as u128;
            done = done + if so_far < of {
                so_far as u128
            } else {
                of as u128
            };
        }
        i += 1;
    }
    assert(row_views(rows@).take(rows@.len() as int) =~= row_views(rows@));
    let active: usize = count_rows(rows, TransferRowState::Active);
    if total > 0 {
        DockProgress::Bytes { done, total }
    } else if active > 0 {
        DockProgress::Average { rows: active }
    } else {
        DockProgress::Idle
    }
}

/// The numbers beside the summary: how many transfers are done and how many are still to come.
pub fn transfer_counts(rows: &Vec<TransferRow>) -> (r: (usize, usize))
    ensures
        r.0 == count_in(row_views(rows@), TransferRowState::Done),
        r.1 == count_in(row_views(rows@), TransferRowState::Active) + count_in(
            row_views(rows@),
            TransferRowState::Queued,
        ) + count_in(row_views(rows@), TransferRowState::Paused),
{
    let done: usize = count_rows(rows, TransferRowState::Done);
    let active: usize = count_rows(rows, TransferRowState::Active);
    let queued: usize = count_rows(rows, TransferRowState::Queued);
    let paused: usize = count_rows(rows, TransferRowState::Paused);
    proof {
        states_are_exclusive(row_views(rows@));
    }
    let n: usize = rows.len();
    assert(active + queued + paused <= n);
    (done, active + queued + paused)
}

/// No transfer is counted twice: the numbers of the summary add up to no more than all rows.
pub proof fn states_are_exclusive(rows: Seq<RowView>)
    ensures
        count_in(rows, TransferRowState::Active) + count_in(rows, TransferRowState::Queued)
            + count_in(rows, TransferRowState::Paused) + count_in(rows, TransferRowState::Done)
            + count_in(rows, TransferRowState::Failed) + count_in(rows, TransferRowState::Cancelled)
            + count_in(rows, TransferRowState::Recovered) <= rows.len(),
    decreases rows.len(),
{
    if rows.len() > 0 {
        states_are_exclusive(rows.drop_last());
        reveal_strlit("active");
        reveal_strlit("queued");
        reveal_strlit("paused");
        reveal_strlit("done");
        reveal_strlit("failed");
        reveal_strlit("cancelled");
        reveal_strlit("recovered");
        assert(TransferRowState::Active.word()[0] == 'a');
        assert(TransferRowState::Queued.word()[0] == 'q');
        assert(TransferRowState::Paused.word()[0] == 'p');
        assert(TransferRowState::Done.word()[0] == 'd');
        assert(TransferRowState::Failed.word()[0] == 'f');
        assert(TransferRowState::Cancelled.word()[0] == 'c');
        assert(TransferRowState::Recovered.word()[0] == 'r');
    }
}

// --- identities --------------------------------------------------------------------------------

/// Where new identities of transfers and batches come from.
#[derive(Debug, Clone, Copy, PartialEq, Eq, Structural)]
pub struct IdSource {
    pub next: usize,
}

/// What comes next after an identity was given out. After the greatest one they start over.
pub open spec fn after_fresh(next: usize) -> usize {
    if next < usize::MAX {
        (next + 1) as usize
    } else {
        0
    }
}

/// What comes next once everything up to an identity is taken.
pub open spec fn after_reserve(next: usize, existing: usize) -> usize {
    if existing < next {
        next
    } else if existing < usize::MAX {
        (existing + 1) as usize
    } else {
        usize::MAX
    }
}

impl IdSource {
    pub fn new() -> (r: IdSource)
        ensures
            r.next == 1,
    {
        IdSource { next: 1 }
    }

    /// An identity that was not given out before.
    pub fn fresh_xfer_id(&mut self) -> (r: usize)
        ensures
            r == old(self).next,
            final(self).next == after_fresh(old(self).next),
    {
        let id: usize = self.next;
        self.next = if id < usize::MAX {
            id + 1
        } else {
            0
        };
        id
    }

    /// Give out no identity up to one that is in use.
    pub fn reserve_xfer_ids_after(&mut self, existing: usize)
        ensures
            final(self).next == after_reserve(old(self).next, existing),
    {
        let after: usize = existing.saturating_add(1);
        if after > self.next {
            self.next = after;
        }
    }
}

/// What a source of identities is asked.
pub ghost enum IdCall {
    Fresh,
    Reserve(usize),
}

/// The identities that a run of calls gives out, in order.
pub open spec fn identities(next: usize, calls: Seq<IdCall>) -> Seq<usize>
    decreases calls.len(),
{
    if calls.len() == 0 {
        Seq::empty()
    } else {
        match calls[0] {
            IdCall::Fresh => seq![next] + identities(after_fresh(next), calls.skip(1)),
            IdCall::Reserve(existing) => identities(after_reserve(next, existing), calls.skip(1)),
        }
    }
}

/// The greatest number is not reached.
pub open spec fn stay_in_range(ids: Seq<usize>) -> bool {
    forall|i: int| 0 <= i < ids.len() ==> #[trigger] ids[i] < usize::MAX
}

/// All are at least `least`, and each is greater than all before it.
pub open spec fn rise_from(ids: Seq<usize>, least: int) -> bool {
    &&& forall|i: int| 0 <= i < ids.len() ==> #[trigger] ids[i] >= least
    &&& forall|i: int, j: int| 0 <= i < j < ids.len() ==> #[trigger] ids[i] < #[trigger] ids[j]
}

/// No two transfers get the same identity: each one that is given out is greater than all before it,
/// however many were reserved in between. The greatest number is the one exception, after which they
/// start over.
pub proof fn identities_never_repeat(next: usize, calls: Seq<IdCall>)
    requires
        stay_in_range(identities(next, calls)),
    ensures
        rise_from(identities(next, calls), next as int),
    decreases calls.len(),
{
    if calls.len() > 0 {
        let ids = identities(next, calls);
        match calls[0] {
            IdCall::Fresh => {
                let rest = identities(after_fresh(next), calls.skip(1));
                assert(ids == seq![next] + rest);
                assert(ids[0] == next);
                assert forall|i: int| 0 <= i < rest.len() implies #[trigger] rest[i] < usize::MAX by {
                    assert(rest[i] == ids[i + 1]);
                }
                identities_never_repeat(after_fresh(next), calls.skip(1));
                assert forall|i: int| 0 <= i < ids.len() implies #[trigger] ids[i] >= next by {
                    if i > 0 {
                        assert(ids[i] == rest[i - 1]);
                    }
                }
                assert forall|i: int, j: int| 0 <= i < j < ids.len() implies #[trigger] ids[i]
                    < #[trigger] ids[j] by {
                    assert(ids[j] == rest[j - 1]);
                    if i > 0 {
                        assert(ids[i] == rest[i - 1]);
                    }
                }
            },
            IdCall::Reserve(existing) => {
                assert(ids == identities(after_reserve(next, existing), calls.skip(1)));
                identities_never_repeat(after_reserve(next, existing), calls.skip(1));
            },
        }
    }
}

/// After a recovery no new transfer gets an identity that is in use: whatever is given out once
/// `existing` was reserved is greater.
pub proof fn recovered_identities_are_kept(next: usize, existing: usize, calls: Seq<IdCall>)
    requires
        stay_in_range(identities(after_reserve(next, existing), calls)),
    ensures
        rise_from(identities(after_reserve(next, existing), calls), existing + 1),
{
    identities_never_repeat(after_reserve(next, existing), calls);
}

} // verus!
