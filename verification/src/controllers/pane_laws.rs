//! What a pane shows, in which order, and what a click selects.

use vstd::prelude::*;

use crate::controllers::panes::{
    are_row_keys, name_passes, rearranged_rows, shown, sorted_rows, EntryRow, SelectionView,
};
use crate::controllers::state::{SortDirection, SortKey};
use crate::lexical::lex_le;
use crate::model::entry::{entry_keys, is_entry_key, rearranged, sorted_entries, RemoteEntry};
use crate::net::search::words;
use crate::pieces::contains_text;
use crate::sorting::{is_stable_order, row_before, RowKey};
use crate::text::{is_white_space, lowercase};
use crate::text_laws::words_come_apart_at_white_space;

verus! {

/// The size of an entry, the exact one where it is known.
pub open spec fn size_of_row(entry: EntryRow) -> int {
    match entry.true_size {
        Some(n) => n as int,
        None => entry.size as int,
    }
}

/// The modification time of an entry, the exact one where it is known.
pub open spec fn time_of_row(entry: EntryRow) -> int {
    match entry.true_mtime {
        Some(n) => n as int,
        None => entry.mtime as int,
    }
}

/// Of two rows of one kind, the one that stands first in a sorted pane does not come after the other
/// by what the pane is sorted by: upwards it is not the larger one, downwards not the smaller one.
/// Sizes and times are compared as numbers, names, owners and groups without regard to case.
pub proof fn panes_are_sorted_by_what_was_chosen(
    rows: Seq<EntryRow>,
    key: SortKey,
    direction: SortDirection,
    sorted: Seq<EntryRow>,
    i: int,
    j: int,
)
    requires
        sorted_rows(rows, key, direction, sorted),
        0 <= i < j < sorted.len(),
        sorted[i].is_dir == sorted[j].is_dir,
    ensures
        ({
            let (low, high) = if direction == SortDirection::Descending {
                (sorted[j], sorted[i])
            } else {
                (sorted[i], sorted[j])
            };
            match key {
                SortKey::Size => size_of_row(low) <= size_of_row(high),
                SortKey::Date => time_of_row(low) <= time_of_row(high),
                SortKey::Name => lex_le(lowercase(low.name@), lowercase(high.name@)),
                SortKey::Owner => lex_le(lowercase(low.owner@), lowercase(high.owner@)),
                SortKey::Group => lex_le(lowercase(low.group@), lowercase(high.group@)),
                SortKey::Permissions => lex_le(low.permissions@, high.permissions@),
            }
        }),
{
    let descending = direction == SortDirection::Descending;
    let (keys, order) = choose|keys: Seq<RowKey>, order: Seq<usize>| #[trigger]
        are_row_keys(rows, key, keys) && #[trigger] is_stable_order(keys, descending, order)
            && rearranged_rows(rows, order, sorted);
    let a = order[i] as int;
    let b = order[j] as int;
    assert(sorted[i] == rows[a]);
    assert(sorted[j] == rows[b]);
    assert(keys[a].after == !rows[a].is_dir);
    assert(keys[b].after == !rows[b].is_dir);
    assert(row_before(keys, descending, a, b));
}

/// Sorting a pane keeps rows that are equal by what it is sorted by in the order in which they came.
pub proof fn equal_rows_keep_their_order(
    rows: Seq<EntryRow>,
    key: SortKey,
    direction: SortDirection,
    sorted: Seq<EntryRow>,
)
    requires
        sorted_rows(rows, key, direction, sorted),
    ensures
        exists|order: Seq<usize>| #[trigger]
            rearranged_rows(rows, order, sorted) && order.no_duplicates() && forall|i: int, j: int|
                0 <= i < j < order.len() && sorted[i].is_dir == sorted[j].is_dir && ((key
                    == SortKey::Size && size_of_row(sorted[i]) == size_of_row(sorted[j])) || (key
                    == SortKey::Date && time_of_row(sorted[i]) == time_of_row(sorted[j])) || (key
                    == SortKey::Name && lowercase(sorted[i].name@) == lowercase(sorted[j].name@)))
                    ==> #[trigger] order[i] < #[trigger] order[j],
{
    let descending = direction == SortDirection::Descending;
    let (keys, order) = choose|keys: Seq<RowKey>, order: Seq<usize>| #[trigger]
        are_row_keys(rows, key, keys) && #[trigger] is_stable_order(keys, descending, order)
            && rearranged_rows(rows, order, sorted);
    assert forall|i: int, j: int|
        0 <= i < j < order.len() && sorted[i].is_dir == sorted[j].is_dir && ((key == SortKey::Size
            && size_of_row(sorted[i]) == size_of_row(sorted[j])) || (key == SortKey::Date
            && time_of_row(sorted[i]) == time_of_row(sorted[j])) || (key == SortKey::Name
            && lowercase(sorted[i].name@) == lowercase(sorted[j].name@))) implies #[trigger] order[i]
        < #[trigger] order[j] by {
        let a = order[i] as int;
        let b = order[j] as int;
        assert(sorted[i] == rows[a]);
        assert(sorted[j] == rows[b]);
        assert(keys[a].after == !rows[a].is_dir);
        assert(keys[b].after == !rows[b].is_dir);
        assert(row_before(keys, descending, a, b));
        crate::lexical::lemma_lex_reflexive(lowercase(rows[a].name@));
    }
    assert(rearranged_rows(rows, order, sorted));
}

/// A row is shown exactly if it is in the folder, its name holds every word of the filter in whatever
/// case, and it is not hidden or hidden rows are shown too.
pub proof fn rows_are_shown_by_their_name(
    full: Seq<EntryRow>,
    show_hidden: bool,
    filter: Seq<char>,
    row: EntryRow,
)
    ensures
        shown(full, show_hidden, filter).contains(row) <==> full.contains(row) && (show_hidden
            || row.name@.len() == 0 || row.name@[0] != '.') && forall|i: int|
            0 <= i < words(filter).len() ==> contains_text(
                lowercase(row.name@),
                lowercase(#[trigger] words(filter)[i]),
            ),
{
    let keep = |e: EntryRow| crate::controllers::panes::is_shown(e, show_hidden, filter);
    lemma_filtered(full, keep, row);
}

proof fn lemma_filtered(full: Seq<EntryRow>, keep: spec_fn(EntryRow) -> bool, row: EntryRow)
    ensures
        full.filter(keep).contains(row) <==> full.contains(row) && keep(row),
    decreases full.len(),
{
    reveal(Seq::filter);
    if full.len() > 0 {
        let front = full.drop_last();
        lemma_filtered(front, keep, row);
        let before = front.filter(keep);
        let all = full.filter(keep);
        if full.contains(row) {
            let i = choose|i: int| 0 <= i < full.len() && full[i] == row;
            if i < front.len() {
                assert(front[i] == row);
            }
        }
        if front.contains(row) {
            let i = choose|i: int| 0 <= i < front.len() && front[i] == row;
            assert(full[i] == row);
        }
        assert(full[full.len() - 1] == full.last());
        if before.contains(row) {
            let i = choose|i: int| 0 <= i < before.len() && before[i] == row;
            assert(all[i] == row);
        }
        if all.contains(row) && !before.contains(row) {
            let i = choose|i: int| 0 <= i < all.len() && all[i] == row;
            if i < before.len() {
                assert(before[i] == row);
            }
        }
        if keep(full.last()) {
            assert(all[all.len() - 1] == full.last());
        }
    }
}

/// An empty filter lets every name pass, one word asks for itself, and further words ask for more.
pub proof fn filters_ask_for_every_word(
    name: Seq<char>,
    word: Seq<char>,
    space: char,
    rest: Seq<char>,
)
    requires
        word.len() > 0,
        forall|i: int| 0 <= i < word.len() ==> !is_white_space(#[trigger] word[i]),
        is_white_space(space),
    ensures
        name_passes(name, Seq::empty()),
        name_passes(name, word) <==> contains_text(lowercase(name), lowercase(word)),
        name_passes(name, word + seq![space] + rest) <==> name_passes(name, word) && name_passes(
            name,
            rest,
        ),
{
    words_come_apart_at_white_space(word, space, rest);
    let all = words(word + seq![space] + rest);
    let more = words(rest);
    let low = lowercase(name);
    assert(all[0] == word);
    assert(words(word)[0] == word);
    assert forall|i: int| 0 <= i < more.len() implies #[trigger] more[i] == all[i + 1] by {}
    if name_passes(name, word + seq![space] + rest) {
        assert(contains_text(low, lowercase(all[0])));
        assert forall|i: int| 0 <= i < more.len() implies contains_text(
            low,
            lowercase(#[trigger] more[i]),
        ) by {
            assert(contains_text(low, lowercase(all[i + 1])));
        }
    }
    if name_passes(name, word) && name_passes(name, rest) {
        assert(contains_text(low, lowercase(words(word)[0])));
        assert forall|i: int| 0 <= i < all.len() implies contains_text(
            low,
            lowercase(#[trigger] all[i]),
        ) by {
            if i > 0 {
                assert(contains_text(low, lowercase(more[i - 1])));
            }
        }
    }
}

/// A listing is ordered by name without regard to case, among directories and among files, and
/// keeps every entry.
pub proof fn listings_are_sorted_by_name(
    entries: Seq<RemoteEntry>,
    sorted: Seq<RemoteEntry>,
    i: int,
    j: int,
)
    requires
        sorted_entries(entries, sorted),
        0 <= i < j < sorted.len(),
    ensures
        sorted.len() == entries.len(),
        entries.contains(sorted[i]),
        sorted[j].is_dir ==> sorted[i].is_dir,
        sorted[i].is_dir == sorted[j].is_dir ==> lex_le(
            lowercase(sorted[i].name@),
            lowercase(sorted[j].name@),
        ),
{
    let (keys, order) = choose|keys: Seq<RowKey>, order: Seq<usize>| #[trigger]
        entry_keys(entries, keys) && #[trigger] is_stable_order(keys, false, order) && rearranged(
            entries,
            order,
            sorted,
        );
    let a = order[i] as int;
    let b = order[j] as int;
    assert(sorted[i] == entries[a]);
    assert(sorted[j] == entries[b]);
    assert(is_entry_key(entries[a], keys[a]));
    assert(is_entry_key(entries[b], keys[b]));
    assert(row_before(keys, false, a, b));
}

// --- the selection -----------------------------------------------------------------------------

/// A plain click selects its row and no other, and the cursor goes there. With `toggle` it changes
/// the choice of its row alone. With `extend` it selects what lies between the anchor and its row.
/// A click outside the rows changes nothing.
pub proof fn a_click_selects_what_it_points_at(
    selection: SelectionView,
    index: int,
    extend: bool,
    toggle: bool,
    row: int,
)
    requires
        0 <= row < selection.flags.len(),
    ensures
        ({
            let then = selection.clicked(index, extend, toggle);
            let on_a_row = 0 <= index < selection.flags.len();
            &&& then.flags.len() == selection.flags.len()
            &&& !on_a_row ==> then == selection
            &&& on_a_row && !toggle && !(extend && selection.cursor >= 0) ==> {
                &&& then.flags[row] <==> row == index
                &&& then.cursor == index && then.anchor == index
            }
            &&& on_a_row && toggle ==> {
                &&& row == index ==> then.flags[row] == !selection.flags[row]
                &&& row != index ==> then.flags[row] == selection.flags[row]
                &&& !selection.flags[index] ==> then.cursor == index
                &&& then.anchor == index
            }
            &&& on_a_row && !toggle && extend && selection.cursor >= 0 && selection.anchor >= 0 ==> {
                &&& then.flags[row] <==> (selection.anchor <= row <= index || index <= row
                    <= selection.anchor)
                &&& then.anchor == selection.anchor && then.cursor == index
            }
            &&& on_a_row && !toggle && extend && selection.cursor >= 0 && selection.anchor < 0 ==> {
                &&& then.flags[row] <==> (selection.cursor <= row <= index || index <= row
                    <= selection.cursor)
                &&& then.anchor == selection.cursor
            }
        }),
{
}

/// An arrow key moves the cursor by so many rows and stops at the first and the last one; without a
/// cursor it enters at the end that it comes from. Without `extend` that row alone is selected.
pub proof fn arrow_keys_move_the_cursor(selection: SelectionView, delta: int, extend: bool)
    requires
        selection.flags.len() > 0,
        selection.cursor < selection.flags.len(),
    ensures
        ({
            let then = selection.moved(delta, extend);
            let last = selection.flags.len() - 1;
            &&& 0 <= then.cursor <= last
            &&& selection.cursor >= 0 && 0 <= selection.cursor + delta <= last ==> then.cursor
                == selection.cursor + delta
            &&& selection.cursor >= 0 && selection.cursor + delta < 0 ==> then.cursor == 0
            &&& selection.cursor >= 0 && selection.cursor + delta > last ==> then.cursor == last
            &&& selection.cursor < 0 && delta > 0 ==> then.cursor == 0
            &&& selection.cursor < 0 && delta <= 0 ==> then.cursor == last
            &&& !extend ==> forall|row: int|
                0 <= row <= last ==> (#[trigger] then.flags[row] <==> row == then.cursor)
        }),
{
}

/// Selecting everything selects every row, and selecting nothing none.
pub proof fn everything_is_every_row(selection: SelectionView, selected: bool, row: int)
    requires
        0 <= row < selection.flags.len(),
    ensures
        selection.everything(selected).flags.len() == selection.flags.len(),
        selection.everything(selected).flags[row] == selected,
        selection.everything(selected).cursor == if selected {
            0int
        } else {
            -1int
        },
{
}

} // verus!
