//! What a pane shows of a folder, and what is selected in it.

use vstd::prelude::*;

use crate::controllers::state::{SortDirection, SortKey};
use crate::net::search::{split_words, words};
use crate::pieces::{contains, contains_text, views};
use crate::sorting::{is_stable_order, stable_order, RowKey, SortValue};
use crate::text::{chars_of, lowercase, string_of, to_lowercase};

verus! {

/// An entry of a folder. The numbers that are shown are narrow; where the true ones are known they
/// are kept beside them.
#[derive(Debug, PartialEq, Eq)]
pub struct EntryRow {
    pub name: String,
    pub is_dir: bool,
    pub size: i32,
    pub mtime: i32,
    pub owner: String,
    pub group: String,
    pub permissions: String,
    pub true_size: Option<u64>,
    pub true_mtime: Option<i64>,
}

impl Clone for EntryRow {
    fn clone(&self) -> (r: Self)
        ensures
            r == *self,
    {
        EntryRow {
            name: self.name.clone(),
            is_dir: self.is_dir,
            size: self.size,
            mtime: self.mtime,
            owner: self.owner.clone(),
            group: self.group.clone(),
            permissions: self.permissions.clone(),
            true_size: self.true_size,
            true_mtime: self.true_mtime,
        }
    }
}

// --- the view ----------------------------------------------------------------------------------

/// Every word of the filter occurs in the name, whatever the case.
pub open spec fn name_passes(name: Seq<char>, filter: Seq<char>) -> bool {
    forall|i: int|
        0 <= i < words(filter).len() ==> contains_text(
            lowercase(name),
            lowercase(#[trigger] words(filter)[i]),
        )
}

pub fn entry_matches_filter(entry: &EntryRow, query: &str) -> (r: bool)
    ensures
        r == name_passes(entry.name@, query@),
{
    let name: Vec<char> = chars_of(to_lowercase(entry.name.as_str()).as_str());
    let chars: Vec<char> = chars_of(query);
    let tokens: Vec<Vec<char>> = split_words(&chars);
    let mut i: usize = 0;
    while i < tokens.len()
        invariant
            i <= tokens@.len(),
            name@ == lowercase(entry.name@),
            views(tokens@) == words(query@),
            forall|j: int|
                0 <= j < i ==> contains_text(
                    lowercase(entry.name@),
                    lowercase(#[trigger] words(query@)[j]),
                ),
        decreases tokens@.len() - i,
    {
        assert(words(query@)[i as int] == tokens@[i as int]@);
        let token: String = string_of(&tokens[i]);
        let wanted: Vec<char> = chars_of(to_lowercase(token.as_str()).as_str());
        if !contains(&name, &wanted) {
            return false;
        }
        i += 1;
    }
    true
}

/// The entry is shown: it passes the filter, and hidden ones only where they are asked for.
pub open spec fn is_shown(entry: EntryRow, show_hidden: bool, filter: Seq<char>) -> bool {
    &&& show_hidden || !(entry.name@.len() > 0 && entry.name@[0] == '.')
    &&& name_passes(entry.name@, filter)
}

pub open spec fn shown(full: Seq<EntryRow>, show_hidden: bool, filter: Seq<char>) -> Seq<EntryRow> {
    full.filter(|e: EntryRow| is_shown(e, show_hidden, filter))
}

/// `value` is what the entry is sorted by.
pub open spec fn is_sort_value(entry: EntryRow, key: SortKey, value: SortValue) -> bool {
    match key {
        SortKey::Size => value == SortValue::Number(
            match entry.true_size {
                Some(n) => n as i128,
                None => entry.size as i128,
            },
        ),
        SortKey::Date => value == SortValue::Number(
            match entry.true_mtime {
                Some(n) => n as i128,
                None => entry.mtime as i128,
            },
        ),
        SortKey::Owner => value matches SortValue::Text(t) && t@ == lowercase(entry.owner@),
        SortKey::Group => value matches SortValue::Text(t) && t@ == lowercase(entry.group@),
        SortKey::Permissions => value matches SortValue::Text(t) && t@ == entry.permissions@,
        SortKey::Name => value matches SortValue::Text(t) && t@ == lowercase(entry.name@),
    }
}

pub open spec fn are_row_keys(rows: Seq<EntryRow>, key: SortKey, keys: Seq<RowKey>) -> bool {
    &&& keys.len() == rows.len()
    &&& forall|i: int|
        0 <= i < rows.len() ==> (#[trigger] keys[i]).after == !rows[i].is_dir && is_sort_value(
            rows[i],
            key,
            keys[i].value,
        )
}

pub open spec fn rearranged_rows(rows: Seq<EntryRow>, order: Seq<usize>, sorted: Seq<EntryRow>) -> bool {
    &&& sorted.len() == order.len()
    &&& forall|i: int| 0 <= i < order.len() ==> #[trigger] sorted[i] == rows[order[i] as int]
}

pub open spec fn sorted_by(
    rows: Seq<EntryRow>,
    key: SortKey,
    descending: bool,
    sorted: Seq<EntryRow>,
) -> bool {
    exists|keys: Seq<RowKey>, order: Seq<usize>| #[trigger]
        are_row_keys(rows, key, keys) && #[trigger] is_stable_order(keys, descending, order)
            && rearranged_rows(rows, order, sorted)
}

/// `sorted` is the stable arrangement of the rows: directories first, then by the key.
pub open spec fn sorted_rows(
    rows: Seq<EntryRow>,
    key: SortKey,
    direction: SortDirection,
    sorted: Seq<EntryRow>,
) -> bool {
    sorted_by(rows, key, direction == SortDirection::Descending, sorted)
}

fn sort_value(entry: &EntryRow, key: SortKey) -> (r: SortValue)
    ensures
        is_sort_value(*entry, key, r),
{
    match key {
        SortKey::Size => SortValue::Number(
            match entry.true_size {
                Some(n) => n as i128,
                None => entry.size as i128,
            },
        ),
        SortKey::Date => SortValue::Number(
            match entry.true_mtime {
                Some(n) => n as i128,
                None => entry.mtime as i128,
            },
        ),
        SortKey::Owner => SortValue::Text(chars_of(to_lowercase(entry.owner.as_str()).as_str())),
        SortKey::Group => SortValue::Text(chars_of(to_lowercase(entry.group.as_str()).as_str())),
        SortKey::Permissions => SortValue::Text(chars_of(entry.permissions.as_str())),
        SortKey::Name => SortValue::Text(chars_of(to_lowercase(entry.name.as_str()).as_str())),
    }
}

fn filter_rows(full: &Vec<EntryRow>, show_hidden: bool, filter: &str) -> (r: Vec<EntryRow>)
    ensures
        r@ == shown(full@, show_hidden, filter@),
{
    let ghost keep = |e: EntryRow| is_shown(e, show_hidden, filter@);
    let mut out: Vec<EntryRow> = Vec::new();
    let mut i: usize = 0;
    reveal(Seq::filter);
    assert(full@.take(0) =~= Seq::<EntryRow>::empty());
    while i < full.len()
        invariant
            i <= full@.len(),
            keep == |e: EntryRow| is_shown(e, show_hidden, filter@),
            out@ == full@.take(i as int).filter(keep),
        decreases full@.len() - i,
    {
        proof {
            reveal(Seq::filter);
            assert(full@.take(i + 1).drop_last() =~= full@.take(i as int));
            assert(full@.take(i + 1).last() == full@[i as int]);
        }
        let name: Vec<char> = chars_of(full[i].name.as_str());
        let hidden: bool = name.len() > 0 && name[0] == '.';
        if (show_hidden || !hidden) && entry_matches_filter(&full[i], filter) {
            out.push(full[i].clone());
        }
        i += 1;
    }
    assert(full@.take(full@.len() as int) =~= full@);
    out
}

/// What the words of a pane's sorting stand for; unknown ones sort by name, upwards.
pub fn pane_sorting(key: &str, direction: &str) -> (r: (SortKey, SortDirection))
    ensures
        forall|k: SortKey| #[trigger] k.word() == key@ ==> r.0 == k,
        (forall|k: SortKey| #[trigger] k.word() != key@) ==> r.0 == SortKey::Name,
        forall|d: SortDirection| #[trigger] d.word() == direction@ ==> r.1 == d,
        (forall|d: SortDirection| #[trigger] d.word() != direction@) ==> r.1
            == SortDirection::Ascending,
{
    let key: SortKey = match SortKey::try_from(key) {
        Ok(k) => k,
        Err(_) => SortKey::Name,
    };
    let direction: SortDirection = match SortDirection::try_from(direction) {
        Ok(d) => d,
        Err(_) => SortDirection::Ascending,
    };
    (key, direction)
}

/// What a pane shows of its whole list: filtered, then sorted.
pub fn apply_view_pane(
    full: &Vec<EntryRow>,
    show_hidden: bool,
    filter: &str,
    key: SortKey,
    direction: SortDirection,
) -> (r: Vec<EntryRow>)
    ensures
        sorted_rows(shown(full@, show_hidden, filter@), key, direction, r@),
{
    let rows: Vec<EntryRow> = filter_rows(full, show_hidden, filter);
    let mut keys: Vec<RowKey> = Vec::new();
    let mut i: usize = 0;
    while i < rows.len()
        invariant
            i <= rows@.len(),
            keys@.len() == i,
            forall|j: int|
                0 <= j < i ==> (#[trigger] keys@[j]).after == !rows@[j].is_dir && is_sort_value(
                    rows@[j],
                    key,
                    keys@[j].value,
                ),
        decreases rows@.len() - i,
    {
        let value: SortValue = sort_value(&rows[i], key);
        keys.push(RowKey { after: !rows[i].is_dir, value });
        i += 1;
    }
    assert(are_row_keys(rows@, key, keys@));
    let descending: bool = direction == SortDirection::Descending;
    let order: Vec<usize> = stable_order(&keys, descending);
    let mut sorted: Vec<EntryRow> = Vec::new();
    let mut k: usize = 0;
    while k < order.len()
        invariant
            k <= order@.len(),
            is_stable_order(keys@, descending, order@),
            keys@.len() == rows@.len(),
            sorted@.len() == k,
            forall|j: int| 0 <= j < k ==> #[trigger] sorted@[j] == rows@[order@[j] as int],
        decreases order@.len() - k,
    {
        sorted.push(rows[order[k]].clone());
        k += 1;
    }
    assert(rearranged_rows(rows@, order@, sorted@));
    sorted
}

/// In whatever order a pane is sorted, no file stands before a directory.
pub proof fn panes_show_directories_first(
    rows: Seq<EntryRow>,
    key: SortKey,
    direction: SortDirection,
    sorted: Seq<EntryRow>,
    i: int,
    j: int,
)
    requires
        sorted_rows(rows, key, direction, sorted),
        0 <= i < j < sorted.len(),
        !sorted[i].is_dir,
    ensures
        !sorted[j].is_dir,
{
    let descending = direction == SortDirection::Descending;
    let (keys, order) = choose|keys: Seq<RowKey>, order: Seq<usize>| #[trigger]
        are_row_keys(rows, key, keys) && #[trigger] is_stable_order(keys, descending, order)
            && rearranged_rows(rows, order, sorted);
    assert(sorted[i] == rows[order[i] as int]);
    assert(sorted[j] == rows[order[j] as int]);
    assert(keys[order[i] as int].after);
    crate::sorting::marked_rows_come_last(keys, descending, order, i, j);
    assert(keys[order[j] as int].after);
}

/// Sorting loses no row and invents none.
pub proof fn sorting_keeps_every_row(
    rows: Seq<EntryRow>,
    key: SortKey,
    direction: SortDirection,
    sorted: Seq<EntryRow>,
)
    requires
        rows.len() <= usize::MAX,
        sorted_rows(rows, key, direction, sorted),
    ensures
        sorted.len() == rows.len(),
        forall|i: int| 0 <= i < sorted.len() ==> rows.contains(#[trigger] sorted[i]),
        forall|i: int| 0 <= i < rows.len() ==> sorted.contains(#[trigger] rows[i]),
{
    let descending = direction == SortDirection::Descending;
    let (keys, order) = choose|keys: Seq<RowKey>, order: Seq<usize>| #[trigger]
        are_row_keys(rows, key, keys) && #[trigger] is_stable_order(keys, descending, order)
            && rearranged_rows(rows, order, sorted);
    assert forall|i: int| 0 <= i < sorted.len() implies rows.contains(#[trigger] sorted[i]) by {
        assert(sorted[i] == rows[order[i] as int]);
    }
    crate::sorting::lemma_order_complete(rows.len(), order);
    assert forall|i: int| 0 <= i < rows.len() implies sorted.contains(#[trigger] rows[i]) by {
        assert(order.contains(i as usize));
        let k = choose|k: int| 0 <= k < order.len() && order[k] == i as usize;
        assert(sorted[k] == rows[order[k] as int]);
    }
}

// --- the selection -----------------------------------------------------------------------------

/// What is selected in a pane: a flag for each row, the row of the cursor and the range that was
/// spanned last. -1 stands for no row.
#[derive(Debug, PartialEq, Eq)]
pub struct PaneSelection {
    pub flags: Vec<bool>,
    pub cursor: i32,
    pub anchor: i32,
    pub end: i32,
    pub range: bool,
    /// Every row is selected, and there is one.
    pub all: bool,
}

pub ghost struct SelectionView {
    pub flags: Seq<bool>,
    pub cursor: int,
    pub anchor: int,
    pub end: int,
    pub range: bool,
}

pub open spec fn every_flag(flags: Seq<bool>) -> bool {
    flags.len() > 0 && forall|i: int| 0 <= i < flags.len() ==> #[trigger] flags[i]
}

/// The first selected row, or -1.
pub open spec fn first_selected(flags: Seq<bool>, from: int) -> int
    decreases flags.len() - from,
{
    if from < 0 || from >= flags.len() {
        -1
    } else if flags[from] {
        from
    } else {
        first_selected(flags, from + 1)
    }
}

pub open spec fn only_row(count: nat, index: int) -> Seq<bool> {
    Seq::new(count, |i: int| i == index)
}

pub open spec fn rows_between(count: nat, a: int, b: int) -> Seq<bool> {
    Seq::new(count, |i: int| (a <= i && i <= b) || (b <= i && i <= a))
}

pub open spec fn no_row(count: nat) -> SelectionView {
    SelectionView {
        flags: Seq::new(count, |i: int| false),
        cursor: -1,
        anchor: -1,
        end: -1,
        range: false,
    }
}

impl SelectionView {
    /// A click on a row: with `toggle` the row is added or taken away, with `extend` everything
    /// between the anchor and the row is selected, else the row alone.
    pub open spec fn clicked(self, index: int, extend: bool, toggle: bool) -> SelectionView {
        let count = self.flags.len();
        if index < 0 || index >= count {
            self
        } else if toggle {
            let flags = self.flags.update(index, !self.flags[index]);
            SelectionView {
                flags,
                cursor: if flags[index] {
                    index
                } else {
                    first_selected(flags, 0)
                },
                anchor: index,
                end: index,
                range: false,
            }
        } else if extend && self.cursor >= 0 {
            let anchor = if self.anchor >= 0 {
                self.anchor
            } else {
                self.cursor
            };
            SelectionView {
                flags: rows_between(count, anchor, index),
                cursor: index,
                anchor,
                end: index,
                range: true,
            }
        } else {
            SelectionView {
                flags: only_row(count, index),
                cursor: index,
                anchor: index,
                end: index,
                range: false,
            }
        }
    }

    pub open spec fn everything(self, selected: bool) -> SelectionView {
        let count = self.flags.len();
        let row: int = if selected && count > 0 {
            0
        } else {
            -1
        };
        SelectionView {
            flags: Seq::new(count, |i: int| selected),
            cursor: row,
            anchor: row,
            end: row,
            range: false,
        }
    }

    /// The row that an arrow key leads to; without a cursor it enters from the end it points away
    /// from.
    pub open spec fn row_after(self, delta: int) -> int {
        let last = self.flags.len() - 1;
        if self.cursor < 0 {
            if delta > 0 {
                0
            } else {
                last
            }
        } else if self.cursor + delta < 0 {
            0
        } else if self.cursor + delta > last {
            last
        } else {
            self.cursor + delta
        }
    }

    pub open spec fn moved(self, delta: int, extend: bool) -> SelectionView {
        if self.flags.len() == 0 {
            self
        } else {
            self.clicked(self.row_after(delta), extend, false)
        }
    }
}

impl View for PaneSelection {
    type V = SelectionView;

    open spec fn view(&self) -> SelectionView {
        SelectionView {
            flags: self.flags@,
            cursor: self.cursor as int,
            anchor: self.anchor as int,
            end: self.end as int,
            range: self.range,
        }
    }
}

impl PaneSelection {
    pub open spec fn wf(&self) -> bool {
        &&& self.all == every_flag(self.flags@)
        &&& self.flags@.len() <= i32::MAX
    }

    /// Nothing is selected among so many rows.
    pub fn none(count: usize) -> (r: PaneSelection)
        requires
            count <= i32::MAX,
        ensures
            r.wf(),
            r@ == no_row(count as nat),
    {
        let flags: Vec<bool> = filled_flags(count, false);
        assert(flags@ =~= no_row(count as nat).flags);
        assert(!every_flag(flags@)) by {
            if flags@.len() > 0 {
                assert(!flags@[0]);
            }
        }
        PaneSelection { flags, cursor: -1, anchor: -1, end: -1, range: false, all: false }
    }

    /// Take over the flags for so many rows; rows without a flag are not selected.
    pub fn selection_flags(&self, count: usize) -> (r: Vec<bool>)
        ensures
            r@ == Seq::new(
                count as nat,
                |i: int| i < self.flags@.len() && self.flags@[i],
            ),
    {
        let mut out: Vec<bool> = Vec::new();
        let mut i: usize = 0;
        while i < count
            invariant
                i <= count,
                out@ == Seq::new(i as nat, |j: int| j < self.flags@.len() && self.flags@[j]),
            decreases count - i,
        {
            let flag: bool = i < self.flags.len() && self.flags[i];
            out.push(flag);
            assert(out@ =~= Seq::new(
                (i + 1) as nat,
                |j: int| j < self.flags@.len() && self.flags@[j],
            ));
            i += 1;
        }
        out
    }

    fn set_selection_flags(&mut self, flags: Vec<bool>)
        requires
            flags@.len() <= i32::MAX,
        ensures
            final(self).wf(),
            final(self)@ == (SelectionView { flags: flags@, ..old(self)@ }),
    {
        let mut all: bool = flags.len() > 0;
        let mut i: usize = 0;
        while i < flags.len()
            invariant
                i <= flags@.len(),
                all == (flags@.len() > 0 && forall|j: int| 0 <= j < i ==> #[trigger] flags@[j]),
            decreases flags@.len() - i,
        {
            if !flags[i] {
                all = false;
            }
            i += 1;
        }
        self.flags = flags;
        self.all = all;
    }

    /// Select all rows, or none.
    pub fn select_all_entries(&mut self, selected: bool)
        requires
            old(self).wf(),
        ensures
            final(self).wf(),
            final(self)@ == old(self)@.everything(selected),
    {
        let count: usize = self.flags.len();
        let flags: Vec<bool> = filled_flags(count, selected);
        let row: i32 = if selected && count > 0 {
            0
        } else {
            -1
        };
        self.range = false;
        self.anchor = row;
        self.end = row;
        self.cursor = row;
        self.set_selection_flags(flags);
        assert(self@.flags =~= old(self)@.everything(selected).flags);
    }

    /// A click on a row.
    pub fn select_entry(&mut self, index: i32, extend: bool, toggle: bool)
        requires
            old(self).wf(),
        ensures
            final(self).wf(),
            final(self)@ == old(self)@.clicked(index as int, extend, toggle),
    {
        let count: usize = self.flags.len();
        if index < 0 || index as usize >= count {
            return ;
        }
        let at: usize = index as usize;
        if toggle {
            let mut flags: Vec<bool> = self.selection_flags(count);
            assert(flags@ =~= self.flags@);
            let flag: bool = !flags[at];
            flags.set(at, flag);
            let cursor: i32 = if flag {
                index
            } else {
                first_flag(&flags)
            };
            self.range = false;
            self.anchor = index;
            self.end = index;
            self.cursor = cursor;
            self.set_selection_flags(flags);
        } else if extend && self.cursor >= 0 {
            let anchor: i32 = if self.anchor >= 0 {
                self.anchor
            } else {
                self.cursor
            };
            let flags: Vec<bool> = flags_between(count, anchor, index);
            self.anchor = anchor;
            self.end = index;
            self.range = true;
            self.cursor = index;
            self.set_selection_flags(flags);
        } else {
            let flags: Vec<bool> = flags_between(count, index, index);
            assert(flags@ =~= only_row(count as nat, index as int));
            self.range = false;
            self.anchor = index;
            self.end = index;
            self.cursor = index;
            self.set_selection_flags(flags);
        }
    }

    /// An arrow key.
    pub fn move_selection(&mut self, delta: i32, extend: bool)
        requires
            old(self).wf(),
        ensures
            final(self).wf(),
            final(self)@ == old(self)@.moved(delta as int, extend),
    {
        let count: usize = self.flags.len();
        if count == 0 {
            return ;
        }
        let last: i64 = count as i64 - 1;
        let next: i64 = if self.cursor < 0 {
            if delta > 0 {
                0
            } else {
                last
            }
        } else {
            let wanted: i64 = self.cursor as i64 + delta as i64;
            if wanted < 0 {
                0
            } else if wanted > last {
                last
            } else {
                wanted
            }
        };
        self.select_entry(next as i32, extend, false);
    }

    /// The row of the cursor, if there is one.
    pub fn cursor_row(&self) -> (r: Option<usize>)
        requires
            self.wf(),
        ensures
            r == (if 0 <= self.cursor < self.flags@.len() {
                Some(self.cursor as usize)
            } else {
                None
            }),
    {
        if self.cursor >= 0 && (self.cursor as usize) < self.flags.len() {
            Some(self.cursor as usize)
        } else {
            None
        }
    }
}

fn filled_flags(count: usize, flag: bool) -> (r: Vec<bool>)
    ensures
        r@ == Seq::new(count as nat, |i: int| flag),
{
    let mut out: Vec<bool> = Vec::new();
    let mut i: usize = 0;
    while i < count
        invariant
            i <= count,
            out@ == Seq::new(i as nat, |j: int| flag),
        decreases count - i,
    {
        out.push(flag);
        assert(out@ =~= Seq::new((i + 1) as nat, |j: int| flag));
        i += 1;
    }
    out
}

fn flags_between(count: usize, a: i32, b: i32) -> (r: Vec<bool>)
    requires
        count <= i32::MAX,
    ensures
        r@ == rows_between(count as nat, a as int, b as int),
{
    let mut out: Vec<bool> = Vec::new();
    let mut i: usize = 0;
    while i < count
        invariant
            i <= count <= i32::MAX,
            out@ == rows_between(i as nat, a as int, b as int),
        decreases count - i,
    {
        let row: i32 = i as i32;
        out.push((a <= row && row <= b) || (b <= row && row <= a));
        assert(out@ =~= rows_between((i + 1) as nat, a as int, b as int));
        i += 1;
    }
    out
}

fn first_flag(flags: &Vec<bool>) -> (r: i32)
    requires
        flags@.len() <= i32::MAX,
    ensures
        r == first_selected(flags@, 0),
{
    let mut i: usize = 0;
    while i < flags.len()
        invariant
            i <= flags@.len() <= i32::MAX,
            first_selected(flags@, i as int) == first_selected(flags@, 0),
        decreases flags@.len() - i,
    {
        if flags[i] {
            return i as i32;
        }
        i += 1;
    }
    -1
}

pub open spec fn selected_rows(entries: Seq<EntryRow>, flags: Seq<bool>) -> Seq<EntryRow>
    decreases entries.len(),
{
    if entries.len() == 0 {
        Seq::empty()
    } else {
        let front = selected_rows(entries.drop_last(), flags);
        let i = entries.len() - 1;
        if i < flags.len() && flags[i] {
            front.push(entries.last())
        } else {
            front
        }
    }
}

/// The rows that are selected, in the order of the pane.
pub fn selected_transfer_rows(entries: &Vec<EntryRow>, selection: &Vec<bool>) -> (r: Vec<EntryRow>)
    ensures
        r@ == selected_rows(entries@, selection@),
{
    let mut out: Vec<EntryRow> = Vec::new();
    let mut i: usize = 0;
    while i < entries.len()
        invariant
            i <= entries@.len(),
            out@ == selected_rows(entries@.take(i as int), selection@),
        decreases entries@.len() - i,
    {
        assert(entries@.take(i + 1).drop_last() =~= entries@.take(i as int));
        assert(entries@.take(i + 1).last() == entries@[i as int]);
        if i < selection.len() && selection[i] {
            out.push(entries[i].clone());
        }
        i += 1;
    }
    assert(entries@.take(entries@.len() as int) =~= entries@);
    out
}

// --- laws --------------------------------------------------------------------------------------

/// What a selection with a cursor satisfies: the cursor stands on a selected row or nowhere.
pub open spec fn cursor_is_selected(s: SelectionView) -> bool {
    s.cursor == -1 || (0 <= s.cursor < s.flags.len() && s.flags[s.cursor])
}

proof fn lemma_first_selected(flags: Seq<bool>, from: int)
    requires
        0 <= from <= flags.len(),
    ensures
        first_selected(flags, from) == -1 || (from <= first_selected(flags, from) < flags.len()
            && flags[first_selected(flags, from)]),
    decreases flags.len() - from,
{
    if from < flags.len() && !flags[from] {
        lemma_first_selected(flags, from + 1);
    }
}

/// However rows are clicked and walked over, the cursor never stands on a row that is not selected.
pub proof fn the_cursor_stays_on_a_selected_row(
    s: SelectionView,
    index: int,
    delta: int,
    extend: bool,
    toggle: bool,
    selected: bool,
)
    requires
        cursor_is_selected(s),
        s.flags.len() <= i32::MAX,
        s.anchor >= -1,
    ensures
        cursor_is_selected(s.clicked(index, extend, toggle)),
        cursor_is_selected(s.moved(delta, extend)),
        cursor_is_selected(s.everything(selected)),
        s.clicked(index, extend, toggle).flags.len() == s.flags.len(),
        s.moved(delta, extend).flags.len() == s.flags.len(),
{
    if 0 <= index < s.flags.len() && toggle {
        let flags = s.flags.update(index, !s.flags[index]);
        lemma_first_selected(flags, 0);
    }
}

/// Toggling a row twice leaves the selected rows as they were.
pub proof fn toggling_a_row_twice_changes_nothing(s: SelectionView, index: int)
    requires
        0 <= index < s.flags.len() <= i32::MAX,
    ensures
        s.clicked(index, false, true).clicked(index, false, true).flags == s.flags,
{
    assert(s.clicked(index, false, true).clicked(index, false, true).flags =~= s.flags);
}

/// Extending keeps the anchor: extending to one row and then to another selects what extending to
/// the other at once does.
pub proof fn extending_goes_by_the_anchor(s: SelectionView, i: int, j: int)
    requires
        s.flags.len() <= i32::MAX,
        0 <= i < s.flags.len(),
        0 <= j < s.flags.len(),
        s.cursor >= 0,
    ensures
        s.clicked(i, true, false).clicked(j, true, false) == s.clicked(j, true, false),
{
}

} // verus!
