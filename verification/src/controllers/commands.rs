//! Keyboard commands, the paths of what is selected, and sort commands.

use vstd::prelude::*;

use crate::controllers::panes::{selected_rows, selected_transfer_rows, EntryRow};
use crate::controllers::state::{PaneId, SortDirection, SortKey};
use crate::net::ssh_resolve::{join_path, path_join};
use crate::numerals::{decimal, to_decimal};
use crate::pieces::{join, joined, views};
use crate::text::{
    ascii_lower, ascii_lower_char, chars_of, lowercase, plus, string_of, to_lowercase,
};

verus! {

// --- type-ahead --------------------------------------------------------------------------------

/// A single letter of ASCII.
pub open spec fn typed_letter(text: Seq<char>) -> Option<char> {
    if text.len() == 1 && ('a' <= ascii_lower(text[0]) <= 'z') {
        Some(ascii_lower(text[0]))
    } else {
        None
    }
}

/// The name begins with the letter, whatever the case.
pub open spec fn begins_with(name: Seq<char>, letter: char) -> bool {
    lowercase(name).len() > 0 && lowercase(name)[0] == letter
}

/// The first entry whose name begins with the letter.
pub open spec fn first_beginning(entries: Seq<EntryRow>, letter: char, from: int) -> Option<int>
    decreases entries.len() - from,
{
    if from < 0 || from >= entries.len() {
        None
    } else if begins_with(entries[from].name@, letter) {
        Some(from)
    } else {
        first_beginning(entries, letter, from + 1)
    }
}

/// The row that a typed letter leads to; anything but a single letter leads nowhere.
#[verifier::loop_isolation(false)]
pub fn type_ahead(entries: &Vec<EntryRow>, text: &str) -> (r: Option<usize>)
    ensures
        match typed_letter(text@) {
            None => r is None,
            Some(letter) => match first_beginning(entries@, letter, 0) {
                Some(i) => r == Some(i as usize) && 0 <= i < entries@.len(),
                None => r is None,
            },
        },
{
    let chars: Vec<char> = chars_of(text);
    if chars.len() != 1 {
        return None;
    }
    let letter: char = ascii_lower_char(chars[0]);
    if !('a' <= letter && letter <= 'z') {
        return None;
    }
    let mut i: usize = 0;
    while i < entries.len()
        invariant
            i <= entries@.len(),
            first_beginning(entries@, letter, i as int) == first_beginning(entries@, letter, 0),
        decreases entries@.len() - i,
    {
        let name: Vec<char> = chars_of(to_lowercase(entries[i].name.as_str()).as_str());
        if name.len() > 0 && name[0] == letter {
            return Some(i);
        }
        i += 1;
    }
    None
}

// --- paths -------------------------------------------------------------------------------------

/// The path of an entry.
fn entry_path(cwd: &str, name: &str) -> (r: String)
    ensures
        r@ == path_join(cwd@, name@),
{
    let a: Vec<char> = chars_of(cwd);
    let b: Vec<char> = chars_of(name);
    string_of(&join_path(&a, &b))
}

pub open spec fn selected_path_text(
    entries: Seq<EntryRow>,
    flags: Seq<bool>,
    cwd: Seq<char>,
) -> Seq<char> {
    let rows = selected_rows(entries, flags);
    if rows.len() > 1 {
        decimal(rows.len()) + " items selected"@
    } else if rows.len() == 1 {
        path_join(cwd, rows[0].name@)
    } else {
        cwd
    }
}

/// What the bottom bar shows: the path of the selected entry, the folder where nothing is selected,
/// and a number where more than one is.
pub fn current_selected_path(entries: &Vec<EntryRow>, selection: &Vec<bool>, cwd: &str) -> (r: String)
    ensures
        r@ == selected_path_text(entries@, selection@, cwd@),
{
    let rows: Vec<EntryRow> = selected_transfer_rows(entries, selection);
    if rows.len() > 1 {
        let number: String = string_of(&to_decimal(rows.len() as u64));
        plus(number, " items selected")
    } else if rows.len() == 1 {
        entry_path(cwd, rows[0].name.as_str())
    } else {
        cwd.to_owned()
    }
}

pub open spec fn paths_of(rows: Seq<EntryRow>, cwd: Seq<char>) -> Seq<Seq<char>> {
    rows.map_values(|row: EntryRow| path_join(cwd, row.name@))
}

/// What is copied: every selected path on a line of its own, else the folder.
pub fn selected_paths_for_clipboard(entries: &Vec<EntryRow>, selection: &Vec<bool>, cwd: &str) -> (r:
    String)
    ensures
        ({
            let rows = selected_rows(entries@, selection@);
            r@ == if rows.len() == 0 {
                cwd@
            } else {
                joined(paths_of(rows, cwd@), "\n"@)
            }
        }),
{
    let rows: Vec<EntryRow> = selected_transfer_rows(entries, selection);
    if rows.len() == 0 {
        return cwd.to_owned();
    }
    let mut paths: Vec<Vec<char>> = Vec::new();
    let folder: Vec<char> = chars_of(cwd);
    let mut i: usize = 0;
    while i < rows.len()
        invariant
            i <= rows@.len(),
            folder@ == cwd@,
            paths@.len() == i,
            forall|j: int| 0 <= j < i ==> (#[trigger] paths@[j])@ == path_join(cwd@, rows@[j].name@),
        decreases rows@.len() - i,
    {
        let name: Vec<char> = chars_of(rows[i].name.as_str());
        paths.push(join_path(&folder, &name));
        i += 1;
    }
    assert(views(paths@) =~= paths_of(rows@, cwd@));
    let separator: Vec<char> = chars_of("\n");
    string_of(&join(&paths, &separator))
}

// --- sorting -----------------------------------------------------------------------------------

/// The pane and the column of a sort command.
pub fn apply_sort_field(pane: &str, key: &str) -> (r: Result<(PaneId, SortKey), &'static str>)
    ensures
        match r {
            Ok(pair) => pair.0.word() == pane@ && pair.1.word() == key@,
            Err(e) => if forall|p: PaneId| #[trigger] p.word() != pane@ {
                e@ == "Invalid pane in sort request."@
            } else {
                e@ == "Invalid sort field."@ && forall|k: SortKey| #[trigger] k.word() != key@
            },
        },
{
    let pane: PaneId = match PaneId::try_from(pane) {
        Ok(pane) => pane,
        Err(_) => {
            return Err("Invalid pane in sort request.");
        },
    };
    match SortKey::try_from(key) {
        Ok(key) => Ok((pane, key)),
        Err(_) => Err("Invalid sort field."),
    }
}

/// The pane of a command that reverses its sorting, and the direction that it gets.
pub fn toggle_sort_dir(pane: &str, current: &str) -> (r: Result<
    (PaneId, SortDirection),
    &'static str,
>)
    ensures
        match r {
            Ok(pair) => pair.0.word() == pane@ && pair.1.spec_reversed().word() == current@,
            Err(e) => if forall|p: PaneId| #[trigger] p.word() != pane@ {
                e@ == "Invalid pane in sort request."@
            } else {
                e@ == "Invalid sort direction."@ && forall|d: SortDirection| #[trigger]
                    d.word() != current@
            },
        },
{
    let pane: PaneId = match PaneId::try_from(pane) {
        Ok(pane) => pane,
        Err(_) => {
            return Err("Invalid pane in sort request.");
        },
    };
    match SortDirection::try_from(current) {
        Ok(direction) => Ok((pane, direction.reversed())),
        Err(_) => Err("Invalid sort direction."),
    }
}

// --- preview -----------------------------------------------------------------------------------

/// What a preview needs.
#[derive(Debug, PartialEq, Eq)]
pub enum PreviewPlan {
    Nothing,
    /// Show a local file.
    Show(String),
    /// Fetch a remote file first; it is removed again once it has been shown.
    Fetch(String),
}

pub ghost enum PreviewView {
    Nothing,
    Show(Seq<char>),
    Fetch(Seq<char>),
}

impl View for PreviewPlan {
    type V = PreviewView;

    open spec fn view(&self) -> PreviewView {
        match *self {
            PreviewPlan::Nothing => PreviewView::Nothing,
            PreviewPlan::Show(path) => PreviewView::Show(path@),
            PreviewPlan::Fetch(path) => PreviewView::Fetch(path@),
        }
    }
}

/// What a preview of the row of the cursor needs. Folders have none; a remote file has one only
/// where its server is known and can be logged in to.
pub fn pane_preview(row: Option<&EntryRow>, cwd: &str, is_remote: bool, can_log_in: bool) -> (r:
    PreviewPlan)
    ensures
        r@ == (match row {
            None => PreviewView::Nothing,
            Some(row) => if row.is_dir {
                PreviewView::Nothing
            } else if !is_remote {
                PreviewView::Show(path_join(cwd@, row.name@))
            } else if can_log_in {
                PreviewView::Fetch(path_join(cwd@, row.name@))
            } else {
                PreviewView::Nothing
            },
        }),
{
    match row {
        None => PreviewPlan::Nothing,
        Some(row) => {
            if row.is_dir {
                return PreviewPlan::Nothing;
            }
            if !is_remote {
                PreviewPlan::Show(entry_path(cwd, row.name.as_str()))
            } else if can_log_in {
                PreviewPlan::Fetch(entry_path(cwd, row.name.as_str()))
            } else {
                PreviewPlan::Nothing
            }
        },
    }
}

} // verus!
