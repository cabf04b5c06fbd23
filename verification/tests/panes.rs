use gmacftp::controllers::commands::{
    apply_sort_field, current_selected_path, pane_preview, selected_paths_for_clipboard,
    toggle_sort_dir, type_ahead, PreviewPlan,
};
use gmacftp::controllers::panes::{
    apply_view_pane, entry_matches_filter, pane_sorting, selected_transfer_rows, EntryRow,
    PaneSelection,
};
use gmacftp::controllers::{PaneId, SortDirection, SortKey};

fn row(name: &str, is_dir: bool, size: i32) -> EntryRow {
    EntryRow {
        name: name.into(),
        is_dir,
        size,
        mtime: 0,
        owner: String::new(),
        group: String::new(),
        permissions: String::new(),
        true_size: None,
        true_mtime: None,
    }
}

fn names(rows: &[EntryRow]) -> Vec<&str> {
    rows.iter().map(|row| row.name.as_str()).collect()
}

fn rows() -> Vec<EntryRow> {
    vec![
        row("b.txt", false, 2),
        row(".hidden", false, 9),
        row("Ągora", true, 0),
        row("A.txt", false, 5),
    ]
}

#[test]
fn panes_show_directories_first() {
    let shown = apply_view_pane(&rows(), false, "", SortKey::Name, SortDirection::Ascending);
    assert_eq!(names(&shown), vec!["Ągora", "A.txt", "b.txt"]);
    let shown = apply_view_pane(&rows(), true, "", SortKey::Size, SortDirection::Descending);
    assert_eq!(names(&shown), vec!["Ągora", ".hidden", "A.txt", "b.txt"]);
    let mut large = rows();
    large[0].true_size = Some(1 << 40);
    let shown = apply_view_pane(&large, false, "", SortKey::Size, SortDirection::Descending);
    assert_eq!(names(&shown), vec!["Ągora", "b.txt", "A.txt"]);
}

#[test]
fn every_word_of_a_filter_has_to_occur() {
    assert!(entry_matches_filter(&row("Final Budget ŻÓŁĆ.pdf", false, 0), "żółć final"));
    assert!(!entry_matches_filter(&row("Final.pdf", false, 0), "final budget"));
    let shown = apply_view_pane(&rows(), false, "TXT", SortKey::Name, SortDirection::Ascending);
    assert_eq!(names(&shown), vec!["A.txt", "b.txt"]);
}

#[test]
fn sorting_falls_back_to_the_name() {
    assert_eq!(pane_sorting("size", "desc"), (SortKey::Size, SortDirection::Descending));
    assert_eq!(pane_sorting("?", "?"), (SortKey::Name, SortDirection::Ascending));
    assert_eq!(apply_sort_field("local", "date"), Ok((PaneId::Left, SortKey::Date)));
    assert!(apply_sort_field("local", "?").is_err());
    assert_eq!(
        toggle_sort_dir("remote", "asc"),
        Ok((PaneId::Right, SortDirection::Descending))
    );
    assert!(toggle_sort_dir("?", "asc").is_err());
}

#[test]
fn clicks_select_rows() {
    let mut selection = PaneSelection::none(4);
    assert_eq!(selection.cursor_row(), None);
    selection.select_entry(1, false, false);
    assert_eq!(selection.flags, vec![false, true, false, false]);
    selection.select_entry(3, true, false);
    assert_eq!(selection.flags, vec![false, true, true, true]);
    selection.select_entry(2, false, true);
    assert_eq!(selection.flags, vec![false, true, false, true]);
    assert_eq!(selection.cursor_row(), Some(1));
    selection.select_entry(2, false, true);
    assert_eq!(selection.flags, vec![false, true, true, true]);
    selection.select_entry(9, false, false);
    assert_eq!(selection.flags, vec![false, true, true, true]);
    selection.select_all_entries(true);
    assert!(selection.all);
    assert_eq!(selection.selection_flags(5), vec![true, true, true, true, false]);
}

#[test]
fn arrow_keys_stay_within_the_rows() {
    let mut selection = PaneSelection::none(3);
    selection.move_selection(1, false);
    assert_eq!(selection.cursor_row(), Some(0));
    selection.move_selection(-1, false);
    assert_eq!(selection.cursor_row(), Some(0));
    selection.move_selection(1, true);
    selection.move_selection(1, true);
    assert_eq!(selection.flags, vec![true, true, true]);
    selection.move_selection(5, false);
    assert_eq!(selection.flags, vec![false, false, true]);
    let mut empty = PaneSelection::none(0);
    empty.move_selection(1, false);
    assert_eq!(empty.cursor_row(), None);
}

#[test]
fn selected_rows_are_taken_over() {
    let rows = rows();
    let flags = vec![true, false, true, false];
    assert_eq!(names(&selected_transfer_rows(&rows, &flags)), vec!["b.txt", "Ągora"]);
    assert_eq!(
        selected_paths_for_clipboard(&rows, &flags, "/home"),
        "/home/b.txt\n/home/Ągora"
    );
    assert_eq!(current_selected_path(&rows, &flags, "/home"), "2 items selected");
    let one = vec![true, false, false, false];
    assert_eq!(current_selected_path(&rows, &one, "/home"), "/home/b.txt");
    assert_eq!(type_ahead(&rows, "A"), Some(3));
    assert_eq!(type_ahead(&rows, "ą"), None);
    assert_eq!(type_ahead(&rows, "ab"), None);
}

#[test]
fn previews_are_of_files_alone() {
    let file = row("b.txt", false, 2);
    assert_eq!(pane_preview(Some(&file), "/h", false, false), PreviewPlan::Show("/h/b.txt".into()));
    assert_eq!(pane_preview(Some(&file), "/h", true, true), PreviewPlan::Fetch("/h/b.txt".into()));
    assert_eq!(pane_preview(Some(&file), "/h", true, false), PreviewPlan::Nothing);
    assert_eq!(pane_preview(Some(&row("d", true, 0)), "/h", false, true), PreviewPlan::Nothing);
    assert_eq!(pane_preview(None, "/h", false, true), PreviewPlan::Nothing);
}
