//! The file-tree bookkeeping, the configuration defaults and the git
//! decision helpers.
use rnotes::config::Config;
use rnotes::file_tree::{
    format_display_name, keep_entry, sort_entries, DirEntryInfo, FileTree, TreeItem,
};
use rnotes::git::{GitManager, GitStatus, StatusFlags};
use rnotes::text::source_lines;

fn item(path: &str, is_dir: bool, is_expanded: bool) -> TreeItem {
    TreeItem {
        path: path.to_string(),
        display_name: path.to_string(),
        is_expanded,
        is_dir,
    }
}

#[test]
fn hidden_entries_and_non_markdown_files_are_filtered_out() {
    assert!(keep_entry("notes.md", false));
    assert!(keep_entry("dir", true));
    assert!(!keep_entry(".git", true));
    assert!(!keep_entry(".hidden.md", false));
    assert!(!keep_entry("notes.txt", false));
    assert!(!keep_entry("md", false));
    assert!(keep_entry("a.b.md", false));
}

#[test]
fn display_names_carry_indent_and_kind_glyphs() {
    assert_eq!(format_display_name("a.md", false, false, 0), "  a.md");
    assert_eq!(format_display_name("dir", true, false, 1), "  ▶ dir");
    assert_eq!(format_display_name("dir", true, true, 2), "    ▼ dir");
}

#[test]
fn entries_sort_directories_first_then_alphabetically() {
    let entries = vec![
        DirEntryInfo { name: "zeta.md".to_string(), is_dir: false },
        DirEntryInfo { name: "beta".to_string(), is_dir: true },
        DirEntryInfo { name: "alpha.md".to_string(), is_dir: false },
        DirEntryInfo { name: "acme".to_string(), is_dir: true },
    ];
    let sorted = sort_entries(&entries);
    let names: Vec<&str> = sorted.iter().map(|e| e.name.as_str()).collect();
    assert_eq!(names, vec!["acme", "beta", "alpha.md", "zeta.md"]);
}

#[test]
fn selection_wraps_around_both_ways() {
    let items = vec![item("a", false, false), item("b", false, false), item("c", false, false)];
    let mut tree = FileTree::from_items("/root".to_string(), items);
    assert_eq!(tree.selected, Some(0));
    tree.next();
    tree.next();
    assert_eq!(tree.selected, Some(2));
    tree.next();
    assert_eq!(tree.selected, Some(0));
    tree.previous();
    assert_eq!(tree.selected, Some(2));
    tree.previous();
    assert_eq!(tree.selected, Some(1));
}

#[test]
fn empty_tree_has_no_selection_and_ignores_navigation() {
    let mut tree = FileTree::from_items("/root".to_string(), vec![]);
    assert_eq!(tree.selected, None);
    tree.next();
    assert_eq!(tree.selected, None);
    tree.previous();
    assert_eq!(tree.selected, None);
}

#[test]
fn selected_file_skips_directories() {
    let items = vec![item("d", true, false), item("f.md", false, false)];
    let mut tree = FileTree::from_items("/root".to_string(), items);
    assert_eq!(tree.get_selected_file(), None);
    assert_eq!(tree.get_selected_path().map(|p| p.as_str()), Some("d"));
    tree.next();
    assert_eq!(tree.get_selected_file().map(|p| p.as_str()), Some("f.md"));
}

#[test]
fn expansion_state_lists_expanded_directories_in_row_order() {
    let items = vec![
        item("a", true, true),
        item("a/x.md", false, false),
        item("b", true, false),
        item("c", true, true),
    ];
    let tree = FileTree::from_items("/root".to_string(), items);
    assert_eq!(tree.get_expansion_state(), vec!["a".to_string(), "c".to_string()]);
}

#[test]
fn toggling_a_collapsed_directory_adds_it_to_the_expansion_set() {
    let items = vec![item("a", true, true), item("b", true, false)];
    let mut tree = FileTree::from_items("/root".to_string(), items);
    tree.next();
    let (dirs, sel) = tree.toggle_expansion().unwrap();
    assert_eq!(sel, "b");
    assert_eq!(dirs, vec!["a".to_string(), "b".to_string()]);
}

#[test]
fn toggling_an_expanded_directory_removes_it_from_the_expansion_set() {
    let items = vec![item("a", true, true), item("b", true, true)];
    let tree = FileTree::from_items("/root".to_string(), items);
    let (dirs, sel) = tree.toggle_expansion().unwrap();
    assert_eq!(sel, "a");
    assert_eq!(dirs, vec!["b".to_string()]);
}

#[test]
fn toggling_a_file_does_nothing() {
    let items = vec![item("f.md", false, false)];
    let tree = FileTree::from_items("/root".to_string(), items);
    assert!(tree.toggle_expansion().is_none());
}

#[test]
fn refresh_keeps_the_selection_on_the_given_path() {
    let mut tree = FileTree::from_items("/root".to_string(), vec![item("a", false, false)]);
    let new_items = vec![item("a", false, false), item("b", false, false)];
    tree.refresh_with_state(new_items, Some("b".to_string()));
    assert_eq!(tree.selected, Some(1));
    let renamed = vec![item("c", false, false), item("d", false, false)];
    tree.refresh_with_state(renamed, Some("gone".to_string()));
    assert_eq!(tree.selected, Some(0));
    tree.refresh_with_state(vec![], None);
    assert_eq!(tree.selected, None);
}

#[test]
fn default_config_points_at_rnotes_under_home() {
    let c = Config::default_with_home("/home/u");
    assert_eq!(c.root_directory, "/home/u/rnotes");
    assert_eq!(c.editor, "vim");
    assert!(!c.git_enabled);
    assert_eq!(c.git_repository, None);
    assert_eq!(c.git_username, None);
    assert_eq!(c.git_email, None);
}

#[test]
fn git_sync_requires_both_the_switch_and_a_remote() {
    let mut c = Config::default_with_home("/h");
    let m = GitManager::new(c.clone());
    assert!(!m.remote_sync_enabled());
    c.git_enabled = true;
    let m = GitManager::new(c.clone());
    assert!(!m.remote_sync_enabled());
    assert!(m.git_enabled());
    c.git_repository = Some("url".to_string());
    let m = GitManager::new(c.clone());
    assert!(m.remote_sync_enabled());
    assert!(m.has_remote_configured());
}

#[test]
fn signature_falls_back_to_fixed_defaults() {
    let mut c = Config::default_with_home("/h");
    let m = GitManager::new(c.clone());
    assert_eq!(m.signature_name(), "RNotes User");
    assert_eq!(m.signature_email(), "rnotes@localhost");
    c.git_username = Some("u".to_string());
    c.git_email = Some("u@e".to_string());
    let m = GitManager::new(c);
    assert_eq!(m.signature_name(), "u");
    assert_eq!(m.signature_email(), "u@e");
}

#[test]
fn commit_message_carries_the_timestamp() {
    assert_eq!(
        GitManager::commit_message("2024-01-01 00:00:00 UTC"),
        "Manual commit from RNotes - 2024-01-01 00:00:00 UTC"
    );
}

fn flags(wt_m: bool, wt_d: bool, wt_n: bool, i_m: bool, i_n: bool, i_d: bool) -> StatusFlags {
    StatusFlags {
        wt_modified: wt_m,
        wt_deleted: wt_d,
        wt_new: wt_n,
        index_modified: i_m,
        index_new: i_n,
        index_deleted: i_d,
    }
}

#[test]
fn status_counts_modified_untracked_and_staged_files() {
    let entries = vec![
        flags(true, false, false, false, false, false),
        flags(false, true, false, false, false, false),
        flags(false, false, true, false, false, false),
        flags(false, false, false, true, true, false),
        flags(false, false, false, false, false, false),
    ];
    let st = GitManager::status_from_entries(&entries, true);
    assert_eq!(st.modified, 2);
    assert_eq!(st.untracked, 1);
    assert_eq!(st.staged, 1);
    assert!(st.has_remote);
    assert!(st.has_changes());
}

#[test]
fn a_clean_status_reports_no_changes() {
    let st = GitStatus::default();
    assert!(!st.has_changes());
    let st = GitManager::status_from_entries(&vec![], false);
    assert!(!st.has_changes());
}

#[test]
fn source_lines_split_like_the_standard_lines_iterator() {
    assert_eq!(source_lines(""), Vec::<String>::new());
    assert_eq!(source_lines("a\nb"), vec!["a", "b"]);
    assert_eq!(source_lines("a\nb\n"), vec!["a", "b"]);
    assert_eq!(source_lines("a\r\nb"), vec!["a", "b"]);
    assert_eq!(source_lines("\n"), vec![""]);
    assert_eq!(source_lines("a\n\nb"), vec!["a", "", "b"]);
}
