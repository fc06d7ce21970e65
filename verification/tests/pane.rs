use cookie_commander::pane::PaneState;
use cookie_commander::vfs::{FileMetadata, FileType};

fn entry(name: &str, size: u64, file_type: FileType) -> FileMetadata {
    FileMetadata { name: name.to_string(), size, file_type, modified: None }
}

#[test]
fn test_pane_state_refresh_and_sorting() {
    let raw = vec![
        entry("file_b.txt", 100, FileType::File),
        entry("dir_b", 0, FileType::Directory),
        entry("..", 0, FileType::Directory),
        entry("dir_a", 0, FileType::Directory),
        entry("file_a.txt", 50, FileType::File),
    ];

    let mut state = PaneState::new("/test".to_string());
    state.apply_listing(raw);

    // Check entries order: ".." then directories sorted, then files sorted
    assert_eq!(state.entries.len(), 5);
    assert_eq!(state.entries[0].name, "..");
    assert_eq!(state.entries[1].name, "dir_a");
    assert_eq!(state.entries[2].name, "dir_b");
    assert_eq!(state.entries[3].name, "file_a.txt");
    assert_eq!(state.entries[4].name, "file_b.txt");
}

#[test]
fn test_pane_navigation() {
    let mut state = PaneState::new("/test".to_string());
    state.entries = vec![
        entry("..", 0, FileType::Directory),
        entry("dir_a", 0, FileType::Directory),
        entry("file_a.txt", 10, FileType::File),
    ];
    state.selected_index = 0;

    state.select_next();
    assert_eq!(state.selected_index, 1);

    state.select_next();
    assert_eq!(state.selected_index, 2);

    // Clamp at end
    state.select_next();
    assert_eq!(state.selected_index, 2);

    state.select_prev();
    assert_eq!(state.selected_index, 1);

    state.select_prev();
    assert_eq!(state.selected_index, 0);

    // Clamp at start
    state.select_prev();
    assert_eq!(state.selected_index, 0);
}

#[test]
fn listing_sorts_without_regard_to_case_and_stably() {
    let raw = vec![
        entry("b.txt", 1, FileType::File),
        entry("Zed", 0, FileType::Directory),
        entry("a.txt", 2, FileType::File),
        entry("alpha", 0, FileType::Directory),
        entry("link", 0, FileType::Symlink),
        entry("B.TXT", 3, FileType::File),
        entry("odd", 0, FileType::Unknown),
    ];
    let mut state = PaneState::new("/x".to_string());
    state.apply_listing(raw);
    let names: Vec<&str> = state.entries.iter().map(|e| e.name.as_str()).collect();
    // "b.txt" and "B.TXT" have the same key: they keep their order.
    assert_eq!(names, vec!["alpha", "Zed", "a.txt", "b.txt", "B.TXT", "link", "odd"]);
}

#[test]
fn listing_keeps_only_the_last_parent_entry() {
    let raw = vec![
        entry("..", 1, FileType::Directory),
        entry("f", 0, FileType::File),
        entry("..", 2, FileType::File),
    ];
    let mut state = PaneState::new("/x".to_string());
    state.apply_listing(raw);
    assert_eq!(state.entries.len(), 2);
    assert_eq!(state.entries[0].name, "..");
    assert_eq!(state.entries[0].size, 2);
    assert_eq!(state.entries[1].name, "f");
}

#[test]
fn listing_pulls_the_cursor_back() {
    let mut state = PaneState::new("/x".to_string());
    state.selected_index = 7;
    state.apply_listing(vec![entry("a", 0, FileType::File), entry("b", 0, FileType::File)]);
    assert_eq!(state.selected_index, 1);
    state.apply_listing(vec![]);
    assert_eq!(state.selected_index, 0);
    state.apply_listing(vec![entry("a", 0, FileType::File), entry("b", 0, FileType::File)]);
    state.selected_index = 1;
    state.apply_listing(vec![
        entry("a", 0, FileType::File),
        entry("b", 0, FileType::File),
        entry("c", 0, FileType::File),
    ]);
    assert_eq!(state.selected_index, 1);
    assert_eq!(state.current_path, "/x");
}

#[test]
fn selected_entry_follows_the_cursor() {
    let mut state = PaneState::new("/x".to_string());
    assert!(state.selected_entry().is_none());
    state.apply_listing(vec![entry("a", 0, FileType::File), entry("b", 5, FileType::File)]);
    state.select_next();
    assert_eq!(state.selected_entry().unwrap().name, "b");
    state.selected_index = 9;
    assert!(state.selected_entry().is_none());
}

#[test]
fn cursor_moves_on_an_empty_pane_do_nothing() {
    let mut state = PaneState::new("/x".to_string());
    state.select_next();
    assert_eq!(state.selected_index, 0);
    state.select_prev();
    assert_eq!(state.selected_index, 0);
}
