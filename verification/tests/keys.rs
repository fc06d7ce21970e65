use cookie_commander::keys::{viewer_page_lines, viewer_visible_height, KeyAction, KeyInput};
use cookie_commander::manager::{AppStateManager, FileViewerState, InputMode};
use cookie_commander::vfs::{FileMetadata, FileType};

fn entry(name: &str) -> FileMetadata {
    FileMetadata { name: name.to_string(), size: 0, file_type: FileType::File, modified: None }
}

fn manager_with_entries() -> AppStateManager {
    let mut m = AppStateManager::new("/l".to_string(), "/r".to_string());
    m.finish_init(Ok(vec![entry("a"), entry("b"), entry("c")]), Ok(vec![])).unwrap();
    m
}

#[test]
fn normal_mode_bindings() {
    let mut m = manager_with_entries();
    assert_eq!(m.handle_key(KeyInput::Char('q'), None), KeyAction::Quit);
    assert_eq!(m.handle_key(KeyInput::Esc, None), KeyAction::Quit);
    assert_eq!(m.handle_key(KeyInput::Down, None), KeyAction::Continue);
    assert_eq!(m.left_pane.selected_index, 1);
    assert_eq!(m.handle_key(KeyInput::Up, None), KeyAction::Continue);
    assert_eq!(m.left_pane.selected_index, 0);
    assert_eq!(m.handle_key(KeyInput::Enter, None), KeyAction::Enter);
    assert_eq!(m.handle_key(KeyInput::Backspace, None), KeyAction::NavigateUp);
    assert_eq!(m.handle_key(KeyInput::Tab, None), KeyAction::Continue);
    assert!(!m.active_left);
    assert_eq!(m.handle_key(KeyInput::Char('x'), None), KeyAction::Continue);
    assert_eq!(m.handle_key(KeyInput::Char('g'), None), KeyAction::Continue);
    assert_eq!(m.mode, InputMode::GoToPath);
    assert_eq!(m.input_buffer, "/r");
}

#[test]
fn prompt_bindings() {
    let mut m = manager_with_entries();
    m.handle_key(KeyInput::Char('g'), None);
    m.handle_key(KeyInput::Backspace, None);
    assert_eq!(m.input_buffer, "/");
    m.handle_key(KeyInput::Char('t'), None);
    m.handle_key(KeyInput::Char('q'), None);
    assert_eq!(m.input_buffer, "/tq");
    assert_eq!(m.handle_key(KeyInput::Enter, None), KeyAction::CommitGoToPath);
    assert_eq!(m.handle_key(KeyInput::Esc, None), KeyAction::Continue);
    assert_eq!(m.mode, InputMode::Normal);
    assert_eq!(m.input_buffer, "");
    m.mode = InputMode::GoToPath;
    m.handle_key(KeyInput::Backspace, None);
    assert_eq!(m.input_buffer, "");
}

#[test]
fn viewer_bindings() {
    let mut m = manager_with_entries();
    m.file_viewer = Some(FileViewerState {
        file_path: "/l/f".to_string(),
        file_name: "f".to_string(),
        lines: (0..100).map(|i| i.to_string()).collect(),
        scroll_offset: 0,
        is_dirty: false,
    });
    m.mode = InputMode::FileViewer;
    // A 30-row terminal shows 20 lines; a page is 18 lines.
    m.handle_key(KeyInput::Down, Some(30));
    assert_eq!(m.file_viewer.as_ref().unwrap().scroll_offset, 1);
    m.handle_key(KeyInput::PageDown, Some(30));
    assert_eq!(m.file_viewer.as_ref().unwrap().scroll_offset, 19);
    for _ in 0..10 {
        m.handle_key(KeyInput::PageDown, Some(30));
    }
    assert_eq!(m.file_viewer.as_ref().unwrap().scroll_offset, 80);
    m.handle_key(KeyInput::PageUp, Some(30));
    assert_eq!(m.file_viewer.as_ref().unwrap().scroll_offset, 62);
    m.handle_key(KeyInput::Up, Some(30));
    assert_eq!(m.file_viewer.as_ref().unwrap().scroll_offset, 61);
    assert_eq!(m.handle_key(KeyInput::Char('e'), None), KeyAction::OpenInEditor);
    assert_eq!(m.handle_key(KeyInput::Char('q'), None), KeyAction::Continue);
    assert_eq!(m.mode, InputMode::Normal);
    assert!(m.file_viewer.is_none());
}

#[test]
fn viewer_window_sizes() {
    assert_eq!(viewer_visible_height(None), 14);
    assert_eq!(viewer_visible_height(Some(30)), 20);
    assert_eq!(viewer_visible_height(Some(5)), 1);
    assert_eq!(viewer_page_lines(20), 18);
    assert_eq!(viewer_page_lines(2), 1);
    assert_eq!(viewer_page_lines(1), 1);
}
