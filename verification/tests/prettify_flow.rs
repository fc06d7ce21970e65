use cookie_commander::keys::{KeyAction, KeyInput};
use cookie_commander::manager::{AppStateManager, FileViewerState, InputMode};
use cookie_commander::prettify::PrettifyError;

fn viewing(name: &str, lines: &[&str]) -> AppStateManager {
    let mut m = AppStateManager::new("/a".to_string(), "/b".to_string());
    m.file_viewer = Some(FileViewerState {
        file_path: format!("/a/{}", name),
        file_name: name.to_string(),
        lines: lines.iter().map(|l| l.to_string()).collect(),
        scroll_offset: 0,
        is_dirty: false,
    });
    m.mode = InputMode::FileViewer;
    m
}

fn lines_of(m: &AppStateManager) -> Vec<String> {
    m.file_viewer.as_ref().unwrap().lines.clone()
}

#[test]
fn prettify_reformats_minified_json() {
    let mut m = viewing("data.JSON", &["{\"a\":1,\"b\":[true]}"]);
    assert!(m.can_prettify_viewer());
    assert_eq!(m.prettify_current_file(), Ok(()));
    assert_eq!(
        lines_of(&m),
        vec!["{", "  \"a\": 1,", "  \"b\": [", "    true", "  ]", "}"]
    );
    assert!(m.file_viewer.as_ref().unwrap().is_dirty);
    assert_eq!(m.status_message, None);
    assert!(!m.can_prettify_viewer());
}

#[test]
fn prettify_takes_one_line_among_blank_ones() {
    let mut m = viewing("x.json", &["", "{\"a\":1}", "  "]);
    assert!(m.can_prettify_viewer());
    assert_eq!(m.prettify_current_file(), Ok(()));
    assert_eq!(lines_of(&m), vec!["{", "  \"a\": 1", "}"]);
}

#[test]
fn prettify_leaves_other_files() {
    let mut text = viewing("notes.txt", &["{\"a\":1}"]);
    assert!(!text.can_prettify_viewer());
    assert_eq!(text.prettify_current_file(), Ok(()));
    assert_eq!(lines_of(&text), vec!["{\"a\":1}"]);
    assert!(!text.file_viewer.as_ref().unwrap().is_dirty);

    let mut pretty = viewing("x.json", &["{", "  \"a\": 1", "}"]);
    assert!(!pretty.can_prettify_viewer());
    assert_eq!(pretty.prettify_current_file(), Ok(()));
    assert_eq!(lines_of(&pretty), vec!["{", "  \"a\": 1", "}"]);

    let mut none = AppStateManager::new("/a".to_string(), "/b".to_string());
    assert!(!none.can_prettify_viewer());
    assert_eq!(none.prettify_current_file(), Ok(()));
}

#[test]
fn prettify_refuses_files_over_the_limit() {
    let mut m = viewing("x.json", &["{\"a\":1}"]);
    m.config.max_prettify_size_kb = 0;
    assert_eq!(m.prettify_current_file(), Ok(()));
    assert_eq!(m.status_message.as_deref(), Some("File too large to prettify (max 0 KB)"));
    assert_eq!(lines_of(&m), vec!["{\"a\":1}"]);
    assert!(!m.file_viewer.as_ref().unwrap().is_dirty);

    // 1024 bytes is within 1 KB; 1025 is not. `é` takes two bytes.
    let fits = format!("\"{}\"", "é".repeat(511));
    let mut m = viewing("x.json", &[fits.as_str()]);
    m.config.max_prettify_size_kb = 1;
    assert_eq!(m.prettify_current_file(), Ok(()));
    assert!(m.file_viewer.as_ref().unwrap().is_dirty);
    let over = format!("\"{}a\"", "é".repeat(511));
    let mut m = viewing("x.json", &[over.as_str()]);
    m.config.max_prettify_size_kb = 1;
    assert_eq!(m.prettify_current_file(), Ok(()));
    assert_eq!(m.status_message.as_deref(), Some("File too large to prettify (max 1 KB)"));

    // The size is checked before the text is parsed.
    let long = "x".repeat(2000);
    let mut m = viewing("y.json", &[long.as_str()]);
    m.config.max_prettify_size_kb = 1234567;
    assert_eq!(m.prettify_current_file(), Err(PrettifyError::InvalidJson));
    m.config.max_prettify_size_kb = 1;
    assert_eq!(m.prettify_current_file(), Ok(()));
    assert_eq!(m.status_message.as_deref(), Some("File too large to prettify (max 1 KB)"));
}

#[test]
fn prettify_reports_broken_json() {
    let mut m = viewing("x.json", &["{\"a\":"]);
    assert_eq!(m.prettify_current_file(), Err(PrettifyError::InvalidJson));
    assert_eq!(lines_of(&m), vec!["{\"a\":"]);
    assert!(!m.file_viewer.as_ref().unwrap().is_dirty);
}

#[test]
fn closing_after_prettify_asks_to_save() {
    let mut m = viewing("x.json", &["[1,2]"]);
    assert_eq!(m.handle_key(KeyInput::Char('p'), Some(30)), KeyAction::Prettify);
    m.prettify_current_file().unwrap();
    assert_eq!(m.handle_key(KeyInput::Esc, Some(30)), KeyAction::Continue);
    assert_eq!(m.mode, InputMode::FileViewerSavePrompt);
    assert!(m.file_viewer.is_some());
    // Esc at the prompt goes back to the viewer.
    assert_eq!(m.handle_key(KeyInput::Esc, Some(30)), KeyAction::Continue);
    assert_eq!(m.mode, InputMode::FileViewer);
    // Other keys at the prompt do nothing.
    m.handle_key(KeyInput::Char('q'), Some(30));
    assert_eq!(m.handle_key(KeyInput::Char('x'), Some(30)), KeyAction::Continue);
    assert_eq!(m.mode, InputMode::FileViewerSavePrompt);
    // `n` drops the changes.
    assert_eq!(m.handle_key(KeyInput::Char('N'), Some(30)), KeyAction::Continue);
    assert_eq!(m.mode, InputMode::Normal);
    assert!(m.file_viewer.is_none());
}

#[test]
fn saving_writes_the_joined_lines() {
    let mut m = viewing("x.json", &["[1,2]"]);
    m.prettify_current_file().unwrap();
    m.handle_key(KeyInput::Char('q'), None);
    assert_eq!(m.handle_key(KeyInput::Char('y'), None), KeyAction::SaveAndClose);
    let (path, text) = m.save_plan().unwrap();
    assert_eq!(path, "/a/x.json");
    assert_eq!(text, "[\n  1,\n  2\n]");
    m.mark_saved();
    assert!(!m.file_viewer.as_ref().unwrap().is_dirty);
    assert_eq!(m.status_message.as_deref(), Some("Saved x.json"));
    m.close_file_viewer();
    assert!(m.file_viewer.is_none());
    assert!(m.save_plan().is_none());
}

#[test]
fn clean_viewer_closes_at_once() {
    let mut m = viewing("x.json", &["[1]"]);
    assert_eq!(m.handle_key(KeyInput::Esc, None), KeyAction::Continue);
    assert_eq!(m.mode, InputMode::Normal);
    assert!(m.file_viewer.is_none());
}
