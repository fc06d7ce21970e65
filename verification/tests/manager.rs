use cookie_commander::config::{AppConfig, SupportedEditor};
use cookie_commander::manager::{
    AppStateManager, ConfigSource, EnterStep, FileViewerState, InputMode, LaunchOutcome,
};
use cookie_commander::vfs::{FileMetadata, FileType};

fn entry(name: &str, size: u64, file_type: FileType) -> FileMetadata {
    FileMetadata { name: name.to_string(), size, file_type, modified: None }
}

/// Start-up as the event loop runs it: no configuration file, then the
/// first listings of both panes.
fn started(left: Vec<FileMetadata>, right: Vec<FileMetadata>) -> AppStateManager {
    let mut manager = AppStateManager::new("/left".to_string(), "/right".to_string());
    assert!(manager.apply_config(ConfigSource::Missing));
    manager.finish_init(Ok(left), Ok(right)).unwrap();
    manager
}

/// What the event loop decides when the editor is to be started, given
/// whether the configured path exists.
fn launch(manager: &mut AppStateManager, path_exists: bool) {
    let plan = manager.plan_open_in_editor().unwrap();
    let outcome = match plan.program(path_exists) {
        Some(_) => LaunchOutcome::Launched,
        None => LaunchOutcome::NoEditor,
    };
    manager.finish_open_in_editor(&plan.file_name, outcome);
}

fn viewer_with_lines(lines: Vec<String>) -> FileViewerState {
    FileViewerState {
        file_path: "/left/file.txt".to_string(),
        file_name: "file.txt".to_string(),
        lines,
        scroll_offset: 0,
        is_dirty: false,
    }
}

#[test]
fn test_manager_pane_switching() {
    let mut manager = AppStateManager::new("/left".to_string(), "/right".to_string());
    assert!(manager.active_left);
    assert_eq!(manager.active_pane().current_path, "/left");

    manager.switch_pane();
    assert!(!manager.active_left);
    assert_eq!(manager.active_pane().current_path, "/right");
}

#[test]
fn test_manager_handle_enter_directory() {
    let mut manager = started(vec![entry("dir_a", 0, FileType::Directory)], vec![]);

    assert_eq!(manager.active_pane().entries[0].name, "dir_a");

    // Enter the directory
    match manager.begin_enter() {
        EnterStep::ListDirectory => {
            assert_eq!(manager.active_pane().current_path, "/left/dir_a");
            manager.finish_listing(Ok(vec![entry("..", 0, FileType::Directory)]));
        }
        _ => panic!("entering a directory lists it"),
    }
    assert_eq!(manager.active_pane().current_path, "/left/dir_a");
    assert_eq!(manager.active_pane().entries[0].name, "..");
}

#[test]
fn test_manager_go_to_path() {
    let mut manager = started(vec![], vec![]);

    manager.start_go_to_path();
    assert_eq!(manager.mode, InputMode::GoToPath);
    assert_eq!(manager.input_buffer, "/left");

    manager.input_buffer = "/new_path".to_string();
    let old_path = manager.begin_go_to_path();
    assert_eq!(manager.active_pane().current_path, "/new_path");
    let retry =
        manager.finish_go_to_path(old_path, Ok(vec![entry("file.txt", 5, FileType::File)]));
    assert!(!retry);

    assert_eq!(manager.mode, InputMode::Normal);
    assert_eq!(manager.active_pane().current_path, "/new_path");
    assert_eq!(manager.active_pane().entries[0].name, "file.txt");
}

#[test]
fn test_manager_open_text_file() {
    let mut manager = started(vec![entry("readme.md", 12, FileType::File)], vec![]);

    assert_eq!(manager.active_pane().entries[0].name, "readme.md");
    assert_eq!(manager.mode, InputMode::Normal);

    // Enter on text file
    match manager.begin_enter() {
        EnterStep::OpenFile { path, name } => {
            assert_eq!(path, "/left/readme.md");
            manager.finish_open_file(path, name, Ok("line 1\nline 2\nline 3".to_string()));
        }
        _ => panic!("a text file is read"),
    }

    assert_eq!(manager.mode, InputMode::FileViewer);
    let viewer = manager.file_viewer.as_ref().unwrap();
    assert_eq!(viewer.file_name, "readme.md");
    assert_eq!(viewer.lines, vec!["line 1", "line 2", "line 3"]);
    assert_eq!(viewer.scroll_offset, 0);
}

#[test]
fn test_manager_open_unsupported_file() {
    let mut manager = started(vec![entry("image.png", 1024, FileType::File)], vec![]);

    assert_eq!(manager.active_pane().entries[0].name, "image.png");
    assert_eq!(manager.mode, InputMode::Normal);

    // Enter on unsupported file
    assert!(matches!(manager.begin_enter(), EnterStep::Stay));

    assert_eq!(manager.mode, InputMode::Normal);
    assert!(manager.file_viewer.is_none());
    assert!(manager
        .status_message
        .as_ref()
        .unwrap()
        .contains("Unsupported file type"));
}

#[test]
fn test_manager_file_viewer_scrolling() {
    let mut manager = AppStateManager::new("/left".to_string(), "/right".to_string());
    manager.file_viewer = Some(viewer_with_lines((1..=20).map(|i| format!("line {}", i)).collect()));
    manager.mode = InputMode::FileViewer;

    // Scroll down 5 lines with visible height 10
    manager.scroll_viewer_down(5, 10);
    assert_eq!(manager.file_viewer.as_ref().unwrap().scroll_offset, 5);

    // Scroll down another 10 lines (total 15, but lines.len() = 20, visible height = 10, so max_scroll = 10)
    manager.scroll_viewer_down(10, 10);
    assert_eq!(manager.file_viewer.as_ref().unwrap().scroll_offset, 10);

    // Scroll up 3 lines
    manager.scroll_viewer_up(3);
    assert_eq!(manager.file_viewer.as_ref().unwrap().scroll_offset, 7);

    // Scroll up too much (clamp to 0)
    manager.scroll_viewer_up(20);
    assert_eq!(manager.file_viewer.as_ref().unwrap().scroll_offset, 0);

    // Close viewer
    manager.close_file_viewer();
    assert_eq!(manager.mode, InputMode::Normal);
    assert!(manager.file_viewer.is_none());
}

#[test]
fn test_manager_open_in_editor_missing() {
    let mut manager = AppStateManager::new("/left".to_string(), "/right".to_string());
    manager.file_viewer = Some(viewer_with_lines(vec!["hello".to_string()]));
    manager.mode = InputMode::FileViewer;

    manager.config.editors.clear();

    launch(&mut manager, false);

    assert_eq!(manager.status_message.as_deref(), Some("Error: No editor is defined"));
}

#[test]
fn test_manager_open_in_editor_invalid_path() {
    let mut manager = AppStateManager::new("/left".to_string(), "/right".to_string());
    manager.file_viewer = Some(viewer_with_lines(vec!["hello".to_string()]));
    manager.mode = InputMode::FileViewer;

    manager.config.editors.insert(
        "vscode".to_string(),
        "/invalid/path/to/nonexistent/code".to_string(),
    );

    let exists = std::path::Path::new("/invalid/path/to/nonexistent/code").exists();
    launch(&mut manager, exists);

    assert_eq!(manager.status_message.as_deref(), Some("Error: No editor is defined"));
}

#[test]
fn editor_launch_reports() {
    let mut manager = AppStateManager::new("/left".to_string(), "/right".to_string());
    assert!(manager.plan_open_in_editor().is_none());
    manager.file_viewer = Some(viewer_with_lines(vec![]));
    manager.config.editors.insert("vscode".to_string(), "/usr/bin/code".to_string());
    let plan = manager.plan_open_in_editor().unwrap();
    assert_eq!(plan.file_path, "/left/file.txt");
    assert_eq!(plan.file_name, "file.txt");
    assert_eq!(plan.editor_path.as_deref(), Some("/usr/bin/code"));
    assert_eq!(plan.program(true).as_deref(), Some("/usr/bin/code"));
    assert_eq!(plan.program(false), None);
    manager.finish_open_in_editor(&plan.file_name, LaunchOutcome::Launched);
    assert_eq!(manager.status_message.as_deref(), Some("Opened in VS Code: file.txt"));
    manager.finish_open_in_editor(&plan.file_name, LaunchOutcome::Failed("denied".to_string()));
    assert_eq!(
        manager.status_message.as_deref(),
        Some("Error: Failed to launch VS Code: denied")
    );
}

#[test]
fn failed_navigation_goes_back() {
    let mut manager = started(vec![entry("a", 0, FileType::File)], vec![]);
    manager.start_go_to_path();
    manager.input_buffer = "  /nowhere \t".to_string();
    let old_path = manager.begin_go_to_path();
    assert_eq!(old_path, "/left");
    assert_eq!(manager.active_pane().current_path, "/nowhere");
    assert_eq!(manager.active_pane().selected_index, 0);
    assert!(manager.finish_go_to_path(old_path, Err("not found".to_string())));
    assert_eq!(manager.active_pane().current_path, "/left");
    assert_eq!(manager.status_message.as_deref(), Some("Navigation failed: not found"));
    manager.restore_listing(Ok(vec![entry("b", 0, FileType::File)]));
    assert_eq!(manager.active_pane().entries[0].name, "b");
    assert_eq!(manager.status_message.as_deref(), Some("Navigation failed: not found"));
    manager.restore_listing(Err("gone".to_string()));
    assert_eq!(manager.active_pane().entries[0].name, "b");
}

#[test]
fn successful_navigation_reports_the_path() {
    let mut manager = started(vec![], vec![]);
    manager.switch_pane();
    manager.input_buffer = "/elsewhere".to_string();
    let old_path = manager.begin_go_to_path();
    assert_eq!(old_path, "/right");
    assert!(!manager.finish_go_to_path(old_path, Ok(vec![])));
    assert_eq!(manager.right_pane.current_path, "/elsewhere");
    assert_eq!(manager.left_pane.current_path, "/left");
    assert_eq!(manager.status_message.as_deref(), Some("Navigated to /elsewhere"));
}

#[test]
fn enter_on_parent_entry_goes_up() {
    let mut manager = AppStateManager::new("/left/sub".to_string(), "/right".to_string());
    manager.finish_init(Ok(vec![entry("..", 0, FileType::Directory)]), Ok(vec![])).unwrap();
    assert!(matches!(manager.begin_enter(), EnterStep::ListDirectory));
    assert_eq!(manager.active_pane().current_path, "/left");
    manager.finish_listing(Err("denied".to_string()));
    assert_eq!(manager.status_message.as_deref(), Some("Error: denied"));
}

#[test]
fn enter_on_parent_of_root_stays() {
    let mut manager = AppStateManager::new("/".to_string(), "/right".to_string());
    manager.finish_init(Ok(vec![entry("..", 0, FileType::Directory)]), Ok(vec![])).unwrap();
    manager.active_pane_mut().selected_index = 0;
    assert!(matches!(manager.begin_enter(), EnterStep::ListDirectory));
    assert_eq!(manager.active_pane().current_path, "/");
}

#[test]
fn navigate_up_only_from_a_parent_entry() {
    let mut manager = AppStateManager::new("/a/b".to_string(), "/right".to_string());
    manager
        .finish_init(
            Ok(vec![entry("..", 0, FileType::Directory), entry("c", 0, FileType::Directory)]),
            Ok(vec![]),
        )
        .unwrap();
    manager.active_pane_mut().select_next();
    assert!(matches!(manager.begin_navigate_up(), EnterStep::ListDirectory));
    assert_eq!(manager.active_pane().current_path, "/a");
    assert_eq!(manager.active_pane().selected_index, 0);

    let mut other = started(vec![entry("c", 0, FileType::Directory)], vec![]);
    assert!(matches!(other.begin_navigate_up(), EnterStep::Stay));
    assert_eq!(other.active_pane().current_path, "/left");
}

#[test]
fn enter_on_other_kinds_does_nothing() {
    let mut manager = started(vec![entry("l", 0, FileType::Symlink)], vec![]);
    assert!(matches!(manager.begin_enter(), EnterStep::Stay));
    assert!(manager.status_message.is_none());
    let mut empty = started(vec![], vec![]);
    assert!(matches!(empty.begin_enter(), EnterStep::Stay));
}

#[test]
fn extensions_match_without_regard_to_case() {
    let mut manager = started(vec![entry("NOTES.MD", 3, FileType::File)], vec![]);
    match manager.begin_enter() {
        EnterStep::OpenFile { path, name } => {
            assert_eq!(path, "/left/NOTES.MD");
            assert_eq!(name, "NOTES.MD");
            manager.finish_open_file(path, name, Err("io".to_string()));
            assert_eq!(manager.status_message.as_deref(), Some("Failed to read file: io"));
            assert_eq!(manager.mode, InputMode::Normal);
        }
        _ => panic!("markdown opens in the viewer"),
    }
    let mut bare = started(vec![entry("Makefile", 3, FileType::File)], vec![]);
    assert!(matches!(bare.begin_enter(), EnterStep::Stay));
    assert_eq!(bare.status_message.as_deref(), Some("Unsupported file type: ."));
}

#[test]
fn viewer_lines_follow_str_lines() {
    let mut manager = started(vec![], vec![]);
    manager.finish_open_file(
        "/f".to_string(),
        "f".to_string(),
        Ok("a\r\nb\n\nc\r".to_string()),
    );
    let viewer = manager.file_viewer.as_ref().unwrap();
    assert_eq!(viewer.lines, vec!["a", "b", "", "c\r"]);
    manager.finish_open_file("/g".to_string(), "g".to_string(), Ok("x\n".to_string()));
    assert_eq!(manager.file_viewer.as_ref().unwrap().lines, vec!["x"]);
    manager.finish_open_file("/h".to_string(), "h".to_string(), Ok(String::new()));
    assert!(manager.file_viewer.as_ref().unwrap().lines.is_empty());
}

#[test]
fn start_up_reports_pane_errors() {
    let mut manager = AppStateManager::new("/left".to_string(), "/right".to_string());
    let r = manager.finish_init(Err("left gone".to_string()), Err("right gone".to_string()));
    assert_eq!(r, Err("left gone".to_string()));
    assert_eq!(manager.status_message.as_deref(), Some("Right pane error: right gone"));

    let mut manager = AppStateManager::new("/left".to_string(), "/right".to_string());
    let r = manager.finish_init(Err("left gone".to_string()), Ok(vec![]));
    assert_eq!(r, Err("left gone".to_string()));
    assert_eq!(manager.status_message.as_deref(), Some("Left pane error: left gone"));

    let mut manager = AppStateManager::new("/left".to_string(), "/right".to_string());
    let r = manager.finish_init(Ok(vec![]), Err("right gone".to_string()));
    assert_eq!(r, Err("right gone".to_string()));
}

#[test]
fn configuration_sources() {
    let mut manager = AppStateManager::new("/left".to_string(), "/right".to_string());
    assert!(!manager.apply_config(ConfigSource::Invalid("bad".to_string())));
    assert_eq!(
        manager.status_message.as_deref(),
        Some("Config parse error: bad. Using defaults.")
    );
    assert!(manager.config.text_extensions.contains("rs"));

    let mut cfg = AppConfig::default();
    cfg.text_extensions = cookie_commander::config::StrSet::new();
    cfg.text_extensions.insert("log".to_string());
    assert!(!manager.apply_config(ConfigSource::Loaded(cfg)));
    assert!(manager.config.text_extensions.contains("log"));
    assert!(!manager.config.text_extensions.contains("rs"));
}

#[test]
fn editor_path_is_cached_when_found() {
    let mut manager = AppStateManager::new("/left".to_string(), "/right".to_string());
    assert!(!manager.cache_editor_path(SupportedEditor::VsCode, false, None));
    assert!(!manager.config.editors.contains_key("vscode"));
    assert!(manager.cache_editor_path(
        SupportedEditor::VsCode,
        false,
        Some("/tmp/bin/code".to_string())
    ));
    assert!(manager.config.editors.contains_key("vscode"));
    assert!(manager.config.editors.get("vscode").unwrap().contains("code"));
    assert!(!manager.cache_editor_path(
        SupportedEditor::VsCode,
        true,
        Some("/other/code".to_string())
    ));
    assert_eq!(manager.config.editors.get("vscode").unwrap(), "/tmp/bin/code");
}

#[test]
fn prompt_is_trimmed_of_unicode_white_space() {
    let mut m = started(vec![], vec![]);
    m.input_buffer = "\u{a0}\u{3000} /p q\u{2028}\n".to_string();
    let old = m.begin_go_to_path();
    assert_eq!(old, "/left");
    assert_eq!(m.active_pane().current_path, "/p q");
}
