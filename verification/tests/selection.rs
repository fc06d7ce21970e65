use cookie_commander::keys::{KeyAction, KeyInput};
use cookie_commander::manager::{copy_steps, AppStateManager, ConfigSource, EnterStep, InputMode};
use cookie_commander::vfs::{FileMetadata, FileType};

fn entry(name: &str, file_type: FileType) -> FileMetadata {
    FileMetadata { name: name.to_string(), size: 1, file_type, modified: None }
}

/// Left pane at `/l` with `..`, a directory `d` and files `a`, `b`; right
/// pane at `/r`, empty.
fn started() -> AppStateManager {
    let mut m = AppStateManager::new("/l".to_string(), "/r".to_string());
    m.apply_config(ConfigSource::Missing);
    let left = vec![
        entry("b", FileType::File),
        entry("..", FileType::Directory),
        entry("d", FileType::Directory),
        entry("a", FileType::File),
    ];
    m.finish_init(Ok(left), Ok(vec![])).unwrap();
    m
}

fn names(entries: &[FileMetadata]) -> Vec<String> {
    entries.iter().map(|e| e.name.clone()).collect()
}

#[test]
fn space_toggles_the_entry_under_the_cursor() {
    let mut m = started();
    assert_eq!(names(&m.left_pane.entries), vec!["..", "d", "a", "b"]);
    // `..` cannot be selected.
    m.handle_key(KeyInput::Char(' '), None);
    assert_eq!(m.left_pane.selections.len(), 0);
    m.handle_key(KeyInput::Down, None);
    m.handle_key(KeyInput::Char(' '), None);
    assert!(m.left_pane.selections.contains("d"));
    m.handle_key(KeyInput::Char(' '), None);
    assert!(!m.left_pane.selections.contains("d"));
    m.handle_key(KeyInput::Char(' '), None);
    m.handle_key(KeyInput::Down, None);
    m.handle_key(KeyInput::Down, None);
    m.handle_key(KeyInput::Char(' '), None);
    assert_eq!(m.left_pane.selections.sorted(), vec!["b", "d"]);
    // The other pane is not touched.
    assert_eq!(m.right_pane.selections.len(), 0);
}

#[test]
fn targets_are_the_selection_or_the_cursor() {
    let mut m = started();
    // On `..` with nothing selected there is nothing to act on.
    assert!(m.active_pane().action_targets().is_empty());
    assert!(m.copy_plan().is_empty());
    assert!(m.delete_steps().is_empty());
    m.active_pane_mut().select_next();
    m.active_pane_mut().select_next();
    assert_eq!(names(&m.active_pane().action_targets()), vec!["a"]);
    m.active_pane_mut().toggle_selection();
    m.active_pane_mut().select_next();
    m.active_pane_mut().toggle_selection();
    m.active_pane_mut().select_prev();
    m.active_pane_mut().select_prev();
    m.active_pane_mut().toggle_selection();
    // Listing order, whatever the order of selection.
    assert_eq!(names(&m.active_pane().action_targets()), vec!["d", "a", "b"]);
    let plan = m.copy_plan();
    assert_eq!(plan.len(), 3);
    assert_eq!((plan[0].from.as_str(), plan[0].to.as_str(), plan[0].is_dir), ("/l/d", "/r/d", true));
    assert_eq!((plan[2].from.as_str(), plan[2].to.as_str(), plan[2].is_dir), ("/l/b", "/r/b", false));
    let steps = m.delete_steps();
    assert_eq!(
        steps,
        vec![("/l/d".to_string(), true), ("/l/a".to_string(), false), ("/l/b".to_string(), false)]
    );
}

#[test]
fn copy_steps_leave_out_the_parent_entry() {
    let listing = vec![entry("..", FileType::Directory), entry("x", FileType::File), entry("y", FileType::Directory)];
    let steps = copy_steps("/src/", "/dst", &listing);
    assert_eq!(steps.len(), 2);
    assert_eq!((steps[0].from.as_str(), steps[0].to.as_str(), steps[0].is_dir), ("/src/x", "/dst/x", false));
    assert_eq!((steps[1].from.as_str(), steps[1].to.as_str(), steps[1].is_dir), ("/src/y", "/dst/y", true));
}

#[test]
fn delete_asks_first() {
    let mut m = started();
    m.handle_key(KeyInput::Char('d'), None);
    assert_eq!(m.mode, InputMode::DeleteConfirm);
    assert_eq!(m.handle_key(KeyInput::Char('x'), None), KeyAction::Continue);
    assert_eq!(m.mode, InputMode::DeleteConfirm);
    assert_eq!(m.handle_key(KeyInput::Esc, None), KeyAction::Continue);
    assert_eq!(m.mode, InputMode::Normal);
    m.handle_key(KeyInput::Delete, None);
    assert_eq!(m.handle_key(KeyInput::Char('n'), None), KeyAction::Continue);
    assert_eq!(m.mode, InputMode::Normal);
    m.handle_key(KeyInput::Delete, None);
    assert_eq!(m.handle_key(KeyInput::Char('Y'), None), KeyAction::Delete);
    assert_eq!(m.mode, InputMode::DeleteConfirm);
    assert_eq!(m.handle_key(KeyInput::F5, None), KeyAction::Continue);
}

#[test]
fn copy_keys() {
    let mut m = started();
    assert_eq!(m.handle_key(KeyInput::F5, None), KeyAction::Copy);
    assert_eq!(m.handle_key(KeyInput::Char('c'), None), KeyAction::Copy);
    assert_eq!(m.mode, InputMode::Normal);
}

#[test]
fn after_delete_the_pane_is_listed_and_unselected() {
    let mut m = started();
    m.active_pane_mut().select_next();
    m.active_pane_mut().toggle_selection();
    m.mode = InputMode::DeleteConfirm;
    m.finish_delete(Ok(vec![entry("..", FileType::Directory), entry("a", FileType::File)]));
    assert_eq!(m.mode, InputMode::Normal);
    assert_eq!(m.left_pane.selections.len(), 0);
    assert_eq!(names(&m.left_pane.entries), vec!["..", "a"]);
    assert_eq!(m.left_pane.selected_index, 1);

    m.active_pane_mut().toggle_selection();
    m.mode = InputMode::DeleteConfirm;
    m.finish_delete(Err("gone".to_string()));
    assert_eq!(m.mode, InputMode::Normal);
    assert_eq!(m.left_pane.selections.len(), 0);
    assert_eq!(names(&m.left_pane.entries), vec!["..", "a"]);
}

#[test]
fn after_copy_the_other_pane_is_listed() {
    let mut m = started();
    m.active_pane_mut().toggle_selection();
    m.finish_copy(Ok(vec![entry("z", FileType::File), entry("..", FileType::Directory)]));
    assert_eq!(names(&m.right_pane.entries), vec!["..", "z"]);
    assert_eq!(names(&m.left_pane.entries), vec!["..", "d", "a", "b"]);
    m.finish_copy(Err("denied".to_string()));
    assert_eq!(names(&m.right_pane.entries), vec!["..", "z"]);
}

#[test]
fn moving_to_another_directory_unselects() {
    let mut m = started();
    m.active_pane_mut().select_next();
    m.active_pane_mut().select_next();
    m.active_pane_mut().toggle_selection();
    m.active_pane_mut().select_prev();
    assert!(matches!(m.begin_enter(), EnterStep::ListDirectory));
    assert_eq!(m.left_pane.current_path, "/l/d");
    assert_eq!(m.left_pane.selections.len(), 0);

    // A go-to keeps the selection until the new directory is listed, and
    // clears it only where the pane moved elsewhere.
    let mut m = started();
    m.active_pane_mut().select_next();
    m.active_pane_mut().toggle_selection();
    m.start_go_to_path();
    let old = m.begin_go_to_path();
    assert!(m.left_pane.selections.contains("d"));
    m.finish_go_to_path(old, Ok(vec![entry("d", FileType::Directory)]));
    assert!(m.left_pane.selections.contains("d"));

    m.start_go_to_path();
    m.input_buffer = "/elsewhere".to_string();
    let old = m.begin_go_to_path();
    assert!(m.finish_go_to_path(old, Err("no such directory".to_string())));
    assert_eq!(m.left_pane.current_path, "/l");
    assert!(m.left_pane.selections.contains("d"));

    m.start_go_to_path();
    m.input_buffer = "/other".to_string();
    let old = m.begin_go_to_path();
    assert!(!m.finish_go_to_path(old, Ok(vec![])));
    assert_eq!(m.left_pane.current_path, "/other");
    assert_eq!(m.left_pane.selections.len(), 0);
}
