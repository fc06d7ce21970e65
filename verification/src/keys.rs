use vstd::prelude::*;

use crate::manager::{
    go_to_started, input_cancelled, sat_sub, scrolled_down, scrolled_up, switched, viewer_closed,
    AppStateManager, InputMode, ManagerView,
};
use crate::pane::{selected_next, selected_prev, selection_toggled};
use crate::text::{pop_char, push_char};

verus! {

/// A key press, as the event loop reports it.
#[derive(Debug, Clone, Copy, PartialEq, Eq, Structural)]
pub enum KeyInput {
    Char(char),
    Esc,
    Tab,
    Enter,
    Backspace,
    Up,
    Down,
    PageUp,
    PageDown,
    Delete,
    F5,
    /// Any key with no binding.
    Other,
}

/// What the event loop has to do after a key press.
#[derive(Debug, Clone, Copy, PartialEq, Eq, Structural)]
pub enum KeyAction {
    /// Nothing more: draw and wait for the next key.
    Continue,
    /// Leave the application.
    Quit,
    /// Run Enter on the panes (`begin_enter` and what it asks for).
    Enter,
    /// Go to the parent directory (`begin_navigate_up` and what it asks for).
    NavigateUp,
    /// Commit the path prompt (`begin_go_to_path` and what it asks for).
    CommitGoToPath,
    /// Open the viewed file in the editor (`plan_open_in_editor`).
    OpenInEditor,
    /// Prettify the viewed file (`prettify_current_file`).
    Prettify,
    /// Write the viewer's text back to its file (`save_plan`, then
    /// `mark_saved`), then close the viewer.
    SaveAndClose,
    /// Copy what Copy acts on to the other pane's directory (`copy_plan`,
    /// then `finish_copy`).
    Copy,
    /// Delete what Delete acts on (`delete_steps`, then `finish_delete`).
    Delete,
}

/// The viewer of `o` holds unsaved changes.
pub open spec fn viewer_dirty(o: ManagerView) -> bool {
    o.viewer matches Some(v) && v.dirty
}

/// Lines of the viewer that fit on a terminal `height` rows high (24 where
/// the height is unknown): ten rows go to the frame, one line at least.
pub open spec fn visible_lines(height: Option<u16>) -> usize {
    let h: int = match height {
        Some(x) => x as int,
        None => 24,
    };
    if sat_sub(h, 10) < 1 {
        1
    } else {
        sat_sub(h, 10) as usize
    }
}

/// The lines that Page Up and Page Down move: a window less two lines, one
/// at least.
pub open spec fn page_lines(visible: usize) -> usize {
    if sat_sub(visible as int, 2) < 1 {
        1
    } else {
        sat_sub(visible as int, 2) as usize
    }
}

/// The state after a key press, and what is left to do, as the key
/// bindings of each mode say.
pub open spec fn key_handled(o: ManagerView, key: KeyInput, height: Option<u16>) -> (
    ManagerView,
    KeyAction,
) {
    let visible = visible_lines(height);
    match o.mode {
        InputMode::Normal => match key {
            KeyInput::Char('q') | KeyInput::Esc => (o, KeyAction::Quit),
            KeyInput::Tab => (switched(o), KeyAction::Continue),
            KeyInput::Char('g') => (go_to_started(o), KeyAction::Continue),
            KeyInput::Up => (o.with_active(selected_prev(o.active())), KeyAction::Continue),
            KeyInput::Down => (o.with_active(selected_next(o.active())), KeyAction::Continue),
            KeyInput::Enter => (o, KeyAction::Enter),
            KeyInput::Backspace => (o, KeyAction::NavigateUp),
            KeyInput::Char(' ') => (o.with_active(selection_toggled(o.active())), KeyAction::Continue),
            KeyInput::Delete | KeyInput::Char('d') => (
                ManagerView { mode: InputMode::DeleteConfirm, ..o },
                KeyAction::Continue,
            ),
            KeyInput::F5 | KeyInput::Char('c') => (o, KeyAction::Copy),
            _ => (o, KeyAction::Continue),
        },
        InputMode::GoToPath => match key {
            KeyInput::Enter => (o, KeyAction::CommitGoToPath),
            KeyInput::Esc => (input_cancelled(o), KeyAction::Continue),
            KeyInput::Backspace => (
                ManagerView {
                    input: if o.input.len() > 0 {
                        o.input.drop_last()
                    } else {
                        o.input
                    },
                    ..o
                },
                KeyAction::Continue,
            ),
            KeyInput::Char(c) => (ManagerView { input: o.input.push(c), ..o }, KeyAction::Continue),
            _ => (o, KeyAction::Continue),
        },
        InputMode::FileViewer => match key {
            KeyInput::Esc | KeyInput::Char('q') => if viewer_dirty(o) {
                (ManagerView { mode: InputMode::FileViewerSavePrompt, ..o }, KeyAction::Continue)
            } else {
                (viewer_closed(o), KeyAction::Continue)
            },
            KeyInput::Char('p') => (o, KeyAction::Prettify),
            KeyInput::Char('e') => (o, KeyAction::OpenInEditor),
            KeyInput::Up => (
                ManagerView { viewer: scrolled_up(o.viewer, 1), ..o },
                KeyAction::Continue,
            ),
            KeyInput::Down => (
                ManagerView { viewer: scrolled_down(o.viewer, 1, visible), ..o },
                KeyAction::Continue,
            ),
            KeyInput::PageUp => (
                ManagerView { viewer: scrolled_up(o.viewer, page_lines(visible)), ..o },
                KeyAction::Continue,
            ),
            KeyInput::PageDown => (
                ManagerView { viewer: scrolled_down(o.viewer, page_lines(visible), visible), ..o },
                KeyAction::Continue,
            ),
            _ => (o, KeyAction::Continue),
        },
        InputMode::FileViewerSavePrompt => match key {
            KeyInput::Char('y') | KeyInput::Char('Y') => (o, KeyAction::SaveAndClose),
            KeyInput::Char('n') | KeyInput::Char('N') => (viewer_closed(o), KeyAction::Continue),
            KeyInput::Esc | KeyInput::Char('q') => (
                ManagerView { mode: InputMode::FileViewer, ..o },
                KeyAction::Continue,
            ),
            _ => (o, KeyAction::Continue),
        },
        InputMode::DeleteConfirm => match key {
            KeyInput::Char('y') | KeyInput::Char('Y') => (o, KeyAction::Delete),
            KeyInput::Char('n') | KeyInput::Char('N') | KeyInput::Esc => (
                ManagerView { mode: InputMode::Normal, ..o },
                KeyAction::Continue,
            ),
            _ => (o, KeyAction::Continue),
        },
    }
}

/// Lines of the viewer that fit on a terminal `height` rows high.
pub fn viewer_visible_height(height: Option<u16>) -> (r: usize)
    ensures
        r == visible_lines(height),
        1 <= r < 0x10000,
{
    let h: u16 = match height {
        Some(x) => x,
        None => 24,
    };
    let v = h.saturating_sub(10) as usize;
    if v < 1 {
        1
    } else {
        v
    }
}

/// The lines that Page Up and Page Down move in a window of `visible` lines.
pub fn viewer_page_lines(visible: usize) -> (r: usize)
    ensures
        r == page_lines(visible),
        1 <= r,
        visible >= 1 ==> r <= visible,
{
    let p = visible.saturating_sub(2);
    if p < 1 {
        1
    } else {
        p
    }
}

impl AppStateManager {
    /// Handles a key press with the bindings of the current mode, on a
    /// terminal `terminal_height` rows high (where known); what needs the
    /// file system or another program is returned for the caller to do.
    pub fn handle_key(&mut self, key: KeyInput, terminal_height: Option<u16>) -> (action: KeyAction)
        ensures
            (final(self)@, action) == key_handled(old(self)@, key, terminal_height),
    {
        let visible = viewer_visible_height(terminal_height);
        match self.mode {
            InputMode::Normal => match key {
                KeyInput::Char('q') | KeyInput::Esc => KeyAction::Quit,
                KeyInput::Tab => {
                    self.switch_pane();
                    KeyAction::Continue
                },
                KeyInput::Char('g') => {
                    self.start_go_to_path();
                    KeyAction::Continue
                },
                KeyInput::Up => {
                    self.active_pane_mut().select_prev();
                    KeyAction::Continue
                },
                KeyInput::Down => {
                    self.active_pane_mut().select_next();
                    KeyAction::Continue
                },
                KeyInput::Enter => KeyAction::Enter,
                KeyInput::Backspace => KeyAction::NavigateUp,
                KeyInput::Char(' ') => {
                    self.active_pane_mut().toggle_selection();
                    KeyAction::Continue
                },
                KeyInput::Delete | KeyInput::Char('d') => {
                    self.mode = InputMode::DeleteConfirm;
                    KeyAction::Continue
                },
                KeyInput::F5 | KeyInput::Char('c') => KeyAction::Copy,
                _ => KeyAction::Continue,
            },
            InputMode::GoToPath => match key {
                KeyInput::Enter => KeyAction::CommitGoToPath,
                KeyInput::Esc => {
                    self.cancel_input();
                    KeyAction::Continue
                },
                KeyInput::Backspace => {
                    let _ = pop_char(&mut self.input_buffer);
                    KeyAction::Continue
                },
                KeyInput::Char(c) => {
                    push_char(&mut self.input_buffer, c);
                    KeyAction::Continue
                },
                _ => KeyAction::Continue,
            },
            InputMode::FileViewer => match key {
                KeyInput::Esc | KeyInput::Char('q') => {
                    let dirty = match &self.file_viewer {
                        Some(v) => v.is_dirty,
                        None => false,
                    };
                    if dirty {
                        self.mode = InputMode::FileViewerSavePrompt;
                    } else {
                        self.close_file_viewer();
                    }
                    KeyAction::Continue
                },
                KeyInput::Char('p') => KeyAction::Prettify,
                KeyInput::Char('e') => KeyAction::OpenInEditor,
                KeyInput::Up => {
                    self.scroll_viewer_up(1);
                    KeyAction::Continue
                },
                KeyInput::Down => {
                    self.scroll_viewer_down(1, visible);
                    KeyAction::Continue
                },
                KeyInput::PageUp => {
                    let page = viewer_page_lines(visible);
                    self.scroll_viewer_up(page);
                    KeyAction::Continue
                },
                KeyInput::PageDown => {
                    let page = viewer_page_lines(visible);
                    self.scroll_viewer_down(page, visible);
                    KeyAction::Continue
                },
                _ => KeyAction::Continue,
            },
            InputMode::FileViewerSavePrompt => match key {
                KeyInput::Char('y') | KeyInput::Char('Y') => KeyAction::SaveAndClose,
                KeyInput::Char('n') | KeyInput::Char('N') => {
                    self.close_file_viewer();
                    KeyAction::Continue
                },
                KeyInput::Esc | KeyInput::Char('q') => {
                    self.mode = InputMode::FileViewer;
                    KeyAction::Continue
                },
                _ => KeyAction::Continue,
            },
            InputMode::DeleteConfirm => match key {
                KeyInput::Char('y') | KeyInput::Char('Y') => KeyAction::Delete,
                KeyInput::Char('n') | KeyInput::Char('N') | KeyInput::Esc => {
                    self.mode = InputMode::Normal;
                    KeyAction::Continue
                },
                _ => KeyAction::Continue,
            },
        }
    }
}

} // verus!
