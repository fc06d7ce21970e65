use vstd::prelude::*;

use crate::config::{default_config, AppConfig, ConfigView, SupportedEditor};
use crate::config::StrSet;
use crate::pane::{
    action_targets, clamped_selection, entries_named, is_dotdot, is_dotdot_name, is_listing_of,
    PaneState, PaneView,
};
use crate::paths::{
    path_extension, path_extension_of, path_join, path_joined, path_parent, path_parent_of,
};
use crate::prettify::{
    get_prettifier, is_json_extension, is_one_liner, json_pretty, Prettifier, PrettifyError,
};
use crate::text::{
    concat, decimal, same_text, decimal_text, exceeds_kb, join_lines, joined_lines, lowercase, split_lines,
    string_views, text_lines, to_lowercase, trim, trimmed, utf8_len,
};
use crate::vfs::{FileMetadata, FileType};

verus! {

/// What the keyboard currently drives.
#[derive(Debug, Clone, Copy, PartialEq, Eq, Structural)]
pub enum InputMode {
    Normal,
    GoToPath,
    FileViewer,
    /// The viewer holds unsaved changes and asks whether to save them.
    FileViewerSavePrompt,
    /// Asks whether to delete what Delete acts on.
    DeleteConfirm,
}

/// A text file opened in the viewer; `is_dirty` says that its lines were
/// changed (prettified) and not written back.
#[derive(Debug, Clone)]
pub struct FileViewerState {
    pub file_path: String,
    pub file_name: String,
    pub lines: Vec<String>,
    pub scroll_offset: usize,
    pub is_dirty: bool,
}

/// What the viewer shows: the file, its lines, the first line on screen,
/// and whether the lines differ from the file's.
#[verifier::ext_equal]
pub struct ViewerView {
    pub path: Seq<char>,
    pub name: Seq<char>,
    pub lines: Seq<Seq<char>>,
    pub scroll: usize,
    pub dirty: bool,
}

impl View for FileViewerState {
    type V = ViewerView;

    open spec fn view(&self) -> ViewerView {
        ViewerView {
            path: self.file_path@,
            name: self.file_name@,
            lines: self.lines@.map_values(|l: String| l@),
            scroll: self.scroll_offset,
            dirty: self.is_dirty,
        }
    }
}

/// The whole application state.
#[derive(Debug, Clone)]
pub struct AppStateManager {
    pub left_pane: PaneState,
    pub right_pane: PaneState,
    pub active_left: bool,
    pub mode: InputMode,
    pub input_buffer: String,
    pub status_message: Option<String>,
    pub file_viewer: Option<FileViewerState>,
    pub config: AppConfig,
}

/// What the application state is.
#[verifier::ext_equal]
pub struct ManagerView {
    pub left: PaneView,
    pub right: PaneView,
    pub active_left: bool,
    pub mode: InputMode,
    pub input: Seq<char>,
    pub status: Option<Seq<char>>,
    pub viewer: Option<ViewerView>,
    pub config: ConfigView,
}

/// The text of an optional string.
pub open spec fn opt_view(s: Option<String>) -> Option<Seq<char>> {
    match s {
        Some(t) => Some(t@),
        None => None,
    }
}

/// What an optional viewer shows.
pub open spec fn viewer_view(v: Option<FileViewerState>) -> Option<ViewerView> {
    match v {
        Some(w) => Some(w@),
        None => None,
    }
}

impl View for AppStateManager {
    type V = ManagerView;

    open spec fn view(&self) -> ManagerView {
        ManagerView {
            left: self.left_pane@,
            right: self.right_pane@,
            active_left: self.active_left,
            mode: self.mode,
            input: self.input_buffer@,
            status: opt_view(self.status_message),
            viewer: viewer_view(self.file_viewer),
            config: self.config@,
        }
    }
}

impl ManagerView {
    /// The pane that has the focus.
    pub open spec fn active(self) -> PaneView {
        if self.active_left {
            self.left
        } else {
            self.right
        }
    }

    /// The pane that does not have the focus.
    pub open spec fn inactive(self) -> PaneView {
        if self.active_left {
            self.right
        } else {
            self.left
        }
    }

    /// This state with `p` in place of the pane that does not have the focus.
    pub open spec fn with_inactive(self, p: PaneView) -> ManagerView {
        if self.active_left {
            ManagerView { right: p, ..self }
        } else {
            ManagerView { left: p, ..self }
        }
    }

    /// This state with `p` in place of the pane that has the focus.
    pub open spec fn with_active(self, p: PaneView) -> ManagerView {
        if self.active_left {
            ManagerView { left: p, ..self }
        } else {
            ManagerView { right: p, ..self }
        }
    }
}

/// `a - b`, or 0 where `b` is the larger.
pub open spec fn sat_sub(a: int, b: int) -> int {
    if a > b {
        a - b
    } else {
        0
    }
}

/// The smaller of `a` and `b`.
pub open spec fn min(a: int, b: int) -> int {
    if a < b {
        a
    } else {
        b
    }
}

/// The viewer scrolled up by `lines`, stopping at the first line.
pub open spec fn scrolled_up(v: Option<ViewerView>, lines: usize) -> Option<ViewerView> {
    match v {
        Some(w) => Some(ViewerView { scroll: sat_sub(w.scroll as int, lines as int) as usize, ..w }),
        None => None,
    }
}

/// The viewer scrolled down by `lines`, stopping where the last line is at
/// the bottom of a window of `visible_height` lines.
pub open spec fn scrolled_down(v: Option<ViewerView>, lines: usize, visible_height: usize) -> Option<
    ViewerView,
> {
    match v {
        Some(w) => Some(
            ViewerView {
                scroll: min(
                    w.scroll + lines,
                    sat_sub(w.lines.len() as int, visible_height as int),
                ) as usize,
                ..w
            },
        ),
        None => None,
    }
}

/// The state with the focus on the other pane.
pub open spec fn switched(o: ManagerView) -> ManagerView {
    ManagerView { active_left: !o.active_left, ..o }
}

/// The state with the viewer closed, back on the panes.
pub open spec fn viewer_closed(o: ManagerView) -> ManagerView {
    ManagerView { mode: InputMode::Normal, viewer: None, ..o }
}

/// The state with the path prompt open, filled with the focused pane's path.
pub open spec fn go_to_started(o: ManagerView) -> ManagerView {
    ManagerView { mode: InputMode::GoToPath, input: o.active().path, status: None, ..o }
}

/// The state with the prompt left and emptied.
pub open spec fn input_cancelled(o: ManagerView) -> ManagerView {
    ManagerView { mode: InputMode::Normal, input: Seq::empty(), ..o }
}

impl AppStateManager {
    /// A state with the left pane at `left_path` and focused, the right one
    /// at `right_path`, in normal mode, with the default configuration.
    pub fn new(left_path: String, right_path: String) -> (r: Self)
        ensures
            r@ == (ManagerView {
                left: PaneView {
                    path: left_path@,
                    entries: Seq::empty(),
                    selected: 0,
                    selections: Set::empty(),
                },
                right: PaneView {
                    path: right_path@,
                    entries: Seq::empty(),
                    selected: 0,
                    selections: Set::empty(),
                },
                active_left: true,
                mode: InputMode::Normal,
                input: Seq::empty(),
                status: None,
                viewer: None,
                config: default_config(),
            }),
    {
        let r = AppStateManager {
            left_pane: PaneState::new(left_path),
            right_pane: PaneState::new(right_path),
            active_left: true,
            mode: InputMode::Normal,
            input_buffer: String::new(),
            status_message: None,
            file_viewer: None,
            config: AppConfig::default(),
        };
        assert(r@.left.entries =~= Seq::<FileMetadata>::empty());
        assert(r@.right.entries =~= Seq::<FileMetadata>::empty());
        r
    }

    /// The pane that has the focus.
    pub fn active_pane(&self) -> (r: &PaneState)
        ensures
            r == (if self.active_left {
                &self.left_pane
            } else {
                &self.right_pane
            }),
    {
        if self.active_left {
            &self.left_pane
        } else {
            &self.right_pane
        }
    }

    /// The pane that has the focus, to change it.
    pub fn active_pane_mut(&mut self) -> (r: &mut PaneState)
        ensures
            *r == (if old(self).active_left {
                old(self).left_pane
            } else {
                old(self).right_pane
            }),
            final(self).active_left == old(self).active_left,
            old(self).active_left ==> final(self).left_pane == *final(r) && final(self).right_pane
                == old(self).right_pane,
            !old(self).active_left ==> final(self).right_pane == *final(r)
                && final(self).left_pane == old(self).left_pane,
            final(self).mode == old(self).mode,
            final(self).input_buffer == old(self).input_buffer,
            final(self).status_message == old(self).status_message,
            final(self).file_viewer == old(self).file_viewer,
            final(self).config == old(self).config,
    {
        if self.active_left {
            &mut self.left_pane
        } else {
            &mut self.right_pane
        }
    }

    /// Moves the focus to the other pane.
    pub fn switch_pane(&mut self)
        ensures
            final(self)@ == switched(old(self)@),
    {
        self.active_left = !self.active_left;
    }

    /// Scrolls the viewer up by `lines`, stopping at the first line.
    pub fn scroll_viewer_up(&mut self, lines: usize)
        ensures
            final(self)@ == (ManagerView { viewer: scrolled_up(old(self)@.viewer, lines), ..old(self)@ }),
    {
        if let Some(viewer) = &mut self.file_viewer {
            viewer.scroll_offset = viewer.scroll_offset.saturating_sub(lines);
        }
    }

    /// Scrolls the viewer down by `lines`, stopping where the last line
    /// sits at the bottom of a window `visible_height` lines high.
    pub fn scroll_viewer_down(&mut self, lines: usize, visible_height: usize)
        ensures
            final(self)@ == (ManagerView {
                viewer: scrolled_down(old(self)@.viewer, lines, visible_height),
                ..old(self)@
            }),
    {
        if let Some(viewer) = &mut self.file_viewer {
            let max_scroll = viewer.lines.len().saturating_sub(visible_height);
            viewer.scroll_offset = if viewer.scroll_offset >= max_scroll || lines >= max_scroll
                - viewer.scroll_offset {
                max_scroll
            } else {
                viewer.scroll_offset + lines
            };
        }
    }

    /// Closes the viewer and goes back to the panes.
    pub fn close_file_viewer(&mut self)
        ensures
            final(self)@ == viewer_closed(old(self)@),
    {
        self.mode = InputMode::Normal;
        self.file_viewer = None;
    }

    /// Opens the path prompt, filled with the focused pane's path.
    pub fn start_go_to_path(&mut self)
        ensures
            final(self)@ == go_to_started(old(self)@),
    {
        self.mode = InputMode::GoToPath;
        self.input_buffer = self.active_pane().current_path.clone();
        self.status_message = None;
    }

    /// Leaves the prompt and empties it.
    pub fn cancel_input(&mut self)
        ensures
            final(self)@ == input_cancelled(old(self)@),
    {
        self.mode = InputMode::Normal;
        self.input_buffer = String::new();
    }
}

/// What the caller has to do after Enter was pressed on the panes.
pub enum EnterStep {
    /// Nothing more.
    Stay,
    /// Read the file at `path` and hand the result to `finish_open_file`.
    OpenFile { path: String, name: String },
    /// List the focused pane's directory and hand the result to
    /// `finish_listing`.
    ListDirectory,
}

/// The lower-cased extension of a file name, empty where it has none.
pub open spec fn name_extension(name: Seq<char>) -> Seq<char> {
    lowercase(
        match path_extension_of(name) {
            Some(e) => e,
            None => Seq::empty(),
        },
    )
}

/// The pane after Enter on the directory `name`: `..` moves to the parent
/// (where there is a non-empty one), any other name into that directory;
/// a move puts the cursor on the first entry and unselects everything.
pub open spec fn entered_pane(p: PaneView, name: Seq<char>) -> PaneView {
    if name == seq!['.', '.'] {
        match path_parent_of(p.path) {
            Some(q) => if q.len() > 0 {
                PaneView { path: q, selected: 0, selections: Set::empty(), ..p }
            } else {
                p
            },
            None => p,
        }
    } else {
        PaneView { path: path_joined(p.path, name), selected: 0, selections: Set::empty(), ..p }
    }
}

/// The message shown for a file whose extension the viewer does not take.
pub open spec fn unsupported_message(ext: Seq<char>) -> Seq<char> {
    "Unsupported file type: ."@ + ext
}

/// The state after Enter, and what is to be done next, as `begin_enter`
/// gives them.
pub open spec fn enter_begun(o: ManagerView, step: EnterStep) -> bool {
    let a = o.active();
    if a.selected >= a.entries.len() {
        step is Stay && true
    } else {
        let e = a.entries[a.selected as int];
        if e.file_type == FileType::Directory {
            step is ListDirectory
        } else if e.file_type == FileType::File && o.config.extensions.contains(
            name_extension(e.name@),
        ) {
            step matches EnterStep::OpenFile { path, name } && path@ == path_joined(
                a.path,
                e.name@,
            ) && name@ == e.name@
        } else {
            step is Stay
        }
    }
}

/// The state after Enter on the panes.
pub open spec fn entered(o: ManagerView) -> ManagerView {
    let a = o.active();
    if a.selected >= a.entries.len() {
        o
    } else {
        let e = a.entries[a.selected as int];
        if e.file_type == FileType::Directory {
            o.with_active(entered_pane(a, e.name@))
        } else if e.file_type == FileType::File && !o.config.extensions.contains(
            name_extension(e.name@),
        ) {
            ManagerView { status: Some(unsupported_message(name_extension(e.name@))), ..o }
        } else {
            o
        }
    }
}

/// The state once the file `path` was read: the viewer opened on its
/// lines, or the read error shown.
pub open spec fn file_opened(
    o: ManagerView,
    path: Seq<char>,
    name: Seq<char>,
    content: Result<Seq<char>, Seq<char>>,
) -> ManagerView {
    match content {
        Ok(c) => ManagerView {
            viewer: Some(ViewerView { path, name, lines: text_lines(c), scroll: 0, dirty: false }),
            mode: InputMode::FileViewer,
            status: None,
            ..o
        },
        Err(e) => ManagerView { status: Some("Failed to read file: "@ + e), ..o },
    }
}

/// The text of a result holding strings.
pub open spec fn result_view(r: Result<String, String>) -> Result<Seq<char>, Seq<char>> {
    match r {
        Ok(s) => Ok(s@),
        Err(e) => Err(e@),
    }
}

/// `n` is the pane `o` after it showed the listing `raw`: same path and
/// selections, the entries a refresh shows for `raw`, the cursor pulled
/// back.
pub open spec fn relisted(o: PaneView, n: PaneView, raw: Seq<FileMetadata>) -> bool {
    &&& n.path == o.path
    &&& is_listing_of(n.entries, raw)
    &&& n.selected == clamped_selection(o.selected, n.entries.len())
    &&& n.selections == o.selections
}

impl AppStateManager {
    /// Enter on the panes: on a directory, moves the focused pane into it
    /// (`..` to the parent) and asks for a new listing; on a file whose
    /// extension the configuration lists, asks for its content; on another
    /// file, says that its type is not supported.
    pub fn begin_enter(&mut self) -> (step: EnterStep)
        ensures
            enter_begun(old(self)@, step),
            final(self)@ == entered(old(self)@),
    {
        let (name, file_type) = {
            let active = self.active_pane();
            match active.selected_entry() {
                Some(entry) => (entry.name.clone(), entry.file_type),
                None => {
                    return EnterStep::Stay;
                },
            }
        };
        if file_type != FileType::Directory {
            if file_type == FileType::File {
                let ext = match path_extension(name.as_str()) {
                    Some(e) => to_lowercase(e.as_str()),
                    None => {
                        proof {
                            reveal_strlit("");
                            assert(""@ =~= Seq::<char>::empty());
                        }
                        to_lowercase("")
                    },
                };
                assert(ext@ == name_extension(name@));
                if self.config.text_extensions.contains(ext.as_str()) {
                    let full_path = path_join(self.active_pane().current_path.as_str(), name.as_str());
                    return EnterStep::OpenFile { path: full_path, name };
                } else {
                    self.status_message = Some(concat("Unsupported file type: .", ext.as_str()));
                }
            }
            return EnterStep::Stay;
        }
        let active = self.active_pane_mut();
        if is_dotdot_name(&name) {
            match path_parent(active.current_path.as_str()) {
                Some(parent) => {
                    if parent.as_str().unicode_len() > 0 {
                        active.current_path = parent;
                        active.selected_index = 0;
                        active.selections = StrSet::new();
                    }
                },
                None => {},
            }
        } else {
            let next_path = path_join(active.current_path.as_str(), name.as_str());
            active.current_path = next_path;
            active.selected_index = 0;
            active.selections = StrSet::new();
        }
        EnterStep::ListDirectory
    }

    /// Opens the viewer on the content read from `path` (split into lines
    /// as `str::lines` does), or shows why it could not be read.
    pub fn finish_open_file(
        &mut self,
        path: String,
        name: String,
        content: Result<String, String>,
    )
        ensures
            final(self)@ == file_opened(old(self)@, path@, name@, result_view(content)),
    {
        match content {
            Ok(c) => {
                let lines = split_lines(c.as_str());
                self.file_viewer = Some(
                    FileViewerState {
                        file_path: path,
                        file_name: name,
                        lines,
                        scroll_offset: 0,
                        is_dirty: false,
                    },
                );
                self.mode = InputMode::FileViewer;
                self.status_message = None;
            },
            Err(e) => {
                self.status_message = Some(concat("Failed to read file: ", e.as_str()));
            },
        }
    }

    /// Shows the listing of the focused pane's directory and clears the
    /// status, or shows why the directory could not be listed.
    pub fn finish_listing(&mut self, listing: Result<Vec<FileMetadata>, String>)
        ensures
            match listing {
                Ok(raw) => {
                    &&& relisted(old(self)@.active(), final(self)@.active(), raw@)
                    &&& final(self)@ == (ManagerView {
                        status: None,
                        ..old(self)@.with_active(final(self)@.active())
                    })
                },
                Err(e) => final(self)@ == (ManagerView {
                    status: Some("Error: "@ + e@),
                    ..old(self)@
                }),
            },
    {
        match listing {
            Ok(raw) => {
                let active = self.active_pane_mut();
                active.apply_listing(raw);
                self.status_message = None;
            },
            Err(e) => {
                self.status_message = Some(concat("Error: ", e.as_str()));
            },
        }
    }
}

/// The state once the prompt was committed: back to normal mode, the
/// focused pane at the trimmed prompt text with its cursor at the top. The
/// selection stays until the new directory is known to be listed.
pub open spec fn go_to_begun(o: ManagerView) -> ManagerView {
    ManagerView {
        mode: InputMode::Normal,
        ..o.with_active(PaneView { path: trimmed(o.input), selected: 0, ..o.active() })
    }
}

/// The pane `p`, which was at `old_path`, with nothing selected if it now
/// shows another directory.
pub open spec fn selection_after_move(p: PaneView, old_path: Seq<char>) -> PaneView {
    if p.path == old_path {
        p
    } else {
        PaneView { selections: Set::empty(), ..p }
    }
}

/// The state once the new directory could not be listed: the focused pane
/// back at `old_path`, and the failure shown.
pub open spec fn go_to_failed(o: ManagerView, old_path: Seq<char>, e: Seq<char>) -> ManagerView {
    ManagerView {
        status: Some("Navigation failed: "@ + e),
        ..o.with_active(PaneView { path: old_path, ..o.active() })
    }
}

/// What happened when the editor was to be started.
pub enum LaunchOutcome {
    /// No editor path is configured, or none exists there.
    NoEditor,
    /// The editor was started on the file.
    Launched,
    /// Starting the editor failed, for this reason.
    Failed(String),
}

/// What starting the editor needs: the viewed file's path and name, and
/// the configured editor path, if any.
pub struct EditorLaunch {
    pub file_path: String,
    pub file_name: String,
    pub editor_path: Option<String>,
}

impl EditorLaunch {
    /// The program to start: the configured editor path, where there is one
    /// and `editor_exists` says that something is there; `None` means that
    /// no editor is defined.
    pub fn program(&self, editor_exists: bool) -> (r: Option<String>)
        ensures
            match r {
                Some(p) => editor_exists && (self.editor_path matches Some(e) && p@ == e@),
                None => !editor_exists || self.editor_path is None,
            },
    {
        match &self.editor_path {
            Some(p) => if editor_exists {
                Some(p.clone())
            } else {
                None
            },
            None => None,
        }
    }
}

/// The message left by an attempt to start the editor on the file named
/// `name`.
pub open spec fn launch_message(name: Seq<char>, outcome: LaunchOutcome) -> Seq<char> {
    match outcome {
        LaunchOutcome::NoEditor => "Error: No editor is defined"@,
        LaunchOutcome::Launched => "Opened in VS Code: "@ + name,
        LaunchOutcome::Failed(e) => "Error: Failed to launch VS Code: "@ + e@,
    }
}

/// Where the configuration came from at start-up.
pub enum ConfigSource {
    /// The configuration file parsed into this configuration.
    Loaded(AppConfig),
    /// The configuration file did not parse, for this reason.
    Invalid(String),
    /// The configuration file could not be read.
    Missing,
}

impl AppStateManager {
    /// Commits the path prompt: leaves it and moves the focused pane to the
    /// trimmed prompt text; returns the path that the pane had, to go back
    /// to if the new one cannot be listed. The caller lists the new path and
    /// hands the result to `finish_go_to_path`.
    pub fn begin_go_to_path(&mut self) -> (old_path: String)
        ensures
            old_path@ == old(self)@.active().path,
            final(self)@ == go_to_begun(old(self)@),
    {
        let path_to_set = trim(self.input_buffer.as_str());
        self.mode = InputMode::Normal;
        let active = self.active_pane_mut();
        let old_path = active.current_path.clone();
        active.current_path = path_to_set;
        active.selected_index = 0;
        old_path
    }

    /// Takes the listing of the new path: shows it, unselects everything
    /// where the pane moved away from `old_path`, and says where the pane
    /// went; or, where it could not be listed, puts the pane back at
    /// `old_path` with its selection, says why, and returns `true`: the
    /// caller then lists the old path again and hands the result to
    /// `restore_listing`.
    pub fn finish_go_to_path(
        &mut self,
        old_path: String,
        listing: Result<Vec<FileMetadata>, String>,
    ) -> (retry: bool)
        ensures
            retry == listing is Err,
            match listing {
                Ok(raw) => {
                    &&& relisted(
                        selection_after_move(old(self)@.active(), old_path@),
                        final(self)@.active(),
                        raw@,
                    )
                    &&& final(self)@ == (ManagerView {
                        status: Some("Navigated to "@ + old(self)@.active().path),
                        ..old(self)@.with_active(final(self)@.active())
                    })
                },
                Err(e) => final(self)@ == go_to_failed(old(self)@, old_path@, e@),
            },
    {
        match listing {
            Ok(raw) => {
                let active = self.active_pane_mut();
                if !same_text(active.current_path.as_str(), old_path.as_str()) {
                    active.clear_selections();
                }
                active.apply_listing(raw);
                let message = concat("Navigated to ", self.active_pane().current_path.as_str());
                self.status_message = Some(message);
                false
            },
            Err(e) => {
                let active = self.active_pane_mut();
                active.current_path = old_path;
                self.status_message = Some(concat("Navigation failed: ", e.as_str()));
                true
            },
        }
    }

    /// Shows the listing of the focused pane's directory where there is
    /// one; leaves everything as it is otherwise.
    pub fn restore_listing(&mut self, listing: Result<Vec<FileMetadata>, String>)
        ensures
            match listing {
                Ok(raw) => {
                    &&& relisted(old(self)@.active(), final(self)@.active(), raw@)
                    &&& final(self)@ == old(self)@.with_active(final(self)@.active())
                },
                Err(_) => final(self)@ == old(self)@,
            },
    {
        match listing {
            Ok(raw) => {
                let active = self.active_pane_mut();
                active.apply_listing(raw);
            },
            Err(_) => {},
        }
    }

    /// Backspace on the panes: where the first entry is `..`, puts the
    /// cursor on it and does what Enter does there.
    pub fn begin_navigate_up(&mut self) -> (step: EnterStep)
        ensures
            ({
                let a = old(self)@.active();
                if a.entries.len() > 0 && a.entries[0].name@ == seq!['.', '.'] {
                    let o = old(self)@.with_active(PaneView { selected: 0, ..a });
                    enter_begun(o, step) && final(self)@ == entered(o)
                } else {
                    step is Stay && final(self)@ == old(self)@
                }
            }),
    {
        let first_is_dotdot = {
            let active = self.active_pane();
            active.entries.len() > 0 && is_dotdot_name(&active.entries[0].name)
        };
        if first_is_dotdot {
            let active = self.active_pane_mut();
            active.selected_index = 0;
            self.begin_enter()
        } else {
            EnterStep::Stay
        }
    }

    /// What starting the editor on the viewed file needs, or `None` where
    /// no file is viewed.
    pub fn plan_open_in_editor(&self) -> (r: Option<EditorLaunch>)
        ensures
            match self@.viewer {
                None => r is None,
                Some(v) => r matches Some(l) && l.file_path@ == v.path && l.file_name@ == v.name
                    && match l.editor_path {
                    Some(p) => self@.config.editors.contains_key("vscode"@)
                        && self@.config.editors["vscode"@] == p@,
                    None => !self@.config.editors.contains_key("vscode"@),
                },
            },
    {
        match &self.file_viewer {
            None => None,
            Some(viewer) => {
                let editor_path = match self.config.editors.get("vscode") {
                    Some(p) => Some(p.clone()),
                    None => None,
                };
                Some(EditorLaunch {
                    file_path: viewer.file_path.clone(),
                    file_name: viewer.file_name.clone(),
                    editor_path,
                })
            },
        }
    }

    /// Says how starting the editor on the file named `file_name` went.
    pub fn finish_open_in_editor(&mut self, file_name: &str, outcome: LaunchOutcome)
        ensures
            final(self)@ == (ManagerView {
                status: Some(launch_message(file_name@, outcome)),
                ..old(self)@
            }),
    {
        let message = match outcome {
            LaunchOutcome::NoEditor => String::from_str("Error: No editor is defined"),
            LaunchOutcome::Launched => concat("Opened in VS Code: ", file_name),
            LaunchOutcome::Failed(e) => concat("Error: Failed to launch VS Code: ", e.as_str()),
        };
        self.status_message = Some(message);
    }

    /// Takes the configuration found at start-up; an unreadable one is
    /// replaced by the default and the reason shown. Returns `true` where
    /// the configuration file could not be read, so that the caller writes
    /// the default one.
    pub fn apply_config(&mut self, source: ConfigSource) -> (write_default: bool)
        ensures
            write_default == source is Missing,
            match source {
                ConfigSource::Loaded(cfg) => final(self)@ == (ManagerView { config: cfg@, ..old(self)@ }),
                ConfigSource::Invalid(e) => final(self)@ == (ManagerView {
                    config: default_config(),
                    status: Some("Config parse error: "@ + e@ + ". Using defaults."@),
                    ..old(self)@
                }),
                ConfigSource::Missing => final(self)@ == (ManagerView {
                    config: default_config(),
                    ..old(self)@
                }),
            },
    {
        match source {
            ConfigSource::Loaded(cfg) => {
                self.config = cfg;
                false
            },
            ConfigSource::Invalid(e) => {
                let head = concat("Config parse error: ", e.as_str());
                self.status_message = Some(concat(head.as_str(), ". Using defaults."));
                self.config = AppConfig::default();
                false
            },
            ConfigSource::Missing => {
                self.config = AppConfig::default();
                true
            },
        }
    }

    /// Records the editor's path, found by a search, unless the configured
    /// one still exists (`cached_path_exists`). Returns whether the
    /// configuration changed, so that the caller saves it.
    pub fn cache_editor_path(
        &mut self,
        editor: SupportedEditor,
        cached_path_exists: bool,
        found: Option<String>,
    ) -> (updated: bool)
        ensures
            updated == (!cached_path_exists && found is Some),
            updated ==> final(self)@ == (ManagerView {
                config: ConfigView {
                    editors: old(self)@.config.editors.insert("vscode"@, opt_view(found)->0),
                    ..old(self)@.config
                },
                ..old(self)@
            }),
            !updated ==> final(self)@ == old(self)@,
    {
        if !cached_path_exists {
            if let Some(path) = found {
                let id = String::from_str(editor.id());
                self.config.editors.insert(id, path);
                return true;
            }
        }
        false
    }

    /// Shows the first listings of both panes; a pane that could not be
    /// listed is reported (the right pane's report wins) and its error is
    /// returned, the left pane's first.
    pub fn finish_init(
        &mut self,
        left: Result<Vec<FileMetadata>, String>,
        right: Result<Vec<FileMetadata>, String>,
    ) -> (r: Result<(), String>)
        ensures
            final(self)@.active_left == old(self)@.active_left,
            final(self)@.mode == old(self)@.mode,
            final(self)@.input == old(self)@.input,
            final(self)@.viewer == old(self)@.viewer,
            final(self)@.config == old(self)@.config,
            match left {
                Ok(raw) => relisted(old(self)@.left, final(self)@.left, raw@),
                Err(_) => final(self)@.left == old(self)@.left,
            },
            match right {
                Ok(raw) => relisted(old(self)@.right, final(self)@.right, raw@),
                Err(_) => final(self)@.right == old(self)@.right,
            },
            final(self)@.status == (match (left, right) {
                (_, Err(e)) => Some("Right pane error: "@ + e@),
                (Err(e), Ok(_)) => Some("Left pane error: "@ + e@),
                (Ok(_), Ok(_)) => old(self)@.status,
            }),
            match (left, right) {
                (Err(e), _) => r == Err::<(), String>(e),
                (Ok(_), Err(e)) => r == Err::<(), String>(e),
                (Ok(_), Ok(_)) => r is Ok,
            },
    {
        let left_err = match left {
            Ok(raw) => {
                self.left_pane.apply_listing(raw);
                None
            },
            Err(e) => Some(e),
        };
        let right_err = match right {
            Ok(raw) => {
                self.right_pane.apply_listing(raw);
                None
            },
            Err(e) => Some(e),
        };
        if let Some(e) = &left_err {
            self.status_message = Some(concat("Left pane error: ", e.as_str()));
        }
        if let Some(e) = &right_err {
            self.status_message = Some(concat("Right pane error: ", e.as_str()));
        }
        match left_err {
            Some(e) => Err(e),
            None => match right_err {
                Some(e) => Err(e),
                None => Ok(()),
            },
        }
    }
}

/// The viewed file has a prettifier for its extension, and its text (the
/// lines joined with newlines) is minified.
pub open spec fn prettify_candidate(v: ViewerView) -> bool {
    &&& (path_extension_of(v.name) matches Some(e) && is_json_extension(e))
    &&& is_one_liner(joined_lines(v.lines))
}

/// The message shown where the viewer's text is over the limit of `kb` KB.
pub open spec fn too_large_message(kb: usize) -> Seq<char> {
    "File too large to prettify (max "@ + decimal_text(kb as nat) + " KB)"@
}

/// `n` and `r` are the state and the result after `p` in the viewer of `o`:
/// a minified JSON text within the size limit is reformatted, its lines
/// shown and marked unsaved; one over the limit is left, with a message;
/// one that is no JSON document is left, with an error; anything else is
/// left as it is.
pub open spec fn prettified(o: ManagerView, r: Result<(), PrettifyError>, n: ManagerView) -> bool {
    match o.viewer {
        None => r is Ok && n == o,
        Some(v) => {
            let text = joined_lines(v.lines);
            let kb = o.config.max_prettify_size_kb;
            if !prettify_candidate(v) {
                r is Ok && n == o
            } else if utf8_len(text) > kb * 1024 {
                r is Ok && n == ManagerView { status: Some(too_large_message(kb)), ..o }
            } else {
                match json_pretty(text) {
                    Some(p) => r is Ok && n == ManagerView {
                        viewer: Some(ViewerView { lines: text_lines(p), dirty: true, ..v }),
                        ..o
                    },
                    None => r == Err::<(), PrettifyError>(PrettifyError::InvalidJson) && n == o,
                }
            }
        },
    }
}

/// The state once the viewer's text was written back to its file: the
/// viewer no longer dirty, and the save reported.
pub open spec fn viewer_saved(o: ManagerView) -> ManagerView {
    match o.viewer {
        Some(v) => ManagerView {
            viewer: Some(ViewerView { dirty: false, ..v }),
            status: Some("Saved "@ + v.name),
            ..o
        },
        None => o,
    }
}

impl AppStateManager {
    /// Whether `p` would prettify the viewed file: a file is viewed, its
    /// extension has a prettifier and its text is minified.
    pub fn can_prettify_viewer(&self) -> (r: bool)
        ensures
            r == (self@.viewer matches Some(v) && prettify_candidate(v)),
    {
        match &self.file_viewer {
            None => false,
            Some(viewer) => {
                let prettifier = match path_extension(viewer.file_name.as_str()) {
                    Some(e) => get_prettifier(e.as_str()),
                    None => None,
                };
                match prettifier {
                    None => false,
                    Some(p) => {
                        let text = join_lines(&viewer.lines);
                        assert(string_views(viewer.lines@) =~= viewer@.lines);
                        p.can_prettify(text.as_str())
                    },
                }
            },
        }
    }

    /// `p` in the viewer: reformats a minified JSON text within the
    /// configured size limit, shows its lines and marks them unsaved; says
    /// so where the text is over the limit; fails where the text is no JSON
    /// document; does nothing otherwise.
    pub fn prettify_current_file(&mut self) -> (r: Result<(), PrettifyError>)
        ensures
            prettified(old(self)@, r, final(self)@),
    {
        let (text, prettifier) = match &self.file_viewer {
            None => {
                return Ok(());
            },
            Some(viewer) => {
                let prettifier = match path_extension(viewer.file_name.as_str()) {
                    Some(e) => get_prettifier(e.as_str()),
                    None => None,
                };
                assert(string_views(viewer.lines@) =~= viewer@.lines);
                (join_lines(&viewer.lines), prettifier)
            },
        };
        let prettifier = match prettifier {
            None => {
                return Ok(());
            },
            Some(p) => p,
        };
        if !prettifier.can_prettify(text.as_str()) {
            return Ok(());
        }
        let kb = self.config.max_prettify_size_kb;
        if exceeds_kb(text.as_str(), kb) {
            let head = concat("File too large to prettify (max ", decimal(kb).as_str());
            self.status_message = Some(concat(head.as_str(), " KB)"));
            return Ok(());
        }
        let pretty = match prettifier.prettify(text.as_str()) {
            Ok(s) => s,
            Err(e) => {
                return Err(e);
            },
        };
        let lines = split_lines(pretty.as_str());
        match &mut self.file_viewer {
            Some(viewer) => {
                viewer.lines = lines;
                viewer.is_dirty = true;
            },
            None => {},
        }
        Ok(())
    }

    /// What writing the viewer back needs: the file's path and its text,
    /// the lines joined with newlines; `None` where no file is viewed.
    pub fn save_plan(&self) -> (r: Option<(String, String)>)
        ensures
            match self@.viewer {
                None => r is None,
                Some(v) => r matches Some(p) && p.0@ == v.path && p.1@ == joined_lines(v.lines),
            },
    {
        match &self.file_viewer {
            None => None,
            Some(viewer) => {
                assert(string_views(viewer.lines@) =~= viewer@.lines);
                Some((viewer.file_path.clone(), join_lines(&viewer.lines)))
            },
        }
    }

    /// Records that the viewer's text was written to its file.
    pub fn mark_saved(&mut self)
        ensures
            final(self)@ == viewer_saved(old(self)@),
    {
        match &mut self.file_viewer {
            Some(viewer) => {
                viewer.is_dirty = false;
                let message = concat("Saved ", viewer.file_name.as_str());
                self.status_message = Some(message);
            },
            None => {},
        }
    }
}

/// A copy to make: the entry at `from` goes to `to`; `is_dir` says that it
/// is a directory, to be copied with all it holds.
pub struct CopyStep {
    pub from: String,
    pub to: String,
    pub is_dir: bool,
}

/// `step` copies the entry `e` of the directory `from_dir` into `to_dir`,
/// under the same name.
pub open spec fn copies(step: CopyStep, from_dir: Seq<char>, to_dir: Seq<char>, e: FileMetadata) -> bool {
    &&& step.from@ == path_joined(from_dir, e.name@)
    &&& step.to@ == path_joined(to_dir, e.name@)
    &&& step.is_dir == (e.file_type == FileType::Directory)
}

/// The entries but `..`, in order.
pub open spec fn without_dotdot(entries: Seq<FileMetadata>) -> Seq<FileMetadata> {
    entries_named(entries, Set::full())
}

/// Leaving out `..` changes nothing more in entries that were already
/// picked by name.
proof fn lemma_named_without_dotdot(es: Seq<FileMetadata>, names: Set<Seq<char>>)
    ensures
        without_dotdot(entries_named(es, names)) == entries_named(es, names),
    decreases es.len(),
{
    if es.len() > 0 {
        lemma_named_without_dotdot(es.drop_last(), names);
        let rest = entries_named(es.drop_last(), names);
        let e = es.last();
        if names.contains(e.name@) && !is_dotdot(e) {
            assert(rest.push(e).drop_last() =~= rest);
            assert(Set::<Seq<char>>::full().contains(e.name@));
        }
    }
}

/// `..` is never acted on: the targets of a pane hold no `..`.
proof fn lemma_targets_without_dotdot(p: PaneView)
    ensures
        without_dotdot(action_targets(p)) == action_targets(p),
{
    if p.selections.len() > 0 {
        lemma_named_without_dotdot(p.entries, p.selections);
    } else if p.selected < p.entries.len() && !is_dotdot(p.entries[p.selected as int]) {
        let e = p.entries[p.selected as int];
        assert(seq![e].drop_last() =~= Seq::<FileMetadata>::empty());
        assert(entries_named(Seq::<FileMetadata>::empty(), Set::full()) == Seq::<
            FileMetadata,
        >::empty());
        assert(Set::<Seq<char>>::full().contains(e.name@));
        assert(Seq::<FileMetadata>::empty().push(e) =~= seq![e]);
    } else {
        assert(entries_named(Seq::<FileMetadata>::empty(), Set::full()) == Seq::<
            FileMetadata,
        >::empty());
    }
}

/// The copies that put the entries of a listing of `from_dir`, `..` left
/// out, into `to_dir`, in order.
pub fn copy_steps(from_dir: &str, to_dir: &str, entries: &Vec<FileMetadata>) -> (r: Vec<CopyStep>)
    ensures
        r@.len() == without_dotdot(entries@).len(),
        forall|i: int|
            0 <= i < r@.len() ==> copies(#[trigger] r@[i], from_dir@, to_dir@, without_dotdot(entries@)[i]),
{
    let mut r: Vec<CopyStep> = Vec::new();
    let mut i: usize = 0;
    while i < entries.len()
        invariant
            i <= entries@.len(),
            r@.len() == without_dotdot(entries@.take(i as int)).len(),
            forall|k: int|
                0 <= k < r@.len() ==> copies(
                    #[trigger] r@[k],
                    from_dir@,
                    to_dir@,
                    without_dotdot(entries@.take(i as int))[k],
                ),
        decreases entries@.len() - i,
    {
        assert(entries@.take(i + 1).drop_last() =~= entries@.take(i as int));
        let e = &entries[i];
        assert(Set::<Seq<char>>::full().contains(e.name@));
        if !is_dotdot_name(&e.name) {
            let step = CopyStep {
                from: path_join(from_dir, e.name.as_str()),
                to: path_join(to_dir, e.name.as_str()),
                is_dir: e.file_type == FileType::Directory,
            };
            r.push(step);
        }
        i = i + 1;
    }
    assert(entries@.take(entries@.len() as int) =~= entries@);
    r
}

impl AppStateManager {
    /// The pane that does not have the focus.
    pub fn inactive_pane(&self) -> (r: &PaneState)
        ensures
            r == (if self.active_left {
                &self.right_pane
            } else {
                &self.left_pane
            }),
    {
        if self.active_left {
            &self.right_pane
        } else {
            &self.left_pane
        }
    }

    /// The copies that Copy makes: each target of the focused pane into
    /// the other pane's directory, in order.
    pub fn copy_plan(&self) -> (r: Vec<CopyStep>)
        ensures
            r@.len() == action_targets(self@.active()).len(),
            forall|i: int|
                0 <= i < r@.len() ==> copies(
                    #[trigger] r@[i],
                    self@.active().path,
                    self@.inactive().path,
                    action_targets(self@.active())[i],
                ),
    {
        let active = self.active_pane();
        let targets = active.action_targets();
        proof {
            lemma_targets_without_dotdot(self@.active());
        }
        copy_steps(active.current_path.as_str(), self.inactive_pane().current_path.as_str(), &targets)
    }

    /// What Delete removes: the path of each target of the focused pane,
    /// and whether it is a directory (removed with all it holds).
    pub fn delete_steps(&self) -> (r: Vec<(String, bool)>)
        ensures
            r@.len() == action_targets(self@.active()).len(),
            forall|i: int|
                0 <= i < r@.len() ==> {
                    let e = action_targets(self@.active())[i];
                    &&& (#[trigger] r@[i]).0@ == path_joined(self@.active().path, e.name@)
                    &&& r@[i].1 == (e.file_type == FileType::Directory)
                },
    {
        let active = self.active_pane();
        let targets = active.action_targets();
        let mut r: Vec<(String, bool)> = Vec::new();
        let mut i: usize = 0;
        while i < targets.len()
            invariant
                i <= targets@.len(),
                targets@ == action_targets(self@.active()),
                active@ == self@.active(),
                r@.len() == i,
                forall|k: int|
                    0 <= k < i ==> {
                        let e = targets@[k];
                        &&& (#[trigger] r@[k]).0@ == path_joined(active@.path, e.name@)
                        &&& r@[k].1 == (e.file_type == FileType::Directory)
                    },
            decreases targets@.len() - i,
        {
            let path = path_join(active.current_path.as_str(), targets[i].name.as_str());
            r.push((path, targets[i].file_type == FileType::Directory));
            i = i + 1;
        }
        r
    }

    /// After Delete: back to normal mode, nothing selected in the focused
    /// pane, and its new listing shown where there is one.
    pub fn finish_delete(&mut self, listing: Result<Vec<FileMetadata>, String>)
        ensures
            ({
                let cleared = PaneView { selections: Set::empty(), ..old(self)@.active() };
                match listing {
                    Ok(raw) => {
                        &&& relisted(cleared, final(self)@.active(), raw@)
                        &&& final(self)@ == (ManagerView {
                            mode: InputMode::Normal,
                            ..old(self)@.with_active(final(self)@.active())
                        })
                    },
                    Err(_) => final(self)@ == (ManagerView {
                        mode: InputMode::Normal,
                        ..old(self)@.with_active(cleared)
                    }),
                }
            }),
    {
        self.mode = InputMode::Normal;
        let active = self.active_pane_mut();
        active.clear_selections();
        match listing {
            Ok(raw) => active.apply_listing(raw),
            Err(_) => {},
        }
    }

    /// After Copy: the other pane's new listing shown where there is one.
    pub fn finish_copy(&mut self, listing: Result<Vec<FileMetadata>, String>)
        ensures
            match listing {
                Ok(raw) => {
                    &&& relisted(old(self)@.inactive(), final(self)@.inactive(), raw@)
                    &&& final(self)@ == old(self)@.with_inactive(final(self)@.inactive())
                },
                Err(_) => final(self)@ == old(self)@,
            },
    {
        match listing {
            Ok(raw) => {
                if self.active_left {
                    self.right_pane.apply_listing(raw);
                } else {
                    self.left_pane.apply_listing(raw);
                }
            },
            Err(_) => {},
        }
    }
}

} // verus!
