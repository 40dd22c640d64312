use vstd::prelude::*;

use crate::events::{Event, KeyCode, KeyEvent, MouseButton, MouseEvent, MouseEventKind};
use crate::file_system::{
    copy_bytes, depths_fit, toggle_defined, toggled_file, toggled_tree, DirRead, FileTree, FileType, TogglePlan,
    WalkEntry,
};
use crate::geometry::{
    horizontal_hitbox, horizontal_hitbox_defined, is_in_hitbox, vertical_hitbox,
    vertical_hitbox_defined, Direction, DragKind, MenuScreenType, Rect, Split,
};
use crate::input::{input_step, input_step_defined, Input};
use crate::popup_menu::{cycle_defined, cycle_index, PopupMenu};
use crate::search::location_of;
use crate::search::menu::SearchMenu;
use crate::shell::{command_argv, env_set, shell_argv, Shell};
use crate::text::{
    has_one_equals_sign, join_path, joined_path, one_equals_sign, parse_u16, parsed_u16, same_text,
    split_at_equals, split_whitespace, words,
};
use vstd::string::StrSliceExecFns;

verus! {

/// Within the editor, whether the editor itself or its menu has the keys.
#[derive(Clone, Copy, Debug, PartialEq, Eq, Structural)]
pub enum EditorFocus {
    MAIN,
    MENU,
}

/// The pane that has the keys.
#[derive(Clone, Copy, Debug, PartialEq, Eq, Structural)]
pub enum Focus {
    FILES,
    SHELL,
    EDITOR(EditorFocus),
    SEARCH,
}

/// The popup shown over the panes.
pub enum MenuScreen {
    EDITOR(PopupMenu<String>),
    SEARCH(SearchMenu),
}

/// An open file: its path and the checksum of its text when last saved.
/// The text itself lives with the editor widget.
pub struct EditorPane {
    pub path: Vec<u8>,
    pub hash: u64,
}

/// Outside work that handling an event asks for; the state changes that do
/// not need it are already made.
pub enum Action {
    Nothing,
    /// Pass the key to the editor at this index.
    EditorKey(usize),
    /// Pass the mouse event to the editor at this index.
    EditorMouse(usize),
    /// Load the file and show it in the preview.
    Preview(Vec<u8>),
    /// Open the file in an editor.
    Open(Vec<u8>),
    /// Move to the directory.
    ChangeDir(Vec<u8>),
    /// Move to the path if it is a directory.
    ChangeDirIfDir(Vec<u8>),
    /// Read what toggling the highlighted entry of the file tree needs,
    /// then toggle it with `App::toggle_dir`.
    ToggleDir,
    /// Stop the running search.
    CleanupSearch,
    /// Let the running search go, if there is one: a new search menu has
    /// no search running.
    DropSearch,
    /// Search the working directory for the query.
    StartSearch(String),
    /// Write the text of the editor at this index to its file.
    Save(usize),
    /// Close the editor widget at this index.
    Close(usize),
    /// Go to the place a search result points at.
    SearchSelection { path: String, line: Option<u64> },
    /// Run the program line in the shell.
    Run(Vec<String>),
}

/// The state of the application that its decisions read and change.
pub struct App {
    pub input: Input,
    pub file_system: FileTree,
    pub shell: Shell,
    pub exit: bool,
    pub output: Vec<String>,
    pub output_pos: u16,
    pub focus: Focus,
    pub preview_pane: Option<EditorPane>,
    pub editor_panes: Vec<EditorPane>,
    pub selected_editor: Option<usize>,
    pub menu_screen: Option<MenuScreen>,
    pub split: Split,
    pub last_drag: Option<DragKind>,
}

/// The menu shown when leaving an editor: "Save?" then "Exit?", the first
/// highlighted.
pub open spec fn is_editor_menu(m: PopupMenu<String>) -> bool {
    &&& m@.map_values(|s: String| s@) == seq!["Save?"@, "Exit?"@]
    &&& m.selection() == Some(0usize)
    &&& m.state().offset == 0
}

pub fn editor_menu() -> (m: PopupMenu<String>)
    ensures
        is_editor_menu(m),
{
    let m = PopupMenu::default().add_field(String::from_str("Save?")).add_field(
        String::from_str("Exit?"),
    );
    assert(m@.map_values(|s: String| s@) =~= seq!["Save?"@, "Exit?"@]);
    m
}

/// The highlighted entry of the menu has the text `label`.
pub open spec fn chosen(m: PopupMenu<String>, label: Seq<char>) -> bool {
    m.shows_selected(label)
}

/// The direction a vertical arrow key moves in.
pub open spec fn key_direction(code: KeyCode) -> Direction {
    if code == KeyCode::Up { Direction::UP } else { Direction::DOWN }
}

/// The editor after `i` when cycling through `n` editors.
pub open spec fn next_editor(sel: Option<usize>, n: int) -> Option<usize> {
    match sel {
        Some(i) => Some((if i == n - 1 { 0 } else { i + 1 }) as usize),
        None => None,
    }
}

/// The editor before `i` when cycling through `n` editors.
pub open spec fn previous_editor(sel: Option<usize>, n: int) -> Option<usize> {
    match sel {
        Some(i) => Some((if i == 0 { if n >= 1 { n - 1 } else { 0 } } else { i - 1 }) as usize),
        None => None,
    }
}

/// The key goes to the selected editor, if there is one.
pub open spec fn to_editor(sel: Option<usize>, act: Action) -> bool {
    match sel {
        Some(i) => act == Action::EditorKey(i),
        None => act is Nothing,
    }
}

impl App {
    pub open spec fn wf(&self) -> bool {
        &&& self.input.wf()
        &&& self.file_system.wf()
        &&& self.shell.wf()
        &&& (self.selected_editor matches Some(i) ==> i < self.editor_panes@.len())
        &&& self.output_pos < u16::MAX
        &&& (self.menu_screen matches Some(MenuScreen::SEARCH(m)) ==> m.wf())
    }
}


/// The areas a left click away from the dividers is tested against lie
/// in the grid: the popup, if one is shown; then, unless the click is in
/// the popup or on an open editor, the shell area; and, unless it is in
/// the shell area too, the file area.
pub open spec fn left_click_defined(
    o: App,
    x: int,
    y: int,
    editor: Rect,
    shell: Rect,
    file: Rect,
    popup: Option<(MenuScreenType, Rect)>,
) -> bool {
    &&& (popup matches Some(p) ==> p.1.fits())
    &&& !(popup matches Some(p) && p.1.strictly_contains(x, y)) ==> {
        !(editor.strictly_contains(x, y) && o.selected_editor is Some) ==> {
            &&& shell.fits()
            &&& !shell.strictly_contains(x, y) ==> file.fits()
        }
    }
}

/// The keys on which handling stays defined: the lists that a vertical
/// arrow moves through are not empty where it needs them, the search
/// result Tab goes to is a result, and the shell and search lines accept
/// the keys typed into them.
pub open spec fn key_defined(o: App, key: KeyEvent, running: bool) -> bool {
    let code = key.code;
    match code {
        KeyCode::Esc | KeyCode::Left | KeyCode::Right | KeyCode::BackTab => true,
        KeyCode::Char(c) if c == '?' => true,
        KeyCode::Down | KeyCode::Up => match o.focus {
            Focus::SEARCH => o.menu_screen matches Some(MenuScreen::SEARCH(m)) ==> cycle_defined(
                m.selection(),
                m.items().len() as int,
            ),
            Focus::FILES => o.file_system.entries().len() > 0,
            Focus::SHELL => input_step_defined(o.input@, code),
            Focus::EDITOR(EditorFocus::MAIN) => true,
            Focus::EDITOR(EditorFocus::MENU) => o.menu_screen matches Some(MenuScreen::EDITOR(p))
                ==> cycle_defined(p.selection(), p@.len() as int),
        },
        KeyCode::Tab if o.focus == Focus::FILES => true,
        KeyCode::Tab if o.focus == Focus::SEARCH => o.menu_screen matches Some(MenuScreen::SEARCH(m))
            ==> (m.selection() matches Some(i) ==> i < m.items().len()),
        KeyCode::Enter | KeyCode::Modifier => o.focus == Focus::SHELL ==> input_step_defined(o.input@, code),
        _ => match o.focus {
            Focus::SEARCH => !running ==> (o.menu_screen matches Some(MenuScreen::SEARCH(m))
                ==> input_step_defined(m.query(), code)),
            Focus::SHELL => input_step_defined(o.input@, code),
            _ => true,
        },
    }
}

/// Esc: closes the preview, else leaves the pane: from the files or shell
/// it offers to leave the open editor, or exits if none is open; from the
/// search it closes the search; from an editor it opens or closes the
/// editor menu.
pub open spec fn esc_result(o: App, f: App, act: Action) -> bool {
    if o.preview_pane is Some {
        f == (App { preview_pane: None, ..o }) && act is Nothing
    } else {
        match o.focus {
            Focus::SHELL | Focus::FILES => act is Nothing && if o.selected_editor is Some {
                &&& f.menu_screen matches Some(MenuScreen::EDITOR(m)) && is_editor_menu(m)
                &&& f == (App { menu_screen: f.menu_screen, focus: Focus::EDITOR(EditorFocus::MENU), ..o })
            } else {
                f == (App { exit: true, ..o })
            },
            Focus::SEARCH => {
                &&& f == (App { menu_screen: None, focus: Focus::FILES, ..o })
                &&& if o.menu_screen matches Some(MenuScreen::SEARCH(_)) {
                    act is CleanupSearch
                } else {
                    act is Nothing
                }
            },
            Focus::EDITOR(EditorFocus::MAIN) => {
                &&& act is Nothing
                &&& f.menu_screen matches Some(MenuScreen::EDITOR(m)) && is_editor_menu(m)
                &&& f == (App { menu_screen: f.menu_screen, focus: Focus::EDITOR(EditorFocus::MENU), ..o })
            },
            Focus::EDITOR(EditorFocus::MENU) => {
                &&& act is Nothing
                &&& f == (App { menu_screen: None, focus: Focus::EDITOR(EditorFocus::MAIN), ..o })
            },
        }
    }
}

/// The search menu moved its highlight in `direction`, and nothing else.
pub open spec fn search_traversed(o: App, f: App, direction: Direction) -> bool {
    match o.menu_screen {
        Some(MenuScreen::SEARCH(m)) => {
            &&& f.menu_screen matches Some(MenuScreen::SEARCH(m2)) && {
                &&& m2.items() == m.items()
                &&& m2.query() == m.query()
                &&& m2.n_items() == m.n_items()
                &&& m2.selection() == Some(cycle_index(m.selection(), m.items().len() as int, direction) as usize)
            }
            &&& f == (App { menu_screen: f.menu_screen, ..o })
        },
        _ => f == o,
    }
}

/// The editor menu moved its highlight in `direction`, and nothing else.
pub open spec fn editor_menu_traversed(o: App, f: App, direction: Direction) -> bool {
    match o.menu_screen {
        Some(MenuScreen::EDITOR(m)) => {
            &&& f.menu_screen matches Some(MenuScreen::EDITOR(m2)) && {
                &&& m2@ == m@
                &&& m2.selection() == Some(cycle_index(m.selection(), m@.len() as int, direction) as usize)
                &&& m2.state().offset == m.state().offset
            }
            &&& f == (App { menu_screen: f.menu_screen, ..o })
        },
        _ => f == o,
    }
}

/// The shell line took the key, and nothing else changed.
pub open spec fn shell_typed(o: App, f: App, code: KeyCode) -> bool {
    f == (App { input: f.input, ..o }) && f.input@ == input_step(o.input@, code)
}

/// Up and Down: move through the search results, the files (previewing a
/// file landed on), the shell's commands, the editor or its menu.
pub open spec fn vertical_result(o: App, f: App, code: KeyCode, act: Action) -> bool {
    let d = key_direction(code);
    match o.focus {
        Focus::SEARCH => search_traversed(o, f, d) && act is Nothing,
        Focus::FILES => {
            let k = cycle_index(o.file_system.selection(), o.file_system.entries().len() as int, d);
            &&& f == (App { file_system: f.file_system, ..o })
            &&& f.file_system.entries() == o.file_system.entries()
            &&& f.file_system.current_path() == o.file_system.current_path()
            &&& f.file_system.current_name() == o.file_system.current_name()
            &&& f.file_system.state().offset == o.file_system.state().offset
            &&& f.file_system.selection() == Some(k as usize)
            &&& if o.file_system.entries()[k].is_dir {
                act is Nothing
            } else {
                act matches Action::Preview(p) && p@ == o.file_system.entries()[k].path
            }
        },
        Focus::SHELL => shell_typed(o, f, code) && act is Nothing,
        Focus::EDITOR(EditorFocus::MAIN) => f == o && to_editor(o.selected_editor, act),
        Focus::EDITOR(EditorFocus::MENU) => editor_menu_traversed(o, f, d) && act is Nothing,
    }
}

/// Left and Right: in an editor without shift they move its cursor;
/// otherwise they cycle through the open editors.
pub open spec fn horizontal_result(o: App, f: App, key: KeyEvent, act: Action) -> bool {
    if !key.shift && o.focus matches Focus::EDITOR(_) {
        f == o && to_editor(o.selected_editor, act)
    } else {
        &&& act is Nothing
        &&& f == (App {
            selected_editor: if key.code == KeyCode::Left {
                previous_editor(o.selected_editor, o.editor_panes@.len() as int)
            } else {
                next_editor(o.selected_editor, o.editor_panes@.len() as int)
            },
            ..o
        })
    }
}

/// Tab in the files: move to the highlighted directory or open the
/// highlighted file.
pub open spec fn tab_files_result(o: App, f: App, act: Action) -> bool {
    &&& f == o
    &&& match o.file_system.selection() {
        Some(i) => if o.file_system.entries()[i as int].is_dir {
            act matches Action::ChangeDir(p) && p@ == o.file_system.entries()[i as int].path
        } else {
            act matches Action::Open(p) && p@ == o.file_system.entries()[i as int].path
        },
        None => act is Nothing,
    }
}

/// Tab in the search: go to the place the highlighted result points at.
pub open spec fn tab_search_result(o: App, f: App, act: Action) -> bool {
    &&& f == o
    &&& match o.menu_screen {
        Some(MenuScreen::SEARCH(m)) => match m.selection() {
            Some(i) => act matches Action::SearchSelection { path, line } && {
                let loc = location_of(m.items()[i as int].1@);
                path@ == loc.0 && line == loc.1
            },
            None => act is Nothing,
        },
        _ => act is Nothing,
    }
}

/// Shift+Tab: cycle the panes: files, editor (if one is open), shell.
pub open spec fn backtab_result(o: App, f: App, act: Action) -> bool {
    &&& act is Nothing
    &&& match o.focus {
        Focus::SEARCH => f == o,
        Focus::FILES => f == (App {
            focus: if o.selected_editor is Some {
                Focus::EDITOR(EditorFocus::MAIN)
            } else {
                Focus::SHELL
            },
            ..o
        }),
        Focus::EDITOR(_) => f == (App { focus: Focus::SHELL, ..o }),
        Focus::SHELL => f == (App { focus: Focus::FILES, ..o }),
    }
}

/// The selected editor after closing the one at `i` of `n`.
pub open spec fn after_close(i: int, n: int) -> Option<usize> {
    if n - 1 == 0 {
        None
    } else if n - 1 <= i {
        Some((n - 2) as usize)
    } else {
        Some(i as usize)
    }
}

/// Enter in the editor menu: "Save?" saves the editor, "Exit?" closes it
/// (moving to the files when none is left); either closes the menu.
pub open spec fn editor_menu_enter_result(o: App, f: App, act: Action) -> bool {
    match o.menu_screen {
        Some(MenuScreen::EDITOR(m)) => if chosen(m, "Save?"@) {
            match o.selected_editor {
                Some(i) => f == (App { menu_screen: None, ..o }) && act == Action::Save(i),
                None => f == o && act is Nothing,
            }
        } else if chosen(m, "Exit?"@) {
            match o.selected_editor {
                Some(i) => {
                    let sel = after_close(i as int, o.editor_panes@.len() as int);
                    &&& f.editor_panes@ == o.editor_panes@.remove(i as int)
                    &&& f == (App {
                        editor_panes: f.editor_panes,
                        selected_editor: sel,
                        menu_screen: None,
                        focus: if sel is None { Focus::FILES } else { o.focus },
                        ..o
                    })
                    &&& act == Action::Close(i)
                },
                None => f == (App { menu_screen: None, focus: Focus::FILES, ..o }) && act is Nothing,
            }
        } else {
            f == o && act is Nothing
        },
        _ => f == o && act is Nothing,
    }
}

/// Enter: start a search, toggle the highlighted entry of the files, enter
/// the shell's command, or act in an editor or its menu.
pub open spec fn enter_result(o: App, f: App, running: bool, act: Action) -> bool {
    match o.focus {
        Focus::SEARCH => match o.menu_screen {
            Some(MenuScreen::SEARCH(m)) => if running {
                f == o && act is Nothing
            } else {
                &&& f.menu_screen matches Some(MenuScreen::SEARCH(m2)) && {
                    &&& m2.items().len() == 0
                    &&& m2.selection() is None
                    &&& m2.n_items() == 0
                    &&& m2.query() == m.query()
                }
                &&& f == (App { menu_screen: f.menu_screen, ..o })
                &&& act matches Action::StartSearch(q) && q@ == crate::input::rendered(m.query())
            },
            _ => f == o && act is Nothing,
        },
        Focus::FILES => f == o && act is ToggleDir,
        Focus::SHELL => shell_typed(o, f, KeyCode::Enter) && act is Nothing,
        Focus::EDITOR(EditorFocus::MAIN) => f == o && to_editor(o.selected_editor, act),
        Focus::EDITOR(EditorFocus::MENU) => editor_menu_enter_result(o, f, act),
    }
}

/// Any other key: it edits the search query (unless a search is running)
/// or the shell line, goes to the editor, or is ignored in the files.
pub open spec fn other_key_result(o: App, f: App, code: KeyCode, running: bool, act: Action) -> bool {
    match o.focus {
        Focus::SEARCH => act is Nothing && match o.menu_screen {
            Some(MenuScreen::SEARCH(m)) => {
                &&& f.menu_screen matches Some(MenuScreen::SEARCH(m2)) && {
                    &&& m2.items() == m.items()
                    &&& m2.selection() == m.selection()
                    &&& m2.n_items() == m.n_items()
                    &&& m2.query() == if running { m.query() } else { input_step(m.query(), code) }
                }
                &&& f == (App { menu_screen: f.menu_screen, ..o })
            },
            _ => f == o,
        },
        Focus::FILES => f == o && act is Nothing,
        Focus::SHELL => shell_typed(o, f, code) && act is Nothing,
        Focus::EDITOR(_) => f == o && to_editor(o.selected_editor, act),
    }
}

/// What a key press does.
pub open spec fn key_result(o: App, f: App, key: KeyEvent, running: bool, act: Action) -> bool {
    match key.code {
        KeyCode::Esc => esc_result(o, f, act),
        KeyCode::Down | KeyCode::Up => vertical_result(o, f, key.code, act),
        KeyCode::Modifier => match o.focus {
            Focus::FILES | Focus::SEARCH => f == o && act is Nothing,
            Focus::SHELL => shell_typed(o, f, key.code) && act is Nothing,
            Focus::EDITOR(_) => f == o && to_editor(o.selected_editor, act),
        },
        KeyCode::Left | KeyCode::Right => horizontal_result(o, f, key, act),
        KeyCode::Tab if o.focus == Focus::FILES => tab_files_result(o, f, act),
        KeyCode::Tab if o.focus == Focus::SEARCH => tab_search_result(o, f, act),
        KeyCode::BackTab => backtab_result(o, f, act),
        KeyCode::Enter => enter_result(o, f, running, act),
        KeyCode::Char(c) if c == '?' => {
            &&& act is DropSearch
            &&& f.menu_screen matches Some(MenuScreen::SEARCH(m)) && {
                &&& m.wf()
                &&& m.items().len() == 0
                &&& m.selection() is None
                &&& m.n_items() == 0
                &&& m.query() == Input::new_view()
            }
            &&& f == (App { menu_screen: f.menu_screen, focus: Focus::SEARCH, ..o })
        },
        _ => other_key_result(o, f, key.code, running, act),
    }
}

impl App {
    /// Handles a key press. `running` tells whether a search is running.
    pub fn handle_key_event(&mut self, key: KeyEvent, running: bool) -> (act: Action)
        requires
            old(self).wf(),
            key_defined(*old(self), key, running),
        ensures
            final(self).wf(),
            key_result(*old(self), *final(self), key, running, act),
    {
        match key.code {
            KeyCode::Esc => self.handle_esc(),
            KeyCode::Down | KeyCode::Up => self.handle_vertical(key.code),
            KeyCode::Modifier => match self.focus {
                Focus::FILES | Focus::SEARCH => Action::Nothing,
                Focus::SHELL => {
                    self.input.handle_event(&Event::Key(key));
                    Action::Nothing
                },
                Focus::EDITOR(_) => self.key_to_editor(),
            },
            KeyCode::Left | KeyCode::Right => self.handle_horizontal(key),
            KeyCode::Tab if self.focus == Focus::FILES => self.handle_tab_files(),
            KeyCode::Tab if self.focus == Focus::SEARCH => self.handle_tab_search(),
            KeyCode::BackTab => {
                self.handle_backtab();
                Action::Nothing
            },
            KeyCode::Enter => self.handle_enter(key, running),
            KeyCode::Char('?') => {
                self.menu_screen = Some(MenuScreen::SEARCH(SearchMenu::new()));
                self.focus = Focus::SEARCH;
                Action::DropSearch
            },
            _ => self.handle_other_key(key, running),
        }
    }

    fn key_to_editor(&self) -> (act: Action)
        ensures
            to_editor(self.selected_editor, act),
    {
        match self.selected_editor {
            Some(i) => Action::EditorKey(i),
            None => Action::Nothing,
        }
    }

    fn handle_esc(&mut self) -> (act: Action)
        requires
            old(self).wf(),
        ensures
            final(self).wf(),
            esc_result(*old(self), *final(self), act),
    {
        if self.preview_pane.is_some() {
            self.preview_pane = None;
            return Action::Nothing;
        }
        match self.focus {
            Focus::SHELL | Focus::FILES => {
                if self.selected_editor.is_some() {
                    self.menu_screen = Some(MenuScreen::EDITOR(editor_menu()));
                    self.focus = Focus::EDITOR(EditorFocus::MENU);
                    return Action::Nothing;
                }
                self.exit = true;
                Action::Nothing
            },
            Focus::SEARCH => {
                let was_search = match &self.menu_screen {
                    Some(MenuScreen::SEARCH(_)) => true,
                    _ => false,
                };
                self.menu_screen = None;
                self.focus = Focus::FILES;
                if was_search {
                    Action::CleanupSearch
                } else {
                    Action::Nothing
                }
            },
            Focus::EDITOR(EditorFocus::MAIN) => {
                self.menu_screen = Some(MenuScreen::EDITOR(editor_menu()));
                self.focus = Focus::EDITOR(EditorFocus::MENU);
                Action::Nothing
            },
            Focus::EDITOR(EditorFocus::MENU) => {
                self.menu_screen = None;
                self.focus = Focus::EDITOR(EditorFocus::MAIN);
                Action::Nothing
            },
        }
    }

    fn handle_vertical(&mut self, code: KeyCode) -> (act: Action)
        requires
            old(self).wf(),
            code == KeyCode::Down || code == KeyCode::Up,
            key_defined(*old(self), KeyEvent { code, shift: false, press: true }, false),
        ensures
            final(self).wf(),
            vertical_result(*old(self), *final(self), code, act),
    {
        let direction = Direction::from(code);
        assert(direction == key_direction(code));
        match self.focus {
            Focus::SEARCH => {
                if let Some(MenuScreen::SEARCH(popup)) = &mut self.menu_screen {
                    popup.traverse_items(direction);
                }
                Action::Nothing
            },
            Focus::FILES => match self.file_system.traverse_dirs(direction) {
                Some(file) => Action::Preview(file),
                None => Action::Nothing,
            },
            Focus::SHELL => {
                self.input.handle_event(&Event::Key(KeyEvent { code, shift: false, press: true }));
                Action::Nothing
            },
            Focus::EDITOR(EditorFocus::MAIN) => self.key_to_editor(),
            Focus::EDITOR(EditorFocus::MENU) => {
                if let Some(MenuScreen::EDITOR(popup)) = &mut self.menu_screen {
                    popup.traverse_items(direction);
                }
                Action::Nothing
            },
        }
    }

    fn handle_horizontal(&mut self, key: KeyEvent) -> (act: Action)
        requires
            old(self).wf(),
            key.code == KeyCode::Left || key.code == KeyCode::Right,
        ensures
            final(self).wf(),
            horizontal_result(*old(self), *final(self), key, act),
    {
        if !key.shift {
            if let Focus::EDITOR(_) = self.focus {
                return self.key_to_editor();
            }
        }
        let n = self.editor_panes.len();
        if let Some(index) = self.selected_editor {
            let next = if key.code == KeyCode::Left {
                if index == 0 {
                    n.saturating_sub(1)
                } else {
                    index.saturating_sub(1)
                }
            } else {
                if index == n - 1 {
                    0
                } else {
                    index + 1
                }
            };
            self.selected_editor = Some(next);
        }
        Action::Nothing
    }

    fn handle_tab_files(&mut self) -> (act: Action)
        requires
            old(self).wf(),
        ensures
            *final(self) == *old(self),
            tab_files_result(*old(self), *final(self), act),
    {
        match self.file_system.get_selected() {
            FileType::Directory(path) => Action::ChangeDir(path),
            FileType::File(path) => Action::Open(path),
            FileType::Nothing => Action::Nothing,
        }
    }

    fn handle_tab_search(&mut self) -> (act: Action)
        requires
            old(self).wf(),
            old(self).menu_screen matches Some(MenuScreen::SEARCH(m)) ==> (m.selection() matches Some(
                i,
            ) ==> i < m.items().len()),
        ensures
            *final(self) == *old(self),
            tab_search_result(*old(self), *final(self), act),
    {
        match &self.menu_screen {
            Some(MenuScreen::SEARCH(popup)) => match popup.get_selected_item() {
                Some(item) => {
                    let (path, line) = item.location();
                    Action::SearchSelection { path, line }
                },
                None => Action::Nothing,
            },
            _ => Action::Nothing,
        }
    }

    fn handle_backtab(&mut self)
        requires
            old(self).wf(),
        ensures
            final(self).wf(),
            backtab_result(*old(self), *final(self), Action::Nothing),
    {
        match self.focus {
            Focus::SEARCH => {},
            Focus::FILES => {
                if self.selected_editor.is_some() {
                    self.focus = Focus::EDITOR(EditorFocus::MAIN);
                } else {
                    self.focus = Focus::SHELL;
                }
            },
            Focus::EDITOR(_) => self.focus = Focus::SHELL,
            Focus::SHELL => self.focus = Focus::FILES,
        }
    }

    fn handle_editor_menu_enter(&mut self) -> (act: Action)
        requires
            old(self).wf(),
        ensures
            final(self).wf(),
            editor_menu_enter_result(*old(self), *final(self), act),
    {
        let (save, exit) = match &self.menu_screen {
            Some(MenuScreen::EDITOR(popup)) => (popup.selected_text("Save?"), popup.selected_text("Exit?")),
            _ => {
                return Action::Nothing;
            },
        };
        proof {
            if save && exit {
                assert("Save?"@ != "Exit?"@) by {
                    reveal_strlit("Save?");
                    reveal_strlit("Exit?");
                    assert("Save?"@[0] != "Exit?"@[0]);
                }
            }
        }
        if save {
            match self.selected_editor {
                Some(index) => {
                    self.menu_screen = None;
                    return Action::Save(index);
                },
                None => {
                    return Action::Nothing;
                },
            }
        }
        if exit {
            let mut act = Action::Nothing;
            if let Some(index) = self.selected_editor {
                self.editor_panes.remove(index);
                if self.editor_panes.len() == 0 {
                    self.selected_editor = None;
                } else if self.editor_panes.len() <= index {
                    self.selected_editor = Some(self.editor_panes.len() - 1);
                }
                act = Action::Close(index);
            }
            if !self.selected_editor.is_some() {
                self.focus = Focus::FILES;
            }
            self.menu_screen = None;
            return act;
        }
        Action::Nothing
    }

    fn handle_enter(&mut self, key: KeyEvent, running: bool) -> (act: Action)
        requires
            old(self).wf(),
            key.code == KeyCode::Enter,
            key_defined(*old(self), key, running),
        ensures
            final(self).wf(),
            enter_result(*old(self), *final(self), running, act),
    {
        match self.focus {
            Focus::SEARCH => {
                if let Some(MenuScreen::SEARCH(popup)) = &mut self.menu_screen {
                    match popup.search(running) {
                        Some(query) => Action::StartSearch(query),
                        None => Action::Nothing,
                    }
                } else {
                    Action::Nothing
                }
            },
            Focus::FILES => Action::ToggleDir,
            Focus::SHELL => {
                self.input.handle_event(&Event::Key(key));
                Action::Nothing
            },
            Focus::EDITOR(EditorFocus::MAIN) => self.key_to_editor(),
            Focus::EDITOR(EditorFocus::MENU) => self.handle_editor_menu_enter(),
        }
    }

    fn handle_other_key(&mut self, key: KeyEvent, running: bool) -> (act: Action)
        requires
            old(self).wf(),
            key_defined(*old(self), key, running),
            !(key.code is Esc || key.code is Down || key.code is Up || key.code is Modifier
                || key.code is Left || key.code is Right || key.code is BackTab || key.code is Enter
                || key.code == KeyCode::Char('?')),
            key.code is Tab ==> !(old(self).focus == Focus::FILES || old(self).focus == Focus::SEARCH),
        ensures
            final(self).wf(),
            other_key_result(*old(self), *final(self), key.code, running, act),
    {
        match self.focus {
            Focus::SEARCH => {
                if let Some(MenuScreen::SEARCH(popup)) = &mut self.menu_screen {
                    popup.handle_event(&Event::Key(key), running);
                }
                Action::Nothing
            },
            Focus::FILES => Action::Nothing,
            Focus::SHELL => {
                self.input.handle_event(&Event::Key(key));
                Action::Nothing
            },
            Focus::EDITOR(_) => self.key_to_editor(),
        }
    }
}


/// The mouse event can be handled without the layout arithmetic wrapping:
/// the editor area, which every event is tested against, lies in the
/// coordinate space, and so does each other area where the event is
/// tested against it; a drag or a click on a divider band stays within
/// `u16`.
pub open spec fn mouse_defined(
    o: App,
    m: MouseEvent,
    frame: Rect,
    editor: Rect,
    shell: Rect,
    file: Rect,
    popup: Option<(MenuScreenType, Rect)>,
) -> bool {
    let (x, y) = (m.column as int, m.row as int);
    &&& editor.fits()
    &&& match m.kind {
        MouseEventKind::Drag(_) => match o.last_drag {
            Some(DragKind::VERTICAL) => frame.height > 0 && m.row * 100 <= u16::MAX,
            Some(DragKind::HORIZONTAL) => frame.width > 0 && m.column * 100 <= u16::MAX,
            None => true,
        },
        MouseEventKind::Down(MouseButton::Left) => {
            &&& frame.fits()
            &&& horizontal_hitbox_defined(o.split, frame)
            &&& !horizontal_hitbox(o.split, frame).strictly_contains(x, y) ==> {
                &&& vertical_hitbox_defined(o.split, frame)
                &&& !vertical_hitbox(o.split, frame).strictly_contains(x, y) ==> left_click_defined(
                    o,
                    x,
                    y,
                    editor,
                    shell,
                    file,
                    popup,
                )
            }
        },
        MouseEventKind::Down(MouseButton::Right) => file.fits(),
        MouseEventKind::ScrollDown | MouseEventKind::ScrollUp => shell.fits(),
        _ => true,
    }
}

/// A left click below the divider bands: it focuses the popup it lands in,
/// or else closes the popup and focuses the editor, the shell or the files
/// (highlighting the entry clicked, and opening it if it is a file).
pub open spec fn left_click_result(
    o: App,
    f: App,
    x: int,
    y: int,
    editor: Rect,
    shell: Rect,
    file: Rect,
    popup: Option<(MenuScreenType, Rect)>,
    act: Action,
) -> bool {
    let hit = match popup {
        Some((_, r)) => r.strictly_contains(x, y),
        None => false,
    };
    let kind = match popup {
        Some((k, _)) => k,
        None => MenuScreenType::EDITOR,
    };
    if hit {
        &&& act is Nothing
        &&& f == (App {
            focus: if kind == MenuScreenType::EDITOR {
                Focus::EDITOR(EditorFocus::MENU)
            } else {
                Focus::SEARCH
            },
            ..o
        })
    } else {
        let o2 = if popup is Some { App { menu_screen: None, ..o } } else { o };
        if editor.strictly_contains(x, y) && o.selected_editor is Some {
            f == (App { preview_pane: None, focus: Focus::EDITOR(EditorFocus::MAIN), ..o2 }) && act is Nothing
        } else if shell.strictly_contains(x, y) {
            f == (App { focus: Focus::SHELL, ..o2 }) && act is Nothing
        } else if file.strictly_contains(x, y) {
            let k = y - 1;
            let es = o.file_system.entries();
            &&& f == (App { focus: Focus::FILES, file_system: f.file_system, ..o2 })
            &&& f.file_system.entries() == es
            &&& f.file_system.current_path() == o.file_system.current_path()
            &&& f.file_system.current_name() == o.file_system.current_name()
            &&& if k < es.len() {
                &&& f.file_system.selection() == Some(k as usize)
                &&& f.file_system.state().offset == o.file_system.state().offset
                &&& if es[k].is_dir {
                    act is Nothing
                } else {
                    act matches Action::Open(p) && p@ == es[k].path
                }
            } else {
                f.file_system.state() == o.file_system.state() && act is Nothing
            }
        } else {
            f == o2 && act is Nothing
        }
    }
}

/// What a mouse event does; `to_editor` tells which editor also gets the
/// event (the selected one, when the pointer is over the editor).
pub open spec fn mouse_result(
    o: App,
    f: App,
    m: MouseEvent,
    frame: Rect,
    editor: Rect,
    shell: Rect,
    file: Rect,
    popup: Option<(MenuScreenType, Rect)>,
    to_editor: Option<usize>,
    act: Action,
) -> bool {
    let (x, y) = (m.column as int, m.row as int);
    &&& to_editor == (if editor.strictly_contains(x, y) { o.selected_editor } else { None })
    &&& match m.kind {
        MouseEventKind::Drag(_) => act is Nothing && match o.last_drag {
            Some(DragKind::VERTICAL) => f == (App {
                split: Split { vertical: ((m.row * 100) / (frame.height as int)) as u16, ..o.split },
                ..o
            }),
            Some(DragKind::HORIZONTAL) => f == (App {
                split: Split { horizontal: ((m.column * 100) / (frame.width as int)) as u16, ..o.split },
                ..o
            }),
            None => f == o,
        },
        MouseEventKind::Up(_) => act is Nothing && f == (App { last_drag: None, ..o }),
        MouseEventKind::Down(MouseButton::Left) => if horizontal_hitbox(o.split, frame).strictly_contains(x, y) {
            f == (App { last_drag: Some(DragKind::HORIZONTAL), ..o }) && act is Nothing
        } else if vertical_hitbox(o.split, frame).strictly_contains(x, y) {
            f == (App { last_drag: Some(DragKind::VERTICAL), ..o }) && act is Nothing
        } else {
            left_click_result(o, f, x, y, editor, shell, file, popup, act)
        },
        MouseEventKind::Down(MouseButton::Right) => {
            let k = y - 1;
            let es = o.file_system.entries();
            &&& f == o
            &&& if file.strictly_contains(x, y) && k < es.len() && es[k].is_dir {
                act matches Action::ChangeDir(p) && p@ == es[k].path
            } else {
                act is Nothing
            }
        },
        MouseEventKind::ScrollRight => act is Nothing && f == (App {
            selected_editor: next_editor(o.selected_editor, o.editor_panes@.len() as int),
            ..o
        }),
        MouseEventKind::ScrollLeft => act is Nothing && f == (App {
            selected_editor: previous_editor(o.selected_editor, o.editor_panes@.len() as int),
            ..o
        }),
        MouseEventKind::ScrollDown => act is Nothing && if shell.strictly_contains(x, y) && o.output_pos > 0 {
            f == (App { output_pos: (o.output_pos - 1) as u16, ..o })
        } else {
            f == o
        },
        MouseEventKind::ScrollUp => act is Nothing && if shell.strictly_contains(x, y) && o.output_pos + 1 < (
        o.output@.len() as u16) {
            f == (App { output_pos: (o.output_pos + 1) as u16, ..o })
        } else {
            f == o
        },
        _ => act is Nothing && f == o,
    }
}

/// The entry of the file list on row `y` of the screen.
const OFFSET_TO_FIRST_ENTRY: u16 = 1;

impl App {
    /// Handles a mouse event over the areas drawn in the last frame.
    pub fn handle_mouse_event(
        &mut self,
        mouse_event: MouseEvent,
        frame_area: &Rect,
        editor_area: &Rect,
        shell_area: &Rect,
        file_area: &Rect,
        popup_area: Option<(MenuScreenType, Rect)>,
    ) -> (r: (Option<usize>, Action))
        requires
            old(self).wf(),
            mouse_defined(*old(self), mouse_event, *frame_area, *editor_area, *shell_area, *file_area, popup_area),
        ensures
            final(self).wf(),
            mouse_result(
                *old(self),
                *final(self),
                mouse_event,
                *frame_area,
                *editor_area,
                *shell_area,
                *file_area,
                popup_area,
                r.0,
                r.1,
            ),
    {
        let x = mouse_event.column;
        let y = mouse_event.row;
        let to_editor = if is_in_hitbox((x, y), editor_area) {
            self.selected_editor
        } else {
            None
        };
        let act = match mouse_event.kind {
            MouseEventKind::Drag(_) => {
                match self.last_drag {
                    Some(DragKind::VERTICAL) => {
                        self.split.set_vertical_percentage((x, y), frame_area);
                    },
                    Some(DragKind::HORIZONTAL) => {
                        self.split.set_horizontal_percentage((x, y), frame_area);
                    },
                    None => {},
                }
                Action::Nothing
            },
            MouseEventKind::Up(_) => {
                self.last_drag = None;
                Action::Nothing
            },
            MouseEventKind::Down(MouseButton::Left) => {
                if is_in_hitbox((x, y), &self.split.get_horizontal_hitbox(frame_area)) {
                    self.last_drag = Some(DragKind::HORIZONTAL);
                    Action::Nothing
                } else if is_in_hitbox((x, y), &self.split.get_vertical_split_hitbox(frame_area)) {
                    self.last_drag = Some(DragKind::VERTICAL);
                    Action::Nothing
                } else {
                    self.left_click(x, y, editor_area, shell_area, file_area, popup_area)
                }
            },
            MouseEventKind::Down(MouseButton::Right) => {
                if is_in_hitbox((x, y), file_area) {
                    let k = (y - OFFSET_TO_FIRST_ENTRY) as usize;
                    match self.file_system.get_dir_at_index(k) {
                        Some(dir) => Action::ChangeDir(dir),
                        None => Action::Nothing,
                    }
                } else {
                    Action::Nothing
                }
            },
            MouseEventKind::ScrollRight => {
                let n = self.editor_panes.len();
                if let Some(index) = self.selected_editor {
                    if index == n - 1 {
                        self.selected_editor = Some(0);
                    } else {
                        self.selected_editor = Some(index + 1);
                    }
                }
                Action::Nothing
            },
            MouseEventKind::ScrollLeft => {
                let n = self.editor_panes.len();
                if let Some(index) = self.selected_editor {
                    if index == 0 {
                        self.selected_editor = Some(n.saturating_sub(1));
                    } else {
                        self.selected_editor = Some(index.saturating_sub(1));
                    }
                }
                Action::Nothing
            },
            MouseEventKind::ScrollDown => {
                if is_in_hitbox((x, y), shell_area) && (self.output_pos > 0) {
                    self.output_pos = self.output_pos - 1;
                }
                Action::Nothing
            },
            MouseEventKind::ScrollUp => {
                if is_in_hitbox((x, y), shell_area) && ((self.output_pos + 1) < (self.output.len() as u16)) {
                    self.output_pos = self.output_pos + 1;
                }
                Action::Nothing
            },
            _ => Action::Nothing,
        };
        (to_editor, act)
    }

    fn left_click(
        &mut self,
        x: u16,
        y: u16,
        editor_area: &Rect,
        shell_area: &Rect,
        file_area: &Rect,
        popup_area: Option<(MenuScreenType, Rect)>,
    ) -> (act: Action)
        requires
            old(self).wf(),
            editor_area.fits(),
            left_click_defined(*old(self), x as int, y as int, *editor_area, *shell_area, *file_area, popup_area),
        ensures
            final(self).wf(),
            left_click_result(*old(self), *final(self), x as int, y as int, *editor_area, *shell_area, *file_area, popup_area, act),
    {
        if let Some((menu_screen, area)) = popup_area {
            if is_in_hitbox((x, y), &area) {
                match menu_screen {
                    MenuScreenType::EDITOR => {
                        self.focus = Focus::EDITOR(EditorFocus::MENU);
                    },
                    MenuScreenType::SEARCH => {
                        self.focus = Focus::SEARCH;
                    },
                }
                return Action::Nothing;
            } else {
                self.menu_screen = None;
            }
        }
        if is_in_hitbox((x, y), editor_area) && self.selected_editor.is_some() {
            self.preview_pane = None;
            self.focus = Focus::EDITOR(EditorFocus::MAIN);
            Action::Nothing
        } else if is_in_hitbox((x, y), shell_area) {
            self.focus = Focus::SHELL;
            Action::Nothing
        } else if is_in_hitbox((x, y), file_area) {
            self.focus = Focus::FILES;
            let k = (y - OFFSET_TO_FIRST_ENTRY) as usize;
            match self.file_system.select_entry(k) {
                Some(file) => Action::Open(file),
                None => Action::Nothing,
            }
        } else {
            Action::Nothing
        }
    }
}


/// A divider position given to a command: the number, at most 100, or 50
/// where it is not one.
pub open spec fn percent_arg(a: Seq<char>) -> u16 {
    match parsed_u16(a) {
        Some(x) => if x > 100 { 100 } else { x },
        None => 50,
    }
}

/// The commands the shell line runs itself can run: an `export` needs its
/// argument to hold exactly one `=`.
pub open spec fn execute_defined(command: Seq<char>) -> bool {
    let argv = words(command);
    argv.len() > 1 && argv[0] == "export"@ ==> one_equals_sign(argv[1])
}

/// What an entered command does: `set-vertical` and `set-horizontal` move
/// a divider, `clear` empties the output, `cd` moves to a directory,
/// `export` sets a variable, and anything else runs in the shell.
pub open spec fn execute_result(o: App, f: App, command: Seq<char>, act: Action) -> bool {
    let argv = words(command);
    if argv.len() == 0 {
        f == o && act is Nothing
    } else if argv[0] == "set-vertical"@ {
        act is Nothing && if argv.len() > 1 {
            f == (App { split: Split { vertical: percent_arg(argv[1]), ..o.split }, ..o })
        } else {
            f == o
        }
    } else if argv[0] == "set-horizontal"@ {
        act is Nothing && if argv.len() > 1 {
            f == (App { split: Split { horizontal: percent_arg(argv[1]), ..o.split }, ..o })
        } else {
            f == o
        }
    } else if argv[0] == "clear"@ {
        act is Nothing && f.output@.len() == 0 && f == (App { output: f.output, ..o })
    } else if argv[0] == "cd"@ {
        f == o && if argv.len() > 1 {
            act matches Action::ChangeDirIfDir(p) && p@ == joined_path(
                o.shell.cwd_view(),
                vstd::utf8::encode_utf8(argv[1]),
            )
        } else {
            act is Nothing
        }
    } else if argv[0] == "export"@ {
        act is Nothing && if argv.len() > 1 {
            exists|name: Seq<char>, value: Seq<char>|
                {
                    &&& #[trigger] (name + seq!['='] + value) == argv[1]
                    &&& crate::text::no_equals_sign(name)
                    &&& crate::text::no_equals_sign(value)
                    &&& f.shell.env() == env_set(o.shell.env(), name, value)
                    &&& f.shell.cwd_view() == o.shell.cwd_view()
                    &&& f == (App { shell: f.shell, ..o })
                }
        } else {
            f == o
        }
    } else {
        f == o && (act matches Action::Run(v) && v@.map_values(|s: String| s@) == shell_argv(argv))
    }
}

/// A parsed divider position, clamped to 100, or 50 if there is none.
fn clamp_percent(x: Option<u16>) -> (r: u16)
    ensures
        r == (match x {
            Some(x) => if x > 100 { 100 } else { x },
            None => 50,
        }),
{
    let x = match x {
        Some(x) => x,
        None => 50,
    };
    if x > 100 {
        100
    } else {
        x
    }
}

impl App {
    /// A fresh application state in the directory `cwd`: focus on the files,
    /// nothing open, default dividers.
    pub fn new(cwd: Vec<u8>) -> (r: App)
        ensures
            r.wf(),
            r.input@ == Input::new_view(),
            r.file_system.entries().len() == 0,
            r.file_system.selection() is None,
            r.shell.cwd_view() == cwd@,
            r.shell.env().len() == 0,
            !r.exit,
            r.output@.len() == 0,
            r.output_pos == 0,
            r.focus == Focus::FILES,
            r.preview_pane is None,
            r.editor_panes@.len() == 0,
            r.selected_editor is None,
            r.menu_screen is None,
            r.split == (Split { horizontal: 20, vertical: 80 }),
            r.last_drag is None,
    {
        App {
            input: Input::new(),
            file_system: FileTree::new(),
            shell: Shell::new(cwd),
            exit: false,
            output: Vec::new(),
            output_pos: 0,
            focus: Focus::FILES,
            preview_pane: None,
            editor_panes: Vec::new(),
            selected_editor: None,
            menu_screen: None,
            split: Split::default(),
            last_drag: None,
        }
    }

    /// Runs an entered command (see `execute_result`).
    pub fn execute(&mut self, command: &str) -> (act: Action)
        requires
            old(self).wf(),
            execute_defined(command@),
        ensures
            final(self).wf(),
            execute_result(*old(self), *final(self), command@, act),
    {
        let argv = split_whitespace(command);
        let ghost ws = words(command@);
        assert(argv@.map_values(|w: String| w@) == ws);
        if argv.len() == 0 {
            return Action::Nothing;
        }
        assert(argv[0]@ == ws[0]);
        let cmd = argv[0].as_str();
        if same_text(cmd, "set-vertical") {
            if argv.len() > 1 {
                assert(argv[1]@ == ws[1]);
                self.split.vertical = clamp_percent(parse_u16(argv[1].as_str()));
            }
            Action::Nothing
        } else if same_text(cmd, "set-horizontal") {
            if argv.len() > 1 {
                assert(argv[1]@ == ws[1]);
                self.split.horizontal = clamp_percent(parse_u16(argv[1].as_str()));
            }
            Action::Nothing
        } else if same_text(cmd, "clear") {
            self.output.clear();
            Action::Nothing
        } else if same_text(cmd, "cd") {
            if argv.len() > 1 {
                assert(argv[1]@ == ws[1]);
                let target = join_path(self.shell.cwd().as_slice(), argv[1].as_str().as_bytes());
                Action::ChangeDirIfDir(target)
            } else {
                Action::Nothing
            }
        } else if same_text(cmd, "export") {
            if argv.len() > 1 {
                assert(argv[1]@ == ws[1]);
                let (variable, value) = split_at_equals(argv[1].as_str());
                self.shell.set_env(variable.as_str(), value.as_str());
                assert((variable@ + seq!['='] + value@) == ws[1]);
            }
            Action::Nothing
        } else {
            let v = command_argv(argv.as_slice());
            Action::Run(v)
        }
    }
}


/// The bit-reversed "Jones" polynomial of CRC-64 (0xad93d23594c935a9).
pub open spec fn jones_reflected() -> u64 {
    0x95ac9329ac4bc9b5
}

/// The CRC register after `k` bits are shifted out of `crc`, lowest bit
/// first: each shift adds the polynomial when a one falls out.
pub open spec fn crc64_shifts(crc: u64, k: nat) -> u64
    decreases k,
{
    if k == 0 {
        crc
    } else {
        let c = crc64_shifts(crc, (k - 1) as nat);
        if c & 1 == 1 {
            (c >> 1u64) ^ jones_reflected()
        } else {
            c >> 1u64
        }
    }
}

/// The reflected CRC-64 with the "Jones" polynomial (as Redis uses) of
/// `data`, continuing from `crc`: each byte goes into the low bits of the
/// register, then eight bits are shifted out.
pub open spec fn crc64_jones(crc: u64, data: Seq<u8>) -> u64
    decreases data.len(),
{
    if data.len() == 0 {
        crc
    } else {
        crc64_shifts(crc64_jones(crc, data.drop_last()) ^ (data.last() as u64), 8)
    }
}

/// `crc64::crc64`: the checksum of `data` continuing from `crc`. The crate
/// computes it with tables, eight bytes at a time and then byte by byte;
/// stated here is the bitwise recurrence those tables encode.
#[verifier::external_body]
fn crc64(crc: u64, data: &[u8]) -> (r: u64)
    ensures
        r == crc64_jones(crc, data@),
{
    crc64::crc64(crc, data)
}

/// The checksum by which the application tells whether a text changed.
pub open spec fn text_hash(content: Seq<char>) -> u64 {
    crc64_jones(0, vstd::utf8::encode_utf8(content))
}

pub fn content_hash(content: &str) -> (r: u64)
    ensures
        r == text_hash(content@),
{
    crc64(0, content.as_bytes())
}

/// The title of an editor tab: the file name, with a `*` when the text
/// differs (by checksum) from the text last saved.
pub fn tab_title(file_name: &str, content: &str, saved_hash: u64) -> (r: String)
    ensures
        r@ == if text_hash(content@) != saved_hash { file_name@ + "*"@ } else { file_name@ },
{
    let hash = content_hash(content);
    let mut title = String::from_str(file_name);
    if hash != saved_hash {
        title.append("*");
    }
    title
}

/// The parse of a file by extension: the language of the editor.
pub open spec fn language_of(extension: Seq<char>) -> Seq<char> {
    if extension == ""@ {
        ""@
    } else if extension == "c"@ {
        "c"@
    } else if extension == "h"@ {
        "cpp"@
    } else if extension == "cpp"@ {
        "cpp"@
    } else if extension == "rs"@ {
        "rust"@
    } else if extension == "md"@ {
        "markdown"@
    } else {
        "shell"@
    }
}

/// The language to highlight a file with, by its extension.
pub fn language_for(extension: &str) -> (r: String)
    ensures
        r@ == language_of(extension@),
{
    if same_text(extension, "") {
        String::from_str("")
    } else if same_text(extension, "c") {
        String::from_str("c")
    } else if same_text(extension, "h") {
        String::from_str("cpp")
    } else if same_text(extension, "cpp") {
        String::from_str("cpp")
    } else if same_text(extension, "rs") {
        String::from_str("rust")
    } else if same_text(extension, "md") {
        String::from_str("markdown")
    } else {
        String::from_str("shell")
    }
}

/// Whether two byte strings are equal.
pub fn same_bytes(a: &[u8], b: &[u8]) -> (r: bool)
    ensures
        r == (a@ == b@),
{
    if a.len() != b.len() {
        return false;
    }
    let mut i: usize = 0;
    while i < a.len()
        invariant
            a@.len() == b@.len(),
            i <= a@.len(),
            forall|j: int| 0 <= j < i ==> a@[j] == b@[j],
        decreases a@.len() - i,
    {
        if a[i] != b[i] {
            return false;
        }
        i = i + 1;
    }
    assert(a@ =~= b@);
    true
}

impl App {
    /// The open editors are in order: the selection names one of them,
    /// there is a selection whenever one is open, and no two are of the
    /// same file.
    pub open spec fn editors_valid(&self) -> bool {
        &&& (self.selected_editor matches Some(i) ==> i < self.editor_panes@.len())
        &&& (self.selected_editor is None ==> self.editor_panes@.len() == 0)
        &&& forall|j: int, k: int|
            0 <= j < k < self.editor_panes@.len() ==> #[trigger] self.editor_panes@[j].path@
                != #[trigger] self.editor_panes@[k].path@
    }
}

/// The index of the first open editor whose path is `path`.
pub open spec fn pane_index(panes: Seq<EditorPane>, path: Seq<u8>) -> Option<int> {
    if exists|k: int| 0 <= k < panes.len() && panes[k].path@ == path {
        Some(choose|k: int| 0 <= k < panes.len() && panes[k].path@ == path && forall|j: int| 0 <= j < k ==> panes[j].path@ != path)
    } else {
        None
    }
}

impl App {
    /// Moves to the directory `target` (named `name`), whose entries are
    /// `children`: the shell works there and the files show it.
    pub fn change_dir(&mut self, target: Vec<u8>, name: String, children: Vec<WalkEntry>)
        requires
            old(self).wf(),
            depths_fit(children@, 0),
        ensures
            final(self).wf(),
            final(self).shell.cwd_view() == target@,
            final(self).shell.env() == old(self).shell.env(),
            final(self).file_system.entries() == crate::file_system::insert_walked(
                seq![crate::file_system::parent_view()],
                1,
                0,
                children@,
            ),
            final(self).file_system.selection() == Some(0usize),
            final(self).file_system.current_path() == target@,
            final(self).file_system.current_name() == name@,
            *final(self) == (App { shell: final(self).shell, file_system: final(self).file_system, ..*old(self) }),
    {
        self.shell.set_cwd(copy_bytes(&target));
        self.file_system.change_dir(target, name, children);
    }

    /// Enter in the files, once what it needs is read: toggles the
    /// highlighted entry (see `toggled_tree`; `parent` is the parent
    /// directory as read when the parent entry is highlighted, `children`
    /// what the directory to expand holds). Moving to the parent moves the
    /// shell too. A file is handed back to be opened, the preview closes
    /// and the editor gets the keys.
    pub fn toggle_dir(&mut self, parent: Option<DirRead>, children: Vec<WalkEntry>) -> (act: Action)
        requires
            old(self).wf(),
            toggle_defined(old(self).file_system, parent, children@),
        ensures
            final(self).wf(),
            toggled_tree(old(self).file_system, final(self).file_system, parent, children@),
            final(self).shell.cwd_view() == if old(self).file_system.selection() == Some(0usize) {
                (parent->0).0@
            } else {
                old(self).shell.cwd_view()
            },
            final(self).shell.env() == old(self).shell.env(),
            old(self).file_system.selection() != Some(0usize) ==> final(self).shell == old(self).shell,
            match toggled_file(old(self).file_system, parent) {
                Some(file) => {
                    &&& act matches Action::Open(p) && p@ == file
                    &&& *final(self) == (App {
                        file_system: final(self).file_system,
                        shell: final(self).shell,
                        preview_pane: None,
                        focus: Focus::EDITOR(EditorFocus::MAIN),
                        ..*old(self)
                    })
                },
                None => {
                    &&& act is Nothing
                    &&& *final(self) == (App { file_system: final(self).file_system, shell: final(self).shell, ..*old(self) })
                },
            },
    {
        if let TogglePlan::Parent = self.file_system.toggle_plan() {
            if let Some(p) = &parent {
                self.shell.set_cwd(copy_bytes(&p.0));
            }
        }
        match self.file_system.toggle(parent, children) {
            Some(file) => {
                self.preview_pane = None;
                self.focus = Focus::EDITOR(EditorFocus::MAIN);
                Action::Open(file)
            },
            None => Action::Nothing,
        }
    }

    /// Selects the open editor of `path`, if there is one, closing the preview.
    pub fn open_existing(&mut self, path: &[u8]) -> (found: bool)
        requires
            old(self).wf(),
        ensures
            final(self).wf(),
            found == pane_index(old(self).editor_panes@, path@) is Some,
            found ==> *final(self) == (App {
                preview_pane: None,
                selected_editor: Some(pane_index(old(self).editor_panes@, path@)->0 as usize),
                ..*old(self)
            }),
            !found ==> *final(self) == *old(self),
            old(self).editors_valid() ==> final(self).editors_valid(),
    {
        let mut k: usize = 0;
        while k < self.editor_panes.len()
            invariant
                *self == *old(self),
                old(self).wf(),
                k <= self.editor_panes@.len(),
                forall|j: int| 0 <= j < k ==> self.editor_panes@[j].path@ != path@,
            decreases self.editor_panes@.len() - k,
        {
            if same_bytes(self.editor_panes[k].path.as_slice(), path) {
                proof {
                    let w = choose|w: int| 0 <= w < self.editor_panes@.len() && self.editor_panes@[w].path@ == path@ && forall|j: int| 0 <= j < w ==> self.editor_panes@[j].path@ != path@;
                    assert(w == k);
                }
                self.preview_pane = None;
                self.selected_editor = Some(k);
                return true;
            }
            k = k + 1;
        }
        false
    }

    /// Adds an editor for the file at `path`, whose text has checksum
    /// `hash`, and selects it; the preview closes.
    pub fn push_editor(&mut self, path: Vec<u8>, hash: u64)
        requires
            old(self).wf(),
        ensures
            final(self).wf(),
            final(self).editor_panes@.len() == old(self).editor_panes@.len() + 1,
            final(self).editor_panes@.drop_last() == old(self).editor_panes@,
            final(self).editor_panes@.last().path@ == path@,
            final(self).editor_panes@.last().hash == hash,
            *final(self) == (App {
                preview_pane: None,
                editor_panes: final(self).editor_panes,
                selected_editor: Some(old(self).editor_panes@.len() as usize),
                ..*old(self)
            }),
            old(self).editors_valid() && pane_index(old(self).editor_panes@, path@) is None
                ==> final(self).editors_valid(),
    {
        self.preview_pane = None;
        self.editor_panes.push(EditorPane { path, hash });
        self.selected_editor = Some(self.editor_panes.len() - 1);
        assert(self.editor_panes@.drop_last() =~= old(self).editor_panes@);
    }

    /// Shows the file at `path`, whose text has checksum `hash`, in the preview.
    pub fn set_preview(&mut self, path: Vec<u8>, hash: u64)
        requires
            old(self).wf(),
        ensures
            final(self).wf(),
            final(self).preview_pane matches Some(p) && p.path@ == path@ && p.hash == hash,
            *final(self) == (App { preview_pane: final(self).preview_pane, ..*old(self) }),
    {
        self.preview_pane = Some(EditorPane { path, hash });
    }

    /// Records that the editor at `index` was saved with text `content`.
    pub fn saved(&mut self, index: usize, content: &str)
        requires
            old(self).wf(),
            index < old(self).editor_panes@.len(),
        ensures
            final(self).wf(),
            final(self).editor_panes@.len() == old(self).editor_panes@.len(),
            forall|j: int| 0 <= j < old(self).editor_panes@.len() && j != index ==> final(self).editor_panes@[j] == old(self).editor_panes@[j],
            final(self).editor_panes@[index as int].path == old(self).editor_panes@[index as int].path,
            final(self).editor_panes@[index as int].hash == text_hash(content@),
            *final(self) == (App { editor_panes: final(self).editor_panes, ..*old(self) }),
    {
        let hash = content_hash(content);
        let pane = self.editor_panes.remove(index);
        self.editor_panes.insert(index, EditorPane { path: pane.path, hash });
    }

    /// Adds what the shell printed to the output, line by line.
    pub fn append_output(&mut self, bytes: &[u8])
        requires
            old(self).wf(),
        ensures
            final(self).wf(),
            final(self).output@.map_values(|l: String| l@) == old(self).output@.map_values(|l: String| l@)
                + crate::text::text_lines(crate::search::lossy_utf8(bytes@)),
            *final(self) == (App { output: final(self).output, ..*old(self) }),
    {
        let text = crate::search::decode_lossy(bytes);
        let mut lines = crate::text::lines(text.as_str());
        let ghost added = lines@;
        let ghost before = self.output@;
        self.output.append(&mut lines);
        assert(self.output@.map_values(|l: String| l@) =~= before.map_values(|l: String| l@) + added.map_values(|l: String| l@));
    }

    /// After going to a search result (a directory when `is_dir`, else a
    /// file and line): the files or the editor get the keys and the search
    /// closes; the selected editor, if any, is to be moved down to the line
    /// (the first line when none is given) and refreshed.
    pub fn finish_search_selection(&mut self, is_dir: bool, line: Option<u64>) -> (r: Option<(usize, u64)>)
        requires
            old(self).wf(),
            old(self).selected_editor is Some ==> !is_dir && line != Some(0u64),
        ensures
            final(self).wf(),
            ({
                let o = if is_dir { *old(self) } else { App { preview_pane: None, ..*old(self) } };
                let new_focus = if is_dir { Focus::FILES } else { Focus::EDITOR(EditorFocus::MAIN) };
                if o.focus != new_focus {
                    &&& *final(self) == (App { focus: new_focus, menu_screen: None, ..o })
                    &&& r == match o.selected_editor {
                        Some(i) => Some((i, ((match line { Some(n) => n, None => 1u64 }) - 1) as u64)),
                        None => None::<(usize, u64)>,
                    }
                } else {
                    *final(self) == o && r is None
                }
            }),
    {
        let mut line_num: u64 = 0;
        let new_focus = if is_dir {
            Focus::FILES
        } else {
            line_num = match line {
                Some(n) => n,
                None => 1,
            };
            self.preview_pane = None;
            Focus::EDITOR(EditorFocus::MAIN)
        };
        if self.focus != new_focus {
            self.focus = new_focus;
            self.menu_screen = None;
            match self.selected_editor {
                Some(index) => Some((index, line_num - 1)),
                None => None,
            }
        } else {
            None
        }
    }

    /// Handles one input event: key presses and mouse events; anything
    /// else (and key releases) is ignored. Also returns the editor that
    /// gets a mouse event.
    pub fn handle_event(
        &mut self,
        event: Event,
        running: bool,
        frame_area: &Rect,
        editor_area: &Rect,
        shell_area: &Rect,
        file_area: &Rect,
        popup_area: Option<(MenuScreenType, Rect)>,
    ) -> (r: (Option<usize>, Action))
        requires
            old(self).wf(),
            event matches Event::Key(k) ==> (k.press ==> key_defined(*old(self), k, running)),
            event matches Event::Mouse(m) ==> mouse_defined(*old(self), m, *frame_area, *editor_area, *shell_area, *file_area, popup_area),
        ensures
            final(self).wf(),
            match event {
                Event::Key(k) => if k.press {
                    r.0 is None && key_result(*old(self), *final(self), k, running, r.1)
                } else {
                    *final(self) == *old(self) && r.0 is None && r.1 is Nothing
                },
                Event::Mouse(m) => mouse_result(*old(self), *final(self), m, *frame_area, *editor_area, *shell_area, *file_area, popup_area, r.0, r.1),
                Event::Other => *final(self) == *old(self) && r.0 is None && r.1 is Nothing,
            },
    {
        match event {
            Event::Key(key) => {
                if key.press {
                    (None, self.handle_key_event(key, running))
                } else {
                    (None, Action::Nothing)
                }
            },
            Event::Mouse(mouse) => self.handle_mouse_event(mouse, frame_area, editor_area, shell_area, file_area, popup_area),
            Event::Other => (None, Action::Nothing),
        }
    }
}


impl App {
    /// Whether a key press can be handled in this state (see `key_defined`).
    pub fn accepts_key(&self, key: KeyEvent, running: bool) -> (r: bool)
        requires
            self.wf(),
        ensures
            r == key_defined(*self, key, running),
    {
        match key.code {
            KeyCode::Esc | KeyCode::Left | KeyCode::Right | KeyCode::BackTab => true,
            KeyCode::Char(c) if c == '?' => true,
            KeyCode::Down | KeyCode::Up => match self.focus {
                Focus::SEARCH => match &self.menu_screen {
                    Some(MenuScreen::SEARCH(m)) => m.can_traverse(),
                    _ => true,
                },
                Focus::FILES => self.file_system.iter().len() > 0,
                Focus::SHELL => self.input.accepts(key.code),
                Focus::EDITOR(EditorFocus::MAIN) => true,
                Focus::EDITOR(EditorFocus::MENU) => match &self.menu_screen {
                    Some(MenuScreen::EDITOR(p)) => p.selected_index().is_none() || p.get_list_items().len() > 0,
                    _ => true,
                },
            },
            KeyCode::Tab if self.focus == Focus::FILES => true,
            KeyCode::Tab if self.focus == Focus::SEARCH => match &self.menu_screen {
                Some(MenuScreen::SEARCH(m)) => m.selection_valid(),
                _ => true,
            },
            KeyCode::Enter | KeyCode::Modifier => self.focus != Focus::SHELL || self.input.accepts(key.code),
            _ => match self.focus {
                Focus::SEARCH => running || match &self.menu_screen {
                    Some(MenuScreen::SEARCH(m)) => m.accepts(key.code),
                    _ => true,
                },
                Focus::SHELL => self.input.accepts(key.code),
                _ => true,
            },
        }
    }

    /// Whether a mouse event can be handled over these areas (see
    /// `mouse_defined`).
    pub fn accepts_mouse(
        &self,
        mouse_event: MouseEvent,
        frame_area: &Rect,
        editor_area: &Rect,
        shell_area: &Rect,
        file_area: &Rect,
        popup_area: Option<(MenuScreenType, Rect)>,
    ) -> (r: bool)
        ensures
            r == mouse_defined(*self, mouse_event, *frame_area, *editor_area, *shell_area, *file_area, popup_area),
    {
        if !editor_area.within_grid() {
            return false;
        }
        let x = mouse_event.column;
        let y = mouse_event.row;
        match mouse_event.kind {
            MouseEventKind::Drag(_) => match self.last_drag {
                Some(DragKind::VERTICAL) => frame_area.height > 0 && (y as u32) * 100 <= 65535,
                Some(DragKind::HORIZONTAL) => frame_area.width > 0 && (x as u32) * 100 <= 65535,
                None => true,
            },
            MouseEventKind::Down(MouseButton::Left) => {
                if !frame_area.within_grid() || !self.split.horizontal_hitbox_computable(frame_area) {
                    return false;
                }
                if is_in_hitbox((x, y), &self.split.get_horizontal_hitbox(frame_area)) {
                    return true;
                }
                if !self.split.vertical_hitbox_computable(frame_area) {
                    return false;
                }
                if is_in_hitbox((x, y), &self.split.get_vertical_split_hitbox(frame_area)) {
                    return true;
                }
                let in_popup = match popup_area {
                    Some(p) => {
                        if !p.1.within_grid() {
                            return false;
                        }
                        is_in_hitbox((x, y), &p.1)
                    },
                    None => false,
                };
                if in_popup || (is_in_hitbox((x, y), editor_area) && self.selected_editor.is_some()) {
                    return true;
                }
                shell_area.within_grid() && (is_in_hitbox((x, y), shell_area) || file_area.within_grid())
            },
            MouseEventKind::Down(MouseButton::Right) => file_area.within_grid(),
            MouseEventKind::ScrollDown | MouseEventKind::ScrollUp => shell_area.within_grid(),
            _ => true,
        }
    }
}

/// Whether an entered command can be run (see `execute_defined`).
pub fn accepts_command(command: &str) -> (r: bool)
    ensures
        r == execute_defined(command@),
{
    let argv = split_whitespace(command);
    let ghost ws = words(command@);
    assert(argv@.map_values(|w: String| w@) == ws);
    if argv.len() > 1 {
        assert(argv[0]@ == ws[0] && argv[1]@ == ws[1]);
        if same_text(argv[0].as_str(), "export") {
            return has_one_equals_sign(argv[1].as_str());
        }
    }
    true
}

/// The number of characters in the last `k` components.
pub open spec fn suffix_width(comps: Seq<Seq<char>>, k: int) -> int
    decreases k,
{
    if k <= 0 || k > comps.len() {
        0
    } else {
        suffix_width(comps, k - 1) + comps[comps.len() - k].len()
    }
}

/// Counting components from the end, how many fit in `space` characters.
pub open spec fn fitting_from(comps: Seq<Seq<char>>, space: int, k: int) -> int
    decreases comps.len() - k,
{
    if k >= comps.len() {
        comps.len() as int
    } else if suffix_width(comps, k + 1) > space {
        k
    } else {
        fitting_from(comps, space, k + 1)
    }
}

/// How the title of a path is drawn in `space` characters: the path itself
/// if all its components fit, else `../` and the trailing components that
/// fit, joined by `/`.
pub open spec fn path_title(text: Seq<char>, comps: Seq<Seq<char>>, space: int) -> Seq<char> {
    let m = fitting_from(comps, space, 0);
    if m < comps.len() {
        "../"@ + crate::text::joined(comps.skip(comps.len() - m), "/"@)
    } else {
        text
    }
}

/// The character counts summed while fitting the components stay in `u16`.
pub open spec fn path_title_defined(comps: Seq<Seq<char>>, space: int) -> bool {
    forall|k: int| 0 <= k < comps.len() && suffix_width(comps, k) <= space ==> #[trigger] suffix_width(comps, k + 1) <= u16::MAX
}

proof fn lemma_fitting_from(comps: Seq<Seq<char>>, space: int, k: int)
    requires
        0 <= k <= comps.len(),
    ensures
        k <= fitting_from(comps, space, k) <= comps.len(),
    decreases comps.len() - k,
{
    if k < comps.len() && suffix_width(comps, k + 1) <= space {
        lemma_fitting_from(comps, space, k + 1);
    }
}

/// With more space, at least as many trailing components fit.
proof fn lemma_fitting_grows(comps: Seq<Seq<char>>, a1: int, a2: int, k: int)
    requires
        a1 <= a2,
        0 <= k <= comps.len(),
    ensures
        fitting_from(comps, a1, k) <= fitting_from(comps, a2, k),
    decreases comps.len() - k,
{
    if k < comps.len() {
        if suffix_width(comps, k + 1) <= a1 {
            lemma_fitting_grows(comps, a1, a2, k + 1);
        } else if suffix_width(comps, k + 1) <= a2 {
            lemma_fitting_from(comps, a2, k + 1);
        }
    }
}

/// A path's title shows more with more space: with `a2` characters at
/// least as many trailing components fit as with `a1`, and a path shown
/// whole in `a1` characters is shown whole in `a2`.
pub proof fn law_path_title_more_space(text: Seq<char>, comps: Seq<Seq<char>>, a1: int, a2: int)
    requires
        a1 <= a2,
    ensures
        fitting_from(comps, a1, 0) <= fitting_from(comps, a2, 0),
        fitting_from(comps, a1, 0) == comps.len() ==> path_title(text, comps, a2) == text,
{
    lemma_fitting_grows(comps, a1, a2, 0);
    lemma_fitting_from(comps, a2, 0);
}

/// The title shortened to the last `m` components: `../` and those
/// components joined by `/`.
pub open spec fn shortened_title(comps: Seq<Seq<char>>, m: int) -> Seq<char> {
    "../"@ + crate::text::joined(comps.skip(comps.len() - m), "/"@)
}

/// A title that shows the whole path text keeps showing it with more
/// space, for a path text that is not itself one of the shortened titles
/// of its components (`../` and some trailing components joined by `/`).
pub proof fn law_whole_title_stays_whole(text: Seq<char>, comps: Seq<Seq<char>>, a1: int, a2: int)
    requires
        a1 <= a2,
        path_title(text, comps, a1) == text,
        forall|m: int| 0 <= m < comps.len() ==> text != #[trigger] shortened_title(comps, m),
    ensures
        path_title(text, comps, a2) == text,
{
    let m1 = fitting_from(comps, a1, 0);
    lemma_fitting_from(comps, a1, 0);
    lemma_fitting_from(comps, a2, 0);
    lemma_fitting_grows(comps, a1, a2, 0);
    if m1 < comps.len() {
        assert(path_title(text, comps, a1) == shortened_title(comps, m1));
    }
}

/// Counting more trailing components never counts fewer characters.
proof fn lemma_suffix_width_grows(comps: Seq<Seq<char>>, k: int, j: int)
    requires
        0 <= k <= j <= comps.len(),
    ensures
        suffix_width(comps, k) <= suffix_width(comps, j),
    decreases j - k,
{
    if k < j {
        lemma_suffix_width_grows(comps, k, j - 1);
    }
}

/// Whether the title of a path with these components can be fitted in
/// `available_space` characters (see `path_title_defined`).
pub fn path_title_fits(components: &Vec<String>, available_space: u16) -> (r: bool)
    ensures
        r == path_title_defined(components@.map_values(|c: String| c@), available_space as int),
{
    let ghost comps = components@.map_values(|c: String| c@);
    let n = components.len();
    let mut acc: u16 = 0;
    let mut k: usize = 0;
    while k < n
        invariant
            comps == components@.map_values(|c: String| c@),
            n == comps.len(),
            k <= n,
            acc == suffix_width(comps, k as int),
            forall|j: int| 0 <= j < k && suffix_width(comps, j) <= available_space ==> #[trigger] suffix_width(comps, j + 1) <= u16::MAX,
        decreases n - k,
    {
        if acc > available_space {
            proof {
                assert forall|j: int| 0 <= j < comps.len() && suffix_width(comps, j) <= available_space implies #[trigger] suffix_width(comps, j + 1) <= u16::MAX by {
                    if j >= k {
                        lemma_suffix_width_grows(comps, k as int, j);
                    }
                }
            }
            return true;
        }
        let chars = components[n - 1 - k].as_str().unicode_len();
        assert(comps[n - (k + 1)] == components@[n - 1 - k]@);
        assert(suffix_width(comps, k + 1) == acc + chars);
        if chars > (65535 - acc) as usize {
            return false;
        }
        acc = acc + (chars as u16);
        k = k + 1;
    }
    true
}

/// The title of the directory `path` (its text, and its components as
/// `Path::iter` gives them) in `available_space` characters.
pub fn get_path_to_render(path: &str, components: &Vec<String>, available_space: u16) -> (r: String)
    requires
        path_title_defined(components@.map_values(|c: String| c@), available_space as int),
    ensures
        r@ == path_title(path@, components@.map_values(|c: String| c@), available_space as int),
{
    let ghost comps = components@.map_values(|c: String| c@);
    let n = components.len();
    let mut required_space: u16 = 0;
    let mut num_elems: usize = 0;
    while num_elems < n
        invariant
            comps == components@.map_values(|c: String| c@),
            n == comps.len(),
            num_elems <= n,
            required_space == suffix_width(comps, num_elems as int),
            required_space <= available_space,
            path_title_defined(comps, available_space as int),
            fitting_from(comps, available_space as int, 0) == fitting_from(comps, available_space as int, num_elems as int),
        ensures
            num_elems == fitting_from(comps, available_space as int, 0),
        decreases n - num_elems,
    {
        let chars = components[n - 1 - num_elems].as_str().unicode_len();
        assert(comps[n - (num_elems + 1)] == components@[n - 1 - num_elems]@);
        assert(suffix_width(comps, num_elems + 1) == required_space + chars);
        if (required_space as u64) + (chars as u64) > (available_space as u64) {
            break;
        }
        required_space = required_space + (chars as u16);
        num_elems = num_elems + 1;
    }
    proof {
        lemma_fitting_from(comps, available_space as int, 0);
    }
    if num_elems < n {
        let tail = vstd::slice::slice_subrange(components.as_slice(), n - num_elems, n);
        assert(tail@.map_values(|c: String| c@) =~= comps.skip(n - num_elems));
        let mut r = String::from_str("../");
        let rest = crate::text::join(tail, "/");
        r.append(rest.as_str());
        r
    } else {
        String::from_str(path)
    }
}

/// The first line of the output that fits in a window of `height` lines
/// scrolled up by `pos` lines (the count of lines taken modulo 2^16, as
/// the drawing code does).
pub open spec fn output_start(len: nat, height: u16, pos: u16) -> int {
    crate::geometry::saturating_sub_u16((len % 65536) as int, height + pos)
}

impl App {
    /// The output lines shown in a window of `height` lines.
    pub fn visible_output(&self, height: u16) -> (r: &[String])
        requires
            height + self.output_pos <= u16::MAX,
        ensures
            r@ == self.output@.skip(output_start(self.output@.len(), height, self.output_pos)),
    {
        let len = self.output.len();
        let len16 = len as u16;
        assert((len as u16) == len % 65536) by (bit_vector);
        let start = len16.saturating_sub(height + self.output_pos) as usize;
        let r = vstd::slice::slice_subrange(self.output.as_slice(), start, len);
        assert(r@ =~= self.output@.skip(start as int));
        r
    }
}

/// The lines of help shown when no editor is open.
pub open spec fn help_entries() -> Seq<(Seq<char>, Seq<char>)> {
    seq![
        ("Tab"@, "Change directory | Load File"@),
        ("Enter"@, "Expand directory | Open File"@),
        ("Shift + Tab"@, "Cycle panes"@),
        ("Esc"@, "Exit focus"@),
        ("Up"@, "Scroll up"@),
        ("Down"@, "Scroll down"@),
        ("?"@, "Open search menu"@),
    ]
}

/// A help line: the key, padded to `width`, then ` : ` and what it does.
pub open spec fn help_line(key: Seq<char>, text: Seq<char>, width: int) -> Seq<char> {
    key + crate::file_system::spaces((width - key.len()) as nat) + " : "@ + text
}

/// The help text for the pane with the keys: one line per key binding,
/// the keys padded to the longest; there is none for an editor.
pub fn help_lines(focus: Focus) -> (r: Vec<String>)
    ensures
        focus matches Focus::EDITOR(_) ==> r@.len() == 0,
        !(focus matches Focus::EDITOR(_)) ==> r@.map_values(|l: String| l@) == help_entries().map_values(
            |e: (Seq<char>, Seq<char>)| help_line(e.0, e.1, 11),
        ),
{
    let mut r: Vec<String> = Vec::new();
    if let Focus::EDITOR(_) = focus {
        return r;
    }
    let keys = ["Tab", "Enter", "Shift + Tab", "Esc", "Up", "Down", "?"];
    let texts = [
        "Change directory | Load File",
        "Expand directory | Open File",
        "Cycle panes",
        "Exit focus",
        "Scroll up",
        "Scroll down",
        "Open search menu",
    ];
    proof {
        reveal_strlit("Tab");
        reveal_strlit("Enter");
        reveal_strlit("Shift + Tab");
        reveal_strlit("Esc");
        reveal_strlit("Up");
        reveal_strlit("Down");
        reveal_strlit("?");
    }
    let ghost entries = help_entries();
    assert(keys@.len() == 7 && texts@.len() == 7);
    assert forall|i: int| 0 <= i < 7 implies keys@[i]@ == entries[i].0 && texts@[i]@ == entries[i].1 && keys@[i]@.len() <= 11 by {}
    let mut i: usize = 0;
    while i < 7
        invariant
            i <= 7,
            keys@.len() == 7,
            texts@.len() == 7,
            entries == help_entries(),
            forall|j: int| 0 <= j < 7 ==> keys@[j]@ == entries[j].0 && texts@[j]@ == entries[j].1 && keys@[j]@.len() <= 11,
            r@.map_values(|l: String| l@) == entries.take(i as int).map_values(
                |e: (Seq<char>, Seq<char>)| help_line(e.0, e.1, 11),
            ),
        decreases 7 - i,
    {
        let key = keys[i];
        let mut line = String::from_str(key);
        let pad = 11 - key.unicode_len();
        let mut k: usize = 0;
        while k < pad
            invariant
                k <= pad,
                line@ == key@ + crate::file_system::spaces(k as nat),
            decreases pad - k,
        {
            crate::text::string_push(&mut line, ' ');
            k = k + 1;
            assert(line@ =~= key@ + crate::file_system::spaces(k as nat));
        }
        line.append(" : ");
        line.append(texts[i]);
        assert(line@ == help_line(entries[i as int].0, entries[i as int].1, 11));
        let ghost before = r@.map_values(|l: String| l@);
        r.push(line);
        assert(r@.map_values(|l: String| l@) =~= before.push(help_line(entries[i as int].0, entries[i as int].1, 11)));
        assert(entries.take(i + 1) =~= entries.take(i as int).push(entries[i as int]));
        i = i + 1;
        assert(r@.map_values(|l: String| l@) =~= entries.take(i as int).map_values(
            |e: (Seq<char>, Seq<char>)| help_line(e.0, e.1, 11),
        ));
    }
    assert(entries.take(7) =~= entries);
    r
}

/// A `width` by `height` rectangle centred in `area`.
pub open spec fn centered(area: Rect, width: u16, height: u16) -> Rect {
    Rect {
        x: (area.x + (area.width - width) / 2) as u16,
        y: (area.y + (area.height - height) / 2) as u16,
        width,
        height,
    }
}

/// The rectangle fits inside the area, so that centring it stays in range.
pub open spec fn centered_defined(area: Rect, width: u16, height: u16) -> bool {
    &&& width <= area.width
    &&& height <= area.height
    &&& area.x + (area.width - width) / 2 <= u16::MAX
    &&& area.y + (area.height - height) / 2 <= u16::MAX
}

pub fn center_rect(area: &Rect, width: u16, height: u16) -> (r: Rect)
    requires
        centered_defined(*area, width, height),
    ensures
        r == centered(*area, width, height),
{
    Rect::new(area.x + (area.width - width) / 2, area.y + (area.height - height) / 2, width, height)
}

/// The size of the editor menu: eight columns wider than its longest entry
/// and two rows taller than its entries.
pub open spec fn menu_size(items: Seq<Seq<char>>) -> (int, int) {
    (max_len(items) + 8, items.len() + 2int)
}

/// The length of the longest entry.
pub open spec fn max_len(items: Seq<Seq<char>>) -> int
    decreases items.len(),
{
    if items.len() == 0 {
        0
    } else {
        let m = max_len(items.drop_last());
        if items.last().len() > m { items.last().len() as int } else { m }
    }
}

/// Whether `width` by `height` cells can be centred in `area`.
pub fn centering_fits(area: &Rect, width: u16, height: u16) -> (r: bool)
    ensures
        r == centered_defined(*area, width, height),
{
    width <= area.width && height <= area.height && (area.x as u32) + (((area.width - width) / 2) as u32)
        <= 65535 && (area.y as u32) + (((area.height - height) / 2) as u32) <= 65535
}

/// The area of the editor menu, centred in the editor: none when the menu
/// does not fit there.
pub fn editor_menu_area(editor_area: &Rect, items: &[String]) -> (r: Option<Rect>)
    ensures
        ({
            let (w, h) = menu_size(items@.map_values(|s: String| s@));
            &&& r is Some <==> (w <= u16::MAX && h <= u16::MAX && centered_defined(*editor_area, w as u16, h as u16))
            &&& r matches Some(a) ==> a == centered(*editor_area, w as u16, h as u16)
        }),
{
    let ghost all = items@.map_values(|s: String| s@);
    proof {
        assert(all.take(0) =~= Seq::<Seq<char>>::empty());
    }
    let mut max: usize = 0;
    let mut i: usize = 0;
    while i < items.len()
        invariant
            all == items@.map_values(|s: String| s@),
            i <= items@.len(),
            max == max_len(all.take(i as int)),
        decreases items@.len() - i,
    {
        assert(all.take(i + 1).drop_last() =~= all.take(i as int));
        let n = items[i].as_str().unicode_len();
        if n > max {
            max = n;
        }
        i = i + 1;
    }
    assert(all.take(items@.len() as int) =~= all);
    if max > 65535 - 8 || items.len() > 65535 - 2 {
        return None;
    }
    let width = (max as u16) + 8;
    let height = (items.len() as u16) + 2;
    if centering_fits(editor_area, width, height) {
        Some(center_rect(editor_area, width, height))
    } else {
        None
    }
}

/// The area of the search popup: half the width and three quarters of the
/// height of the frame, centred; none when three times the height does
/// not fit in a `u16` or the centred area leaves the grid.
pub fn search_popup_area(frame_area: &Rect) -> (r: Option<Rect>)
    ensures
        r is Some <==> (3 * frame_area.height <= u16::MAX && centered_defined(
            *frame_area,
            frame_area.width / 2,
            ((3 * frame_area.height) / 4) as u16,
        )),
        r matches Some(a) ==> a == centered(*frame_area, frame_area.width / 2, ((3 * frame_area.height) / 4) as u16),
{
    if frame_area.height > 21845 {
        return None;
    }
    let width = frame_area.width / 2;
    let height = (3 * frame_area.height) / 4;
    if centering_fits(frame_area, width, height) {
        Some(center_rect(frame_area, width, height))
    } else {
        None
    }
}

/// The title of the search popup: whether it is still searching, and how
/// many results it was offered.
pub fn search_title(running: bool, n_items: usize) -> (r: String)
    ensures
        r@ == (if running { "Searching"@ } else { "Searched"@ }) + " "@ + crate::text::decimal(n_items as nat)
            + " items "@,
{
    let mut r = if running {
        String::from_str("Searching")
    } else {
        String::from_str("Searched")
    };
    r.append(" ");
    let n = crate::text::decimal_string(n_items as u64);
    r.append(n.as_str());
    r.append(" items ");
    r
}

/// The area of the whole shell, output and input line together.
pub fn shell_area(shell_output: &Rect, shell_input: &Rect) -> (r: Rect)
    requires
        shell_output.height + shell_input.height <= u16::MAX,
    ensures
        r == (Rect {
            x: shell_output.x,
            y: shell_output.y,
            width: shell_output.width,
            height: (shell_output.height + shell_input.height) as u16,
        }),
{
    Rect::new(shell_output.x, shell_output.y, shell_output.width, shell_output.height + shell_input.height)
}

} // verus!
