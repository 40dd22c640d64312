use tide::application::{
    accepts_command, center_rect, centering_fits, content_hash, editor_menu_area, get_path_to_render, help_lines,
    language_for, path_title_fits, search_popup_area, search_title, shell_area, tab_title, Action, App,
    EditorFocus, Focus, MenuScreen,
};
use tide::events::{Event, KeyCode, KeyEvent, MouseButton, MouseEvent, MouseEventKind};
use tide::file_system::WalkEntry;
use tide::geometry::{MenuScreenType, Rect};

fn key(code: KeyCode) -> KeyEvent {
    KeyEvent { code, shift: false, press: true }
}

fn walk(path: &str, is_dir: bool) -> WalkEntry {
    let components: Vec<String> = path.split('/').filter(|c| !c.is_empty()).map(String::from).collect();
    WalkEntry {
        path: path.as_bytes().to_vec(),
        file_name: components.last().cloned().unwrap_or_default(),
        components,
        depth: 1,
        is_dir,
    }
}

fn app_in_project() -> App {
    let mut app = App::new(b"/p".to_vec());
    app.change_dir(b"/p".to_vec(), "p".to_string(), vec![walk("/p/a.rs", false), walk("/p/src", true)]);
    app
}

fn open(app: &mut App, path: &str) {
    if !app.open_existing(path.as_bytes()) {
        app.push_editor(path.as_bytes().to_vec(), content_hash(""));
    }
}

#[test]
fn execute_sets_dividers() {
    let mut app = app_in_project();
    assert!(matches!(app.execute("set-vertical 150"), Action::Nothing));
    assert_eq!(app.split.vertical, 100);
    app.execute("set-horizontal abc");
    assert_eq!(app.split.horizontal, 50);
    app.execute("  set-horizontal   +30 ");
    assert_eq!(app.split.horizontal, 30);
    app.execute("set-vertical");
    assert_eq!(app.split.vertical, 100);
}

#[test]
fn execute_clear_cd_export_and_run() {
    let mut app = app_in_project();
    app.append_output(b"one\ntwo\r\nthree");
    assert_eq!(app.output, vec!["one".to_string(), "two".to_string(), "three".to_string()]);
    app.execute("clear");
    assert!(app.output.is_empty());
    match app.execute("cd src") {
        Action::ChangeDirIfDir(p) => assert_eq!(p, b"/p/src".to_vec()),
        _ => panic!("expected a directory change"),
    }
    match app.execute("cd /etc") {
        Action::ChangeDirIfDir(p) => assert_eq!(p, b"/etc".to_vec()),
        _ => panic!("expected a directory change"),
    }
    app.execute("export EDITOR=vi");
    assert_eq!(app.shell.env_vars(), &[("EDITOR".to_string(), "vi".to_string())]);
    match app.execute("echo  hi") {
        Action::Run(v) => assert_eq!(v, vec!["/bin/sh".to_string(), "-c".to_string(), "echo hi".to_string()]),
        _ => panic!("expected a shell command"),
    }
    assert!(matches!(app.execute("   "), Action::Nothing));
}

#[test]
fn esc_without_editor_exits() {
    let mut app = app_in_project();
    app.handle_key_event(key(KeyCode::Esc), false);
    assert!(app.exit);
}

#[test]
fn law_editor_menu_esc_round_trip_example() {
    let mut app = app_in_project();
    open(&mut app, "/p/a.rs");
    app.focus = Focus::EDITOR(EditorFocus::MAIN);
    app.handle_key_event(key(KeyCode::Esc), false);
    assert_eq!(app.focus, Focus::EDITOR(EditorFocus::MENU));
    match &app.menu_screen {
        Some(MenuScreen::EDITOR(m)) => assert_eq!(m.get_list_items(), &["Save?".to_string(), "Exit?".to_string()]),
        _ => panic!("expected the editor menu"),
    }
    app.handle_key_event(key(KeyCode::Esc), false);
    assert_eq!(app.focus, Focus::EDITOR(EditorFocus::MAIN));
    assert!(app.menu_screen.is_none());
    assert!(!app.exit);
}

#[test]
fn editor_menu_save_and_exit() {
    let mut app = app_in_project();
    open(&mut app, "/p/a.rs");
    open(&mut app, "/p/b.rs");
    assert_eq!(app.selected_editor, Some(1));
    open(&mut app, "/p/a.rs");
    assert_eq!(app.selected_editor, Some(0));
    assert_eq!(app.editor_panes.len(), 2);
    app.focus = Focus::EDITOR(EditorFocus::MAIN);
    app.handle_key_event(key(KeyCode::Esc), false);
    match app.handle_key_event(key(KeyCode::Enter), false) {
        Action::Save(i) => assert_eq!(i, 0),
        _ => panic!("expected a save"),
    }
    assert!(app.menu_screen.is_none());
    app.saved(0, "new text");
    assert_eq!(app.editor_panes[0].hash, content_hash("new text"));
    // saving closes the menu but leaves the keys with it: Esc returns to the editor
    assert_eq!(app.focus, Focus::EDITOR(EditorFocus::MENU));
    app.handle_key_event(key(KeyCode::Esc), false);
    assert_eq!(app.focus, Focus::EDITOR(EditorFocus::MAIN));
    app.handle_key_event(key(KeyCode::Esc), false);
    app.handle_key_event(key(KeyCode::Down), false);
    match app.handle_key_event(key(KeyCode::Enter), false) {
        Action::Close(i) => assert_eq!(i, 0),
        _ => panic!("expected a close"),
    }
    assert_eq!(app.editor_panes.len(), 1);
    assert_eq!(app.selected_editor, Some(0));
    assert_eq!(app.focus, Focus::EDITOR(EditorFocus::MENU));
    app.handle_key_event(key(KeyCode::Esc), false);
    app.handle_key_event(key(KeyCode::Esc), false);
    app.handle_key_event(key(KeyCode::Up), false);
    app.handle_key_event(key(KeyCode::Enter), false);
    assert!(app.editor_panes.is_empty());
    assert_eq!(app.selected_editor, None);
    assert_eq!(app.focus, Focus::FILES);
}

#[test]
fn keys_in_files_and_panes() {
    let mut app = app_in_project();
    assert!(matches!(app.handle_key_event(key(KeyCode::Down), false), Action::Nothing));
    match app.handle_key_event(key(KeyCode::Tab), false) {
        Action::ChangeDir(p) => assert_eq!(p, b"/p/src".to_vec()),
        _ => panic!("expected a directory change"),
    }
    match app.handle_key_event(key(KeyCode::Down), false) {
        Action::Preview(p) => assert_eq!(p, b"/p/a.rs".to_vec()),
        _ => panic!("expected a preview"),
    }
    match app.handle_key_event(key(KeyCode::Tab), false) {
        Action::Open(p) => assert_eq!(p, b"/p/a.rs".to_vec()),
        _ => panic!("expected an open"),
    }
    assert!(matches!(app.handle_key_event(key(KeyCode::Enter), false), Action::ToggleDir));
    app.handle_key_event(key(KeyCode::BackTab), false);
    assert_eq!(app.focus, Focus::SHELL);
    app.handle_key_event(key(KeyCode::Char('l')), false);
    app.handle_key_event(key(KeyCode::Char('s')), false);
    app.handle_key_event(key(KeyCode::Enter), false);
    assert_eq!(app.input.pop_command(), Some("ls".to_string()));
    app.handle_key_event(key(KeyCode::BackTab), false);
    assert_eq!(app.focus, Focus::FILES);
}

#[test]
fn question_mark_opens_search() {
    let mut app = app_in_project();
    app.handle_key_event(key(KeyCode::Char('?')), false);
    assert_eq!(app.focus, Focus::SEARCH);
    app.handle_key_event(key(KeyCode::Char('m')), false);
    match app.handle_key_event(key(KeyCode::Enter), false) {
        Action::StartSearch(q) => assert_eq!(q, "m"),
        _ => panic!("expected a search"),
    }
    assert!(matches!(app.handle_key_event(key(KeyCode::Enter), true), Action::Nothing));
    if let Some(MenuScreen::SEARCH(m)) = &mut app.menu_screen {
        m.add_field(4, tide::search::line_item("/p/a.rs", Some(3), b"x"));
    }
    match app.handle_key_event(key(KeyCode::Tab), false) {
        Action::SearchSelection { path, line } => {
            assert_eq!(path, "/p/a.rs");
            assert_eq!(line, Some(3));
        }
        _ => panic!("expected a selection"),
    }
    open(&mut app, "/p/a.rs");
    assert_eq!(app.finish_search_selection(false, Some(3)), Some((0, 2)));
    assert_eq!(app.focus, Focus::EDITOR(EditorFocus::MAIN));
    assert!(app.menu_screen.is_none());
}

#[test]
fn esc_closes_search() {
    let mut app = app_in_project();
    app.handle_key_event(key(KeyCode::Char('?')), false);
    assert!(matches!(app.handle_key_event(key(KeyCode::Esc), false), Action::CleanupSearch));
    assert!(app.menu_screen.is_none());
    assert_eq!(app.focus, Focus::FILES);
}

#[test]
fn law_editor_cycle_round_trip_example() {
    let mut app = app_in_project();
    open(&mut app, "/p/a.rs");
    open(&mut app, "/p/b.rs");
    open(&mut app, "/p/c.rs");
    assert_eq!(app.selected_editor, Some(2));
    app.handle_key_event(KeyEvent { code: KeyCode::Right, shift: true, press: true }, false);
    assert_eq!(app.selected_editor, Some(0));
    app.handle_key_event(KeyEvent { code: KeyCode::Left, shift: true, press: true }, false);
    assert_eq!(app.selected_editor, Some(2));
    app.focus = Focus::EDITOR(EditorFocus::MAIN);
    assert!(matches!(app.handle_key_event(key(KeyCode::Left), false), Action::EditorKey(2)));
}

#[test]
fn mouse_focus_drag_and_scroll() {
    let mut app = app_in_project();
    let frame = Rect::new(0, 0, 100, 50);
    let editor = Rect::new(20, 0, 80, 40);
    let shell = Rect::new(20, 40, 80, 10);
    let files = Rect::new(0, 0, 20, 50);
    let click = |col, row| MouseEvent { kind: MouseEventKind::Down(MouseButton::Left), column: col, row };
    let (to_editor, act) = app.handle_mouse_event(click(19, 10), &frame, &editor, &shell, &files, None);
    assert_eq!(to_editor, None);
    assert!(matches!(act, Action::Nothing));
    assert!(app.last_drag.is_some());
    let drag = MouseEvent { kind: MouseEventKind::Drag(MouseButton::Left), column: 30, row: 10 };
    app.handle_mouse_event(drag, &frame, &editor, &shell, &files, None);
    assert_eq!(app.split.horizontal, 30);
    let up = MouseEvent { kind: MouseEventKind::Up(MouseButton::Left), column: 30, row: 10 };
    app.handle_mouse_event(up, &frame, &editor, &shell, &files, None);
    assert!(app.last_drag.is_none());
    app.split.horizontal = 20;
    app.handle_mouse_event(click(50, 45), &frame, &editor, &shell, &files, None);
    assert_eq!(app.focus, Focus::SHELL);
    let (_, act) = app.handle_mouse_event(click(5, 3), &frame, &editor, &shell, &files, None);
    assert_eq!(app.focus, Focus::FILES);
    match act {
        Action::Open(p) => assert_eq!(p, b"/p/a.rs".to_vec()),
        _ => panic!("expected an open"),
    }
    let right = MouseEvent { kind: MouseEventKind::Down(MouseButton::Right), column: 5, row: 2 };
    match app.handle_mouse_event(right, &frame, &editor, &shell, &files, None).1 {
        Action::ChangeDir(p) => assert_eq!(p, b"/p/src".to_vec()),
        _ => panic!("expected a directory change"),
    }
    app.append_output(b"a\nb\nc");
    let scroll_up = MouseEvent { kind: MouseEventKind::ScrollUp, column: 50, row: 45 };
    app.handle_mouse_event(scroll_up, &frame, &editor, &shell, &files, None);
    app.handle_mouse_event(scroll_up, &frame, &editor, &shell, &files, None);
    app.handle_mouse_event(scroll_up, &frame, &editor, &shell, &files, None);
    assert_eq!(app.output_pos, 2);
    let scroll_down = MouseEvent { kind: MouseEventKind::ScrollDown, column: 50, row: 45 };
    app.handle_mouse_event(scroll_down, &frame, &editor, &shell, &files, None);
    assert_eq!(app.output_pos, 1);
}

#[test]
fn click_outside_popup_closes_it() {
    let mut app = app_in_project();
    app.handle_key_event(key(KeyCode::Char('?')), false);
    let frame = Rect::new(0, 0, 100, 50);
    let editor = Rect::new(20, 0, 80, 40);
    let shell = Rect::new(20, 40, 80, 10);
    let files = Rect::new(0, 0, 20, 50);
    let popup = Some((MenuScreenType::SEARCH, Rect::new(30, 5, 40, 30)));
    app.focus = Focus::FILES;
    let click = |col, row| MouseEvent { kind: MouseEventKind::Down(MouseButton::Left), column: col, row };
    app.handle_mouse_event(click(40, 10), &frame, &editor, &shell, &files, popup);
    assert_eq!(app.focus, Focus::SEARCH);
    assert!(app.menu_screen.is_some());
    app.handle_mouse_event(click(50, 45), &frame, &editor, &shell, &files, popup);
    assert!(app.menu_screen.is_none());
    assert_eq!(app.focus, Focus::SHELL);
}

#[test]
fn handle_event_ignores_releases() {
    let mut app = app_in_project();
    let r = Rect::new(0, 0, 10, 10);
    let release = Event::Key(KeyEvent { code: KeyCode::Esc, shift: false, press: false });
    let (_, act) = app.handle_event(release, false, &r, &r, &r, &r, None);
    assert!(matches!(act, Action::Nothing));
    assert!(!app.exit);
    app.handle_event(Event::Key(key(KeyCode::Esc)), false, &r, &r, &r, &r, None);
    assert!(app.exit);
}

#[test]
fn path_titles() {
    let comps = |v: &[&str]| v.iter().map(|s| s.to_string()).collect::<Vec<String>>();
    assert_eq!(get_path_to_render("/home/user/projects/tide", &comps(&["/", "home", "user", "projects", "tide"]), 15), "../projects/tide");
    assert_eq!(get_path_to_render("/a/b", &comps(&["/", "a", "b"]), 15), "/a/b");
    assert_eq!(get_path_to_render("averyveryverylongname", &comps(&["averyveryverylongname"]), 15), "../");
    assert_eq!(get_path_to_render("p", &comps(&["p"]), 15), "p");
}

#[test]
fn help_text_lines() {
    let lines = help_lines(Focus::FILES);
    assert_eq!(lines.len(), 7);
    assert_eq!(lines[0], "Tab         : Change directory | Load File");
    assert_eq!(lines[2], "Shift + Tab : Cycle panes");
    assert_eq!(lines[6], "?           : Open search menu");
    assert!(help_lines(Focus::EDITOR(EditorFocus::MAIN)).is_empty());
}

#[test]
fn tabs_and_checksums() {
    assert_eq!(content_hash("123456789"), 16845390139448941002);
    let h = content_hash("abc");
    assert_eq!(tab_title("main.rs", "abc", h), "main.rs");
    assert_eq!(tab_title("main.rs", "abcd", h), "main.rs*");
}

#[test]
fn layout_helpers() {
    let area = Rect::new(10, 0, 80, 40);
    let items = vec!["Save?".to_string(), "Exit?".to_string()];
    assert_eq!(editor_menu_area(&area, &items), Some(Rect::new(10 + (80 - 13) / 2, (40 - 4) / 2, 13, 4)));
    assert_eq!(editor_menu_area(&Rect::new(0, 0, 12, 40), &items), None);
    assert_eq!(editor_menu_area(&Rect::new(0, 0, 80, 3), &items), None);
    assert_eq!(search_popup_area(&Rect::new(0, 0, 100, 40)), Some(Rect::new(25, 5, 50, 30)));
    assert_eq!(search_popup_area(&Rect::new(0, 0, 100, 21846)), None);
    assert_eq!(search_popup_area(&Rect::new(65535, 0, 100, 40)), None);
    assert_eq!(center_rect(&area, 80, 40), area);
    assert_eq!(shell_area(&Rect::new(1, 2, 3, 4), &Rect::new(1, 6, 3, 2)), Rect::new(1, 2, 3, 6));
    assert_eq!(search_title(true, 12), "Searching 12 items ");
    assert_eq!(search_title(false, 0), "Searched 0 items ");
}

#[test]
fn languages_by_extension() {
    assert_eq!(language_for("rs"), "rust");
    assert_eq!(language_for("h"), "cpp");
    assert_eq!(language_for("md"), "markdown");
    assert_eq!(language_for(""), "");
    assert_eq!(language_for("py"), "shell");
}

#[test]
fn visible_output_window() {
    let mut app = app_in_project();
    app.append_output(b"1\n2\n3\n4\n5");
    assert_eq!(app.visible_output(2), &["4".to_string(), "5".to_string()]);
    app.output_pos = 1;
    assert_eq!(app.visible_output(2), &["3".to_string(), "4".to_string(), "5".to_string()]);
    assert_eq!(app.visible_output(10).len(), 5);
}

#[test]
fn command_and_title_checks() {
    assert!(accepts_command("export A=1"));
    assert!(!accepts_command("export A"));
    assert!(!accepts_command("export A=1=2"));
    assert!(accepts_command("export"));
    assert!(accepts_command("ls -la"));
    assert!(accepts_command(""));
    let comps = |v: &[&str]| v.iter().map(|s| s.to_string()).collect::<Vec<String>>();
    assert!(path_title_fits(&comps(&["/", "home", "user"]), 15));
    let long = "x".repeat(70000);
    assert!(!path_title_fits(&comps(&["/", long.as_str()]), 15));
    assert!(path_title_fits(&comps(&[long.as_str(), "averyveryverylongname"]), 15));
    assert!(centering_fits(&Rect::new(0, 0, 10, 10), 10, 10));
    assert!(!centering_fits(&Rect::new(0, 0, 10, 10), 11, 10));
}

#[test]
fn key_checks_follow_the_state() {
    let mut app = App::new(b"/p".to_vec());
    // No entries yet: the arrows have nothing to move through in the files.
    assert!(!app.accepts_key(key(KeyCode::Down), false));
    assert!(app.accepts_key(key(KeyCode::Esc), false));
    app.change_dir(b"/p".to_vec(), "p".to_string(), vec![walk("/p/a.rs", false)]);
    assert!(app.accepts_key(key(KeyCode::Down), false));
    // The shell line's cursor counts a step per character; after a two-byte
    // character it sits inside it, where nothing can be typed in.
    app.focus = Focus::SHELL;
    assert!(app.accepts_key(key(KeyCode::Char('é')), false));
    let r = Rect::new(0, 0, 10, 10);
    app.handle_event(Event::Key(key(KeyCode::Char('é'))), false, &r, &r, &r, &r, None);
    assert!(!app.accepts_key(key(KeyCode::Char('a')), false));
    assert!(app.accepts_key(key(KeyCode::Right), false));
}

#[test]
fn mouse_checks_follow_the_areas() {
    let app = App::new(b"/p".to_vec());
    let r = Rect::new(0, 0, 100, 40);
    let far = Rect::new(65535, 0, 10, 10);
    let click = MouseEvent { kind: MouseEventKind::Down(MouseButton::Left), column: 50, row: 20 };
    assert!(app.accepts_mouse(click, &r, &r, &r, &r, None));
    assert!(!app.accepts_mouse(click, &r, &far, &r, &r, None));
    assert!(!app.accepts_mouse(click, &r, &r, &far, &r, None));
    let scroll = MouseEvent { kind: MouseEventKind::ScrollUp, column: 50, row: 20 };
    assert!(app.accepts_mouse(scroll, &r, &r, &r, &far, None));
    assert!(!app.accepts_mouse(scroll, &r, &r, &far, &r, None));
}

#[test]
fn law_panes_cycle_example() {
    let mut app = app_in_project();
    assert_eq!(app.focus, Focus::FILES);
    app.handle_key_event(key(KeyCode::BackTab), false);
    assert_eq!(app.focus, Focus::SHELL);
    app.handle_key_event(key(KeyCode::BackTab), false);
    assert_eq!(app.focus, Focus::FILES);
    open(&mut app, "/p/a.rs");
    app.handle_key_event(key(KeyCode::BackTab), false);
    assert_eq!(app.focus, Focus::EDITOR(EditorFocus::MAIN));
    app.handle_key_event(key(KeyCode::BackTab), false);
    assert_eq!(app.focus, Focus::SHELL);
    app.handle_key_event(key(KeyCode::BackTab), false);
    assert_eq!(app.focus, Focus::FILES);
}

#[test]
fn law_search_open_close_example() {
    let mut app = app_in_project();
    assert!(matches!(app.handle_key_event(key(KeyCode::Char('?')), false), Action::DropSearch));
    assert_eq!(app.focus, Focus::SEARCH);
    assert!(matches!(&app.menu_screen, Some(MenuScreen::SEARCH(m)) if m.get_n_items() == 0));
    assert!(matches!(app.handle_key_event(key(KeyCode::Esc), false), Action::CleanupSearch));
    assert!(app.menu_screen.is_none());
    assert_eq!(app.focus, Focus::FILES);
}

fn tree_names(app: &App) -> Vec<String> {
    app.file_system.iter().iter().map(|e| e.path()).collect()
}

#[test]
fn enter_in_files_toggles_and_opens() {
    let mut app = app_in_project();
    assert_eq!(tree_names(&app), vec!["..", "src", "a.rs"]);
    assert!(matches!(app.handle_key_event(key(KeyCode::Enter), false), Action::ToggleDir));
    app.file_system.select_entry(1);
    let child = WalkEntry { depth: 1, ..walk("/p/src/m.rs", false) };
    assert!(matches!(app.toggle_dir(None, vec![child]), Action::Nothing));
    assert_eq!(tree_names(&app), vec!["..", "src", "  m.rs", "a.rs"]);
    assert!(matches!(app.toggle_dir(None, vec![]), Action::Nothing));
    assert_eq!(tree_names(&app), vec!["..", "src", "a.rs"]);
    assert_eq!(app.focus, Focus::FILES);
    app.file_system.select_entry(2);
    match app.toggle_dir(None, vec![]) {
        Action::Open(p) => assert_eq!(p, b"/p/a.rs".to_vec()),
        _ => panic!("a file is opened"),
    }
    assert_eq!(app.focus, Focus::EDITOR(EditorFocus::MAIN));
    assert!(app.preview_pane.is_none());
}

#[test]
fn enter_on_parent_moves_up() {
    let mut app = app_in_project();
    app.focus = Focus::FILES;
    let parent = (b"/".to_vec(), String::new(), vec![walk("/p", true)]);
    assert!(matches!(app.toggle_dir(Some(parent), vec![]), Action::Nothing));
    assert_eq!(app.shell.cwd(), &b"/".to_vec());
    assert_eq!(app.file_system.current_dir(), b"/".to_vec());
    assert_eq!(tree_names(&app), vec!["..", "p"]);
    assert!(app.file_system.iter()[0].expanded());
}

#[test]
fn law_path_title_more_space_example() {
    let comps: Vec<String> = ["/", "home", "user", "projects", "tide"].iter().map(|s| s.to_string()).collect();
    let text = "/home/user/projects/tide";
    assert_eq!(get_path_to_render(text, &comps, 8), "../tide");
    assert_eq!(get_path_to_render(text, &comps, 15), "../projects/tide");
    assert_eq!(get_path_to_render(text, &comps, 19), "../user/projects/tide");
    assert_eq!(get_path_to_render(text, &comps, 30), text);
    assert_eq!(get_path_to_render(text, &comps, 40), text);
}

#[test]
fn law_keys_keep_editors_valid_example() {
    let mut app = app_in_project();
    open(&mut app, "/p/a.rs");
    open(&mut app, "/p/b.rs");
    open(&mut app, "/p/a.rs");
    assert_eq!(app.editor_panes.len(), 2);
    assert_eq!(app.selected_editor, Some(0));
    app.handle_key_event(key(KeyCode::Esc), false);
    assert_eq!(app.focus, Focus::EDITOR(EditorFocus::MENU));
    app.handle_key_event(key(KeyCode::Down), false);
    assert!(matches!(app.handle_key_event(key(KeyCode::Enter), false), Action::Close(0)));
    assert_eq!(app.editor_panes.len(), 1);
    assert_eq!(app.editor_panes[0].path, b"/p/b.rs".to_vec());
    assert_eq!(app.selected_editor, Some(0));
}

#[test]
fn clicks_test_only_the_areas_they_reach() {
    let mut app = app_in_project();
    let r = Rect::new(0, 0, 100, 40);
    let far = Rect::new(65535, 0, 10, 10);
    let click = MouseEvent { kind: MouseEventKind::Down(MouseButton::Left), column: 50, row: 20 };
    // A click inside a popup is not tested against the shell or the files.
    let popup = Some((MenuScreenType::SEARCH, Rect::new(40, 10, 20, 20)));
    assert!(app.accepts_mouse(click, &r, &r, &far, &far, popup));
    assert!(!app.accepts_mouse(click, &r, &r, &r, &r, Some((MenuScreenType::SEARCH, far))));
    // A click on an open editor is not tested against the shell or the files.
    assert!(!app.accepts_mouse(click, &r, &r, &far, &far, None));
    open(&mut app, "/p/a.rs");
    assert!(app.accepts_mouse(click, &r, &r, &far, &far, None));
    // A click in the shell area is not tested against the files.
    let off = Rect::new(0, 0, 10, 10);
    assert!(app.accepts_mouse(click, &r, &off, &r, &far, None));
    assert!(!app.accepts_mouse(click, &r, &off, &off, &far, None));
    let (_, act) = app.handle_event(Event::Mouse(click), false, &r, &off, &r, &far, None);
    assert!(matches!(act, Action::Nothing));
    assert_eq!(app.focus, Focus::SHELL);
}

#[test]
fn law_whole_title_stays_whole_example() {
    let comps = |v: &[&str]| v.iter().map(|s| s.to_string()).collect::<Vec<String>>();
    let c = comps(&["/", "a", "b"]);
    assert_eq!(get_path_to_render("/a/b", &c, 15), "/a/b");
    assert_eq!(get_path_to_render("/a/b", &c, 40), "/a/b");
    // A text that is itself a shortened title of its components is left out:
    // shown whole in one character, it is not in two.
    let odd = comps(&["x", "a", "b"]);
    assert_eq!(get_path_to_render("../b", &odd, 1), "../b");
    assert_eq!(get_path_to_render("../b", &odd, 2), "../a/b");
}
