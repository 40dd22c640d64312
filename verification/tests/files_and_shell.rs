use std::cmp::Ordering;
use tide::file_system::{compare_entries, entry_order, is_dotfile, EntryToggle, FileEntry, FilePath, FileSystem, FileTree, FileType, TogglePlan, WalkEntry};
use tide::geometry::Direction;
use tide::shell::{command_argv, Shell};

fn walk(path: &str, depth: usize, is_dir: bool) -> WalkEntry {
    let components: Vec<String> = path.split('/').filter(|c| !c.is_empty()).map(String::from).collect();
    WalkEntry {
        path: path.as_bytes().to_vec(),
        file_name: components.last().cloned().unwrap_or_default(),
        components,
        depth,
        is_dir,
    }
}

fn names(tree: &FileTree) -> Vec<String> {
    tree.iter().iter().map(|e| e.path()).collect()
}

#[test]
fn file_paths_mark_directories() {
    let d = FilePath::new("src".to_string(), true);
    assert_eq!(d.path(), "src/");
    assert!(d.is_dir());
    let f = FilePath::new("a.rs".to_string(), false);
    assert_eq!(f.path(), "a.rs");
}

#[test]
fn flat_file_system_listing() {
    let mut fs = FileSystem::new();
    fs.push_path_to_render("src", true);
    fs.push_path_to_object(b"/p/src".to_vec());
    fs.set_current_dir_to_render("p");
    assert_eq!(fs.len(), 1);
    assert_eq!(fs.get_paths_to_render()[0].path(), "src/");
    assert_eq!(fs.get_path_to_object(0), b"/p/src".to_vec());
    assert_eq!(fs.get_current_dir_to_render(), "p");
    fs.clear();
    assert_eq!(fs.len(), 0);
    assert_eq!(fs.get_current_dir_to_render(), "p");
}

#[test]
fn dotfiles_are_detected_in_any_component() {
    assert!(is_dotfile(&vec!["home".to_string(), ".cache".to_string(), "x".to_string()]));
    assert!(!is_dotfile(&vec!["home".to_string(), "a.b".to_string()]));
    assert!(!is_dotfile(&vec![]));
}

#[test]
fn entries_are_indented_by_depth() {
    let e = FileEntry::new(walk("/p/src", 1, true), 1);
    assert_eq!(e.path(), "  src");
    assert!(e.is_dir());
    assert_eq!(e.depth(), 2);
    let top = FileEntry::new(walk("/p/a.rs", 1, false), 0);
    assert_eq!(top.path(), "a.rs");
}

#[test]
fn change_dir_lists_visible_entries_in_reverse() {
    let mut tree = FileTree::new();
    tree.change_dir(
        b"/p".to_vec(),
        "p".to_string(),
        vec![walk("/p/a.rs", 1, false), walk("/p/.git", 1, true), walk("/p/src", 1, true)],
    );
    assert_eq!(names(&tree), vec!["..".to_string(), "src".to_string(), "a.rs".to_string()]);
    assert_eq!(tree.get_current_dir_to_render(), "p");
    assert_eq!(tree.current_dir(), b"/p".to_vec());
    assert_eq!(tree.get_state().selected, Some(0));
    assert_eq!(tree.toggle_plan(), TogglePlan::Parent);
}

#[test]
fn traverse_previews_files_only() {
    let mut tree = FileTree::new();
    tree.change_dir(b"/p".to_vec(), "p".to_string(), vec![walk("/p/a.rs", 1, false), walk("/p/src", 1, true)]);
    assert_eq!(tree.traverse_dirs(Direction::DOWN), None);
    assert_eq!(tree.traverse_dirs(Direction::DOWN), Some(b"/p/a.rs".to_vec()));
    assert_eq!(tree.traverse_dirs(Direction::DOWN), None);
    assert_eq!(tree.get_state().selected, Some(0));
    assert_eq!(tree.traverse_dirs(Direction::UP), Some(b"/p/a.rs".to_vec()));
    match tree.get_selected() {
        FileType::File(p) => assert_eq!(p, b"/p/a.rs".to_vec()),
        _ => panic!("expected a file"),
    }
}

#[test]
fn law_expand_then_collapse_example() {
    let mut tree = FileTree::new();
    tree.change_dir(b"/p".to_vec(), "p".to_string(), vec![walk("/p/a.rs", 1, false), walk("/p/src", 1, true)]);
    let before = names(&tree);
    assert_eq!(tree.select_entry(1), None);
    assert_eq!(tree.toggle_plan(), TogglePlan::Entry(1));
    let (path, depth) = match tree.entry_toggle(1) {
        EntryToggle::Expand { path, depth } => (path, depth),
        _ => panic!("expected a directory to expand"),
    };
    assert_eq!(path, b"/p/src".to_vec());
    assert_eq!(depth, 1);
    tree.expand(1, vec![walk("/p/src/lib.rs", 1, false), walk("/p/src/main.rs", 1, false)]);
    assert_eq!(
        names(&tree),
        vec!["..", "src", "  main.rs", "  lib.rs", "a.rs"].into_iter().map(String::from).collect::<Vec<_>>()
    );
    assert!(matches!(tree.entry_toggle(1), EntryToggle::Collapse));
    tree.collapse(1);
    assert_eq!(names(&tree), before);
    assert!(matches!(tree.entry_toggle(1), EntryToggle::Expand { .. }));
    assert!(matches!(tree.entry_toggle(2), EntryToggle::NotDir));
}

#[test]
fn select_and_dirs_by_index() {
    let mut tree = FileTree::new();
    tree.change_dir(b"/p".to_vec(), "p".to_string(), vec![walk("/p/a.rs", 1, false), walk("/p/src", 1, true)]);
    assert_eq!(tree.select_entry(2), Some(b"/p/a.rs".to_vec()));
    assert_eq!(tree.select_entry(9), None);
    assert_eq!(tree.get_state().selected, Some(2));
    assert_eq!(tree.get_dir_at_index(1), Some(b"/p/src".to_vec()));
    assert_eq!(tree.get_dir_at_index(2), None);
}

#[test]
fn export_overwrites_and_keeps_order() {
    let mut shell = Shell::new(b"/home".to_vec());
    shell.set_env("A", "1");
    shell.set_env("B", "2");
    shell.set_env("A", "3");
    let env: Vec<(String, String)> = shell.env_vars().to_vec();
    assert_eq!(env, vec![("A".to_string(), "3".to_string()), ("B".to_string(), "2".to_string())]);
    shell.set_cwd(b"/tmp".to_vec());
    assert_eq!(shell.cwd(), &b"/tmp".to_vec());
}

#[test]
fn commands_run_through_sh() {
    let argv = vec!["ls".to_string(), "-l".to_string(), "src".to_string()];
    assert_eq!(
        command_argv(&argv),
        vec!["/bin/sh".to_string(), "-c".to_string(), "ls -l src".to_string()]
    );
}

#[test]
fn law_entry_order_total_example() {
    assert_eq!(compare_entries(false, b"a", false, b"a"), 0);
    assert_eq!(compare_entries(false, b"a", false, b"ab"), -1);
    assert_eq!(compare_entries(false, b"b", false, b"ab"), 1);
    assert_eq!(compare_entries(true, b"a", false, b"z"), 1);
    assert_eq!(entry_order(false, b"z", true, b"a"), Ordering::Less);
    assert_eq!(entry_order(true, b"b", true, b"a"), Ordering::Greater);
    let mut names = vec![(true, b"src".to_vec()), (false, b"b.rs".to_vec()), (false, b"a.rs".to_vec())];
    names.sort_by(|x, y| entry_order(x.0, &x.1, y.0, &y.1));
    assert_eq!(names, vec![(false, b"a.rs".to_vec()), (false, b"b.rs".to_vec()), (true, b"src".to_vec())]);
}

#[test]
fn law_dotfiles_never_listed_example() {
    let mut tree = FileTree::new();
    tree.change_dir(
        b"/p".to_vec(),
        "p".to_string(),
        vec![walk("/p/.env", 1, false), walk("/p/src", 1, true)],
    );
    assert_eq!(names(&tree), vec!["..".to_string(), "src".to_string()]);
    tree.expand(1, vec![walk("/p/src/.cache", 1, true), walk("/p/src/main.rs", 1, false)]);
    assert_eq!(names(&tree), vec!["..".to_string(), "src".to_string(), "  main.rs".to_string()]);
}
