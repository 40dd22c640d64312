use tide::search::menu::SearchMenu;
use tide::search::{entry_item, line_item, score_item, SearchItem, SearchItemType};
use tide::events::{Event, KeyCode, KeyEvent};
use tide::geometry::Direction;

fn item(text: &str) -> SearchItem {
    SearchItem::new(text, None, SearchItemType::FILE)
}

#[test]
fn search_item_accessors() {
    let i = SearchItem::new("fn main", Some("src/main.rs:3"), SearchItemType::TEXT);
    assert_eq!(i.display(), "fn main");
    assert_eq!(i.metadata(), Some("src/main.rs:3"));
    assert_eq!(i.item_type(), SearchItemType::TEXT);
    assert_eq!(i.duplicate(), i);
    assert_eq!(SearchItemType::default(), SearchItemType::TEXT);
}

#[test]
fn line_items_are_trimmed_and_located() {
    let i = line_item("src/lib.rs", Some(12), b"    let x = 1;  \r\n");
    assert_eq!(i.display(), "    let x = 1;");
    assert_eq!(i.metadata(), Some("src/lib.rs:12"));
    assert_eq!(i.item_type(), SearchItemType::TEXT);
    let j = line_item("a", None, b"x\xffy");
    assert_eq!(j.display(), "x\u{fffd}y");
    assert_eq!(j.metadata(), Some("a:0"));
}

#[test]
fn law_line_location_read_back_example() {
    let i = line_item("C:/dir:odd/file.rs", Some(4242), b"text");
    assert_eq!(i.location(), ("C:/dir:odd/file.rs".to_string(), Some(4242)));
    let f = item("/tmp/x");
    assert_eq!(f.location(), ("/tmp/x".to_string(), None));
    let g = SearchItem::new("t", Some("nocolon"), SearchItemType::TEXT);
    assert_eq!(g.location(), ("nocolon".to_string(), None));
}

#[test]
fn entries_become_items() {
    let d = entry_item("/tmp", true, false).unwrap();
    assert_eq!(d.item_type(), SearchItemType::DIRECTORY);
    assert_eq!(d.display(), "/tmp");
    let f = entry_item("/tmp/a", false, true).unwrap();
    assert_eq!(f.item_type(), SearchItemType::FILE);
    assert!(entry_item("/dev/null", false, false).is_none());
}

#[test]
fn fuzzy_scores() {
    assert_eq!(score_item("", item("anything")).map(|p| p.0), Some(0));
    let hit = score_item("mn", item("main.rs")).unwrap();
    assert!(hit.0 > 0);
    assert_eq!(hit.1.display(), "main.rs");
    assert!(score_item("zzz", item("main.rs")).is_none());
}

#[test]
fn results_stay_ranked() {
    let mut m = SearchMenu::new();
    m.add_field(5, item("five"));
    m.add_field(9, item("nine"));
    m.add_field(7, item("seven"));
    m.add_field(5, item("five again"));
    let names: Vec<String> = m.get_list_items().iter().map(|i| i.display().to_string()).collect();
    assert_eq!(names[0], "nine");
    assert_eq!(names[1], "seven");
    assert!(names[2].starts_with("five") && names[3].starts_with("five"));
    assert_eq!(m.get_n_items(), 4);
    // the highlight stays on the first place, whatever is inserted before it
    assert_eq!(m.get_selected_item().map(|i| i.display()), Some("nine"));
}

#[test]
fn results_are_capped() {
    let mut m = SearchMenu::new();
    for k in 0..1100u32 {
        m.add_field(k, item("x"));
    }
    assert_eq!(m.get_list_items().len(), 1000);
    assert_eq!(m.get_n_items(), 1100);
}

#[test]
fn add_results_skips_zero_scores() {
    let mut m = SearchMenu::new();
    m.add_results(vec![(0, item("zero")), (3, item("three")), (1, item("one"))]);
    let names: Vec<String> = m.get_list_items().iter().map(|i| i.display().to_string()).collect();
    assert_eq!(names, vec!["three".to_string(), "one".to_string()]);
    assert_eq!(m.get_n_items(), 2);
}

#[test]
fn search_menu_query_and_start() {
    let mut m = SearchMenu::new();
    for c in "fn".chars() {
        m.handle_event(&Event::Key(KeyEvent { code: KeyCode::Char(c), shift: false, press: true }), false);
    }
    m.handle_event(&Event::Key(KeyEvent { code: KeyCode::Char('x'), shift: false, press: true }), true);
    assert_eq!(m.get_input_to_render(), "fn");
    m.add_field(1, item("a"));
    assert_eq!(m.search(true), None);
    assert_eq!(m.get_list_items().len(), 1);
    assert_eq!(m.search(false), Some("fn".to_string()));
    assert_eq!(m.get_list_items().len(), 0);
    assert_eq!(m.get_n_items(), 0);
}

#[test]
fn search_menu_traverse() {
    let mut m = SearchMenu::new();
    m.add_field(2, item("b"));
    m.add_field(3, item("a"));
    m.traverse_items(Direction::DOWN);
    assert_eq!(m.get_selected_item().map(|i| i.display()), Some("b"));
    m.traverse_items(Direction::DOWN);
    assert_eq!(m.get_selected_item().map(|i| i.display()), Some("a"));
    m.cleanup();
    assert!(m.get_selected_item().is_none());
    assert_eq!(m.get_state().selected, None);
}

#[test]
fn search_menu_checks() {
    let mut m = SearchMenu::new();
    assert!(m.can_traverse());
    assert!(m.selection_valid());
    assert!(!m.accepts(KeyCode::Right));
    assert!(m.accepts(KeyCode::Char('q')));
    m.add_field(3, item("a"));
    m.traverse_items(Direction::DOWN);
    assert!(m.can_traverse());
    assert!(m.selection_valid());
    m.cleanup();
    assert!(m.selection_valid());
}

#[test]
fn law_result_added_ranked_example() {
    let mut m = SearchMenu::new();
    for score in [5u32, 9, 5, 1, 7] {
        m.add_field(score, item(&score.to_string()));
    }
    let shown: Vec<String> = m.get_list_items().iter().map(|i| i.display().to_string()).collect();
    assert_eq!(shown, vec!["9", "7", "5", "5", "1"]);
    for k in 0..1000u32 {
        m.add_field(3, item(&k.to_string()));
    }
    assert_eq!(m.get_list_items().len(), 1000);
    assert_eq!(m.get_n_items(), 1005);
    assert_eq!(m.get_list_items()[0].display(), "9");
    assert!(m.get_list_items().windows(2).count() == 999);
}

#[test]
fn queries_with_many_spaces_are_scored() {
    let query = format!("a{}b", " ".repeat(70000));
    let scored = score_item(&query, item("a and b"));
    assert!(scored.is_some());
    assert!(score_item(&query, item("zzz")).is_none());
}

#[test]
fn line_items_trim_unicode_whitespace() {
    let i = line_item("f", Some(1), " foo\tbar\t\u{2003}\n".as_bytes());
    assert_eq!(i.display(), " foo\tbar");
    let j = line_item("f", Some(2), b"x\xff \n");
    assert_eq!(j.display(), "x\u{fffd}");
    let k = line_item("f", Some(3), "\u{3000}\u{85} ".as_bytes());
    assert_eq!(k.display(), "");
}
