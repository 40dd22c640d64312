use tide::events::{Event, KeyCode, KeyEvent, MouseEventKind};
use tide::geometry::{is_in_hitbox, Direction, Rect, Split};
use tide::popup_menu::{cycle, ListState, PopupMenu};

fn key(code: KeyCode) -> KeyEvent {
    KeyEvent { code, shift: false, press: true }
}

#[test]
fn hitbox_excludes_border() {
    let r = Rect::new(2, 3, 10, 5);
    assert!(is_in_hitbox((3, 4), &r));
    assert!(!is_in_hitbox((2, 4), &r));
    assert!(!is_in_hitbox((12, 4), &r));
    assert!(is_in_hitbox((11, 7), &r));
    assert!(!is_in_hitbox((11, 8), &r));
}

#[test]
fn split_defaults_and_percentages() {
    let s = Split::default();
    assert_eq!(s.get_horizontal_split_percentage(), (20, 80));
    assert_eq!(s.get_vertical_split_percentage(), (80, 20));
    let t = Split { horizontal: 120, vertical: 100 };
    assert_eq!(t.get_horizontal_split_percentage(), (120, 0));
    assert_eq!(t.get_vertical_split_percentage(), (100, 0));
}

#[test]
fn split_hitboxes() {
    let s = Split::default();
    let frame = Rect::new(0, 0, 100, 50);
    assert_eq!(s.get_horizontal_hitbox(&frame), Rect::new(18, 0, 4, 50));
    assert_eq!(s.get_vertical_split_hitbox(&frame), Rect::new(20, 37, 80, 6));
    let small = Rect::new(0, 0, 5, 2);
    assert_eq!(s.get_horizontal_hitbox(&small), Rect::new(0, 0, 3, 2));
}

#[test]
fn split_dragging() {
    let mut s = Split::default();
    let frame = Rect::new(0, 0, 200, 40);
    s.set_horizontal_percentage((50, 7), &frame);
    assert_eq!(s.horizontal, 25);
    assert_eq!(s.vertical, 80);
    s.set_vertical_percentage((50, 30), &frame);
    assert_eq!(s.vertical, 75);
}

#[test]
fn direction_from_keys() {
    assert_eq!(Direction::from(KeyCode::Up), Direction::UP);
    assert_eq!(Direction::from(KeyCode::Down), Direction::DOWN);
    assert_eq!(Direction::from(KeyCode::Enter), Direction::DOWN);
    assert_eq!(Direction::from(MouseEventKind::ScrollUp), Direction::UP);
    assert_eq!(Direction::from(MouseEventKind::ScrollDown), Direction::DOWN);
}

#[test]
fn cycle_wraps_both_ways() {
    assert_eq!(cycle(None, 3, Direction::UP), 0);
    assert_eq!(cycle(Some(0), 3, Direction::UP), 2);
    assert_eq!(cycle(Some(2), 3, Direction::DOWN), 0);
    assert_eq!(cycle(Some(1), 3, Direction::DOWN), 2);
}

#[test]
fn law_cycle_round_trip_example() {
    for k in 0..4usize {
        let down = cycle(Some(k), 4, Direction::DOWN);
        assert_eq!(cycle(Some(down), 4, Direction::UP), k);
        let up = cycle(Some(k), 4, Direction::UP);
        assert_eq!(cycle(Some(up), 4, Direction::DOWN), k);
    }
}

#[test]
fn popup_first_field_is_selected() {
    let m = PopupMenu::default().add_field("Save?".to_string()).add_field("Exit?".to_string());
    assert_eq!(m.get_list_items().len(), 2);
    assert_eq!(m.get_selected(), Some(&"Save?".to_string()));
    assert!(m.selected("Save?".to_string()));
    assert!(!m.selected("Exit?".to_string()));
}

#[test]
fn popup_traverse_and_reset() {
    let mut m = PopupMenu::default().add_field(1u32).add_field(2).add_field(3);
    m.traverse_items(Direction::UP);
    assert_eq!(m.get_selected(), Some(&3));
    m.traverse_items(Direction::DOWN);
    assert_eq!(m.get_selected(), Some(&1));
    m.reset();
    assert_eq!(m.get_list_items().len(), 0);
    assert_eq!(m.get_selected(), None);
    assert_eq!(*m.get_state(), ListState { offset: 0, selected: None });
}

#[test]
fn popup_insert_truncates_and_moves_selection() {
    let mut m: PopupMenu<u32> = PopupMenu::default();
    m.insert_field(0, 10, Some(2));
    assert_eq!(m.get_selected(), Some(&10));
    m.insert_field(1, 20, Some(2));
    m.traverse_items(Direction::DOWN);
    assert_eq!(m.get_selected(), Some(&20));
    m.insert_field(0, 5, Some(2));
    assert_eq!(m.get_list_items(), &[5, 10]);
    assert_eq!(m.get_selected(), Some(&10));
    m.insert_field(2, 7, None);
    assert_eq!(m.get_list_items(), &[5, 10, 7]);
}

#[test]
fn list_state_select_none_resets_offset() {
    let mut s = ListState::default();
    s.set_offset(4);
    s.select(Some(2));
    assert_eq!(s.offset(), 4);
    s.select(None);
    assert_eq!(s.offset(), 0);
    assert_eq!(s.selected(), None);
}

#[test]
fn key_event_is_plain_data() {
    let e = Event::Key(key(KeyCode::Char('x')));
    assert_eq!(e, Event::Key(KeyEvent { code: KeyCode::Char('x'), shift: false, press: true }));
}

#[test]
fn editor_menu_up_wraps_to_exit() {
    let mut m = PopupMenu::<String>::default().add_field("Save?".to_owned()).add_field("Exit?".to_owned());
    m.traverse_items(Direction::UP);
    assert_eq!(m.get_selected(), Some(&"Exit?".to_owned()));
    assert!(m.selected_text("Exit?"));
    assert!(!m.selected_text("Save?"));
    assert!(m.selected("Exit?".to_owned()));
    assert_eq!(m.get_list_items(), &["Save?".to_owned(), "Exit?".to_owned()]);
}

#[test]
fn law_menu_down_up_example() {
    let mut m = PopupMenu::<String>::default()
        .add_field("a".to_owned())
        .add_field("b".to_owned())
        .add_field("c".to_owned());
    for start in 0..3usize {
        while m.selected_index() != Some(start) {
            m.traverse_items(Direction::DOWN);
        }
        m.traverse_items(Direction::DOWN);
        m.traverse_items(Direction::UP);
        assert_eq!(m.selected_index(), Some(start));
    }
    assert!(!PopupMenu::<String>::default().selected_text("a"));
}
