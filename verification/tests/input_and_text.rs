use tide::events::{Event, KeyCode, KeyEvent};
use tide::input::Input;
use tide::text::{
    boundary_at, chars_of, decimal_string, has_one_equals_sign, join, join_path, lines, parse_u16, parse_u64, split_at_equals,
    split_whitespace, utf8_len,
};

fn press(input: &mut Input, code: KeyCode) {
    input.handle_event(&Event::Key(KeyEvent { code, shift: false, press: true }));
}

fn type_str(input: &mut Input, s: &str) {
    for c in s.chars() {
        press(input, KeyCode::Char(c));
    }
}

#[test]
fn new_input_is_empty() {
    let mut input = Input::new();
    assert_eq!(input.get_input_to_render(), "");
    assert_eq!(input.get_cursor_position(), 0);
    assert_eq!(input.pop_command(), None);
}

#[test]
fn typing_and_entering_queues_commands_in_order() {
    let mut input = Input::new();
    type_str(&mut input, "ls -l");
    assert_eq!(input.get_input_to_render(), "ls -l");
    press(&mut input, KeyCode::Enter);
    assert_eq!(input.get_input_to_render(), "");
    type_str(&mut input, "pwd");
    press(&mut input, KeyCode::Enter);
    assert_eq!(input.pop_command(), Some("ls -l".to_string()));
    assert_eq!(input.pop_command(), Some("pwd".to_string()));
    assert_eq!(input.pop_command(), None);
}

#[test]
fn arrows_walk_history_and_cursor() {
    let mut input = Input::new();
    type_str(&mut input, "abc");
    press(&mut input, KeyCode::Enter);
    press(&mut input, KeyCode::Up);
    assert_eq!(input.get_input_to_render(), "abc");
    press(&mut input, KeyCode::Down);
    assert_eq!(input.get_input_to_render(), "");
    press(&mut input, KeyCode::Down);
    assert_eq!(input.get_input_to_render(), "");
    press(&mut input, KeyCode::Left);
    assert_eq!(input.get_cursor_position(), 0);
}

#[test]
fn insert_at_cursor_after_moving_left() {
    let mut input = Input::new();
    type_str(&mut input, "ac");
    press(&mut input, KeyCode::Left);
    press(&mut input, KeyCode::Char('b'));
    assert_eq!(input.get_input_to_render(), "abc");
    assert_eq!(input.get_cursor_position(), 2);
}

#[test]
fn backspace_removes_character_at_cursor() {
    let mut input = Input::new();
    type_str(&mut input, "abc");
    press(&mut input, KeyCode::Left);
    press(&mut input, KeyCode::Left);
    press(&mut input, KeyCode::Backspace);
    assert_eq!(input.get_input_to_render(), "ac");
    assert_eq!(input.get_cursor_position(), 0);
}

#[test]
fn right_arrow_stops_before_last_byte() {
    let mut input = Input::new();
    type_str(&mut input, "ab");
    press(&mut input, KeyCode::Left);
    press(&mut input, KeyCode::Left);
    press(&mut input, KeyCode::Right);
    assert_eq!(input.get_cursor_position(), 1);
    press(&mut input, KeyCode::Right);
    assert_eq!(input.get_cursor_position(), 1);
}

#[test]
fn other_events_are_ignored() {
    let mut input = Input::new();
    input.handle_event(&Event::Other);
    press(&mut input, KeyCode::Tab);
    assert_eq!(input.get_input_to_render(), "");
}

#[test]
fn decimal_strings() {
    assert_eq!(decimal_string(0), "0");
    assert_eq!(decimal_string(7), "7");
    assert_eq!(decimal_string(120), "120");
    assert_eq!(decimal_string(u64::MAX), "18446744073709551615");
}

#[test]
fn parse_u16_like_std() {
    assert_eq!(parse_u16("42"), Some(42));
    assert_eq!(parse_u16("+5"), Some(5));
    assert_eq!(parse_u16("65535"), Some(65535));
    assert_eq!(parse_u16("65536"), None);
    assert_eq!(parse_u16(""), None);
    assert_eq!(parse_u16("+"), None);
    assert_eq!(parse_u16("-1"), None);
    assert_eq!(parse_u16("1a"), None);
    for s in ["0", "17", "+9", "99999", "x", "007"] {
        assert_eq!(parse_u16(s), s.parse::<u16>().ok());
    }
}

#[test]
fn parse_u64_like_std() {
    for s in ["0", "18446744073709551615", "18446744073709551616", "12", "+3", "-3", ""] {
        assert_eq!(parse_u64(s), s.parse::<u64>().ok());
    }
}

#[test]
fn split_whitespace_like_std() {
    for s in ["", "  ", "a", " cd  /tmp ", "x\ty\nz", "a\u{3000}b"] {
        let ours = split_whitespace(s);
        let std: Vec<String> = s.split_whitespace().map(String::from).collect();
        assert_eq!(ours, std);
    }
}

#[test]
fn join_and_chars() {
    let v = vec!["a".to_string(), "bc".to_string(), "".to_string()];
    assert_eq!(join(&v, " "), "a bc ");
    assert_eq!(join(&[], "-"), "");
    assert_eq!(chars_of("héllo"), vec!['h', 'é', 'l', 'l', 'o']);
}

#[test]
fn split_at_the_equals_sign() {
    assert_eq!(split_at_equals("A=B"), ("A".to_string(), "B".to_string()));
    assert_eq!(split_at_equals("=x"), ("".to_string(), "x".to_string()));
    assert_eq!(split_at_equals("PATH="), ("PATH".to_string(), "".to_string()));
}

#[test]
fn joining_paths() {
    assert_eq!(join_path(b"/home/u", b"src"), b"/home/u/src".to_vec());
    assert_eq!(join_path(b"/home/u/", b"src"), b"/home/u/src".to_vec());
    assert_eq!(join_path(b"/home/u", b"/etc"), b"/etc".to_vec());
    assert_eq!(join_path(b"", b"a"), b"a".to_vec());
}

#[test]
fn utf8_offsets() {
    assert_eq!(utf8_len("aé€😀"), Some(10));
    assert_eq!(utf8_len(""), Some(0));
    assert!(boundary_at("aé", 0));
    assert!(boundary_at("aé", 1));
    assert!(!boundary_at("aé", 2));
    assert!(boundary_at("aé", 3));
    assert!(!boundary_at("aé", 4));
    assert!(has_one_equals_sign("A=1"));
    assert!(!has_one_equals_sign("A"));
    assert!(!has_one_equals_sign("A==1"));
}

#[test]
fn command_line_accepts_keys_at_boundaries() {
    let mut input = Input::new();
    assert!(!input.accepts(KeyCode::Right));
    assert!(input.accepts(KeyCode::Char('x')));
    assert!(input.accepts(KeyCode::Backspace));
    type_str(&mut input, "é");
    // The cursor counts one step per character, so it now sits inside "é".
    assert!(!input.accepts(KeyCode::Char('x')));
    assert!(input.accepts(KeyCode::Right));
    press(&mut input, KeyCode::Left);
    assert!(input.accepts(KeyCode::Char('x')));
}

#[test]
fn law_enter_queues_line_example() {
    let mut input = Input::new();
    type_str(&mut input, "ls");
    press(&mut input, KeyCode::Enter);
    assert_eq!(input.get_input_to_render(), "");
    type_str(&mut input, "pwd");
    press(&mut input, KeyCode::Enter);
    assert_eq!(input.pop_command(), Some("ls".to_string()));
    assert_eq!(input.pop_command(), Some("pwd".to_string()));
    assert_eq!(input.pop_command(), None);
}

#[test]
fn lines_like_std() {
    for text in ["foo\nbar\n\r\nbaz\r", "", "\n", "a\r\n", "a\rb\n", "\r\n\r\n", "x", "é\nü\r\n"] {
        let expected: Vec<String> = text.lines().map(String::from).collect();
        assert_eq!(lines(text), expected, "{:?}", text);
    }
    assert_eq!(lines("foo\nbar\n\r\nbaz\r"), vec!["foo", "bar", "", "baz\r"]);
}

#[test]
fn law_input_step_shape_example() {
    let mut input = Input::new();
    type_str(&mut input, "a");
    press(&mut input, KeyCode::Enter);
    type_str(&mut input, "b");
    press(&mut input, KeyCode::Enter);
    press(&mut input, KeyCode::Up);
    press(&mut input, KeyCode::Up);
    assert_eq!(input.get_input_to_render(), "a");
    // Enter on an older command queues it and moves on to the next one.
    press(&mut input, KeyCode::Enter);
    assert_eq!(input.get_input_to_render(), "b");
    assert_eq!(input.pop_command(), Some("a".to_string()));
    assert_eq!(input.pop_command(), Some("b".to_string()));
    assert_eq!(input.pop_command(), Some("a".to_string()));
}
