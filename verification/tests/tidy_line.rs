use tide::events::{KeyCode, KeyEvent};
use tide::tidy::App;

fn key(code: KeyCode) -> KeyEvent {
    KeyEvent { code, shift: false, press: true }
}

#[test]
fn typing_with_multibyte_characters() {
    let mut app = App::new();
    for c in "héllo".chars() {
        app.enter_char(c);
    }
    assert_eq!(app.input(), "héllo");
    app.handle_key_event(key(KeyCode::Backspace));
    assert_eq!(app.input(), "héll");
    app.enter_char('!');
    assert_eq!(app.input(), "héll!");
}

#[test]
fn delete_at_start_does_nothing() {
    let mut app = App::new();
    app.delete_char();
    assert_eq!(app.input(), "");
}

#[test]
fn enter_hands_back_words_and_clears() {
    let mut app = App::new();
    for c in " ls  -a ".chars() {
        app.handle_key_event(key(KeyCode::Char(c)));
    }
    let argv = app.handle_key_event(key(KeyCode::Enter));
    assert_eq!(argv, Some(vec!["ls".to_string(), "-a".to_string()]));
    assert_eq!(app.input(), "");
    assert!(app.handle_key_event(key(KeyCode::Tab)).is_none());
    app.handle_key_event(key(KeyCode::Esc));
    assert!(app.exit_requested());
}

#[test]
fn output_chunks_are_kept() {
    let mut app = App::new();
    app.push_output("a".to_string());
    app.push_output("b\n".to_string());
    assert_eq!(app.output(), &["a".to_string(), "b\n".to_string()]);
}

#[test]
fn law_tidy_type_then_delete_example() {
    let mut app = App::new();
    for c in "hé".chars() {
        app.handle_key_event(key(KeyCode::Char(c)));
    }
    app.handle_key_event(key(KeyCode::Char('x')));
    assert_eq!(app.input(), "héx");
    app.handle_key_event(key(KeyCode::Backspace));
    assert_eq!(app.input(), "hé");
    assert!(!app.exit_requested());
}
