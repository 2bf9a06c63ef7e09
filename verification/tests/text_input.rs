use hot_latex::text_input::TextInput;
use hot_latex::ui::Key;

fn typed(s: &str) -> TextInput {
    let mut t = TextInput::new();
    for c in s.chars() {
        assert!(t.can_take(Key::Char(c)));
        assert!(!t.on_key(Key::Char(c)));
    }
    t
}

#[test]
fn typing_appends_and_cursor_rests_on_last_byte() {
    let t = typed("abc");
    assert_eq!(t.to_text(), "abc");
    assert_eq!(t.cursor(), 2);
    assert_eq!(t.byte_count(), 3);
}

#[test]
fn first_char_puts_cursor_at_zero() {
    let t = typed("a");
    assert_eq!(t.cursor(), 0);
}

#[test]
fn enter_on_empty_warns_then_finishes() {
    let mut t = TextInput::new();
    assert!(!t.on_key(Key::Enter));
    assert!(t.is_warning_shown());
    assert!(t.on_key(Key::Enter));
    assert_eq!(t.to_text(), "");
}

#[test]
fn enter_with_text_finishes() {
    let mut t = typed("x");
    assert!(t.on_key(Key::Enter));
    assert_eq!(t.to_text(), "x");
}

#[test]
fn typing_takes_warning_down() {
    let mut t = TextInput::new();
    t.on_key(Key::Enter);
    t.on_key(Key::Char('a'));
    assert!(!t.is_warning_shown());
    t.on_key(Key::Backspace);
    assert!(!t.on_key(Key::Enter));
    assert!(t.is_warning_shown());
}

#[test]
fn backspace_undoes_typing_at_end() {
    let mut t = typed("ab");
    t.on_key(Key::Char('c'));
    t.on_key(Key::Backspace);
    assert_eq!(t.to_text(), "ab");
    assert_eq!(t.cursor(), 1);
}

#[test]
fn backspace_deletes_char_under_cursor() {
    let mut t = typed("abc");
    t.on_key(Key::Left);
    assert_eq!(t.cursor(), 1);
    t.on_key(Key::Backspace);
    assert_eq!(t.to_text(), "ac");
    assert_eq!(t.cursor(), 1);
}

#[test]
fn backspace_on_empty_does_nothing() {
    let mut t = TextInput::new();
    assert!(t.can_take(Key::Backspace));
    t.on_key(Key::Backspace);
    assert_eq!(t.to_text(), "");
    assert_eq!(t.cursor(), 0);
}

#[test]
fn insert_goes_after_cursor() {
    let mut t = typed("abc");
    t.on_key(Key::Left);
    t.on_key(Key::Left);
    assert_eq!(t.cursor(), 0);
    t.on_key(Key::Char('x'));
    assert_eq!(t.to_text(), "axbc");
    assert_eq!(t.cursor(), 1);
    t.on_key(Key::Char(' '));
    assert_eq!(t.to_text(), "ax bc");
    assert_eq!(t.cursor(), 2);
}

#[test]
fn left_and_right_stop_at_the_ends() {
    let mut t = typed("ab");
    t.on_key(Key::Right);
    assert_eq!(t.cursor(), 1);
    t.on_key(Key::Left);
    t.on_key(Key::Left);
    t.on_key(Key::Left);
    assert_eq!(t.cursor(), 0);
    t.on_key(Key::Right);
    assert_eq!(t.cursor(), 1);
}

#[test]
fn other_keys_change_nothing() {
    let mut t = typed("ab");
    t.on_key(Key::Up);
    t.on_key(Key::Down);
    t.on_key(Key::Other);
    assert_eq!(t.to_text(), "ab");
    assert_eq!(t.cursor(), 1);
}

#[test]
fn cursor_counts_bytes_for_wide_chars() {
    let t = typed("é");
    assert_eq!(t.byte_count(), 2);
    assert_eq!(t.cursor(), 1);
    assert_eq!(t.to_text(), "é");
    // the cursor is a byte position, so no character has index 1
    assert!(!t.can_take(Key::Backspace));
}

#[test]
fn insert_inside_a_wide_char_is_refused() {
    let mut t = typed("éa");
    t.on_key(Key::Left);
    t.on_key(Key::Left);
    assert_eq!(t.cursor(), 0);
    // byte 1 falls inside 'é'
    assert!(!t.can_take(Key::Char('x')));
    t.on_key(Key::Right);
    assert_eq!(t.cursor(), 1);
    // byte 2 falls between 'é' and 'a'
    assert!(t.can_take(Key::Char('x')));
    t.on_key(Key::Char('x'));
    assert_eq!(t.to_text(), "éxa");
}
