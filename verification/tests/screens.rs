use hot_latex::checkbox::CheckBox;
use hot_latex::ui::{ConfirmScreen, Key, SelectScreen};

#[test]
fn confirm_starts_on_first_and_enter_answers_it() {
    let mut s = ConfirmScreen::new();
    assert!(s.is_first_highlighted());
    assert_eq!(s.on_key(Key::Enter), Some(true));
}

#[test]
fn confirm_switch_keys_flip_the_highlight() {
    for key in [Key::Left, Key::Right, Key::Char('j'), Key::Char('k')] {
        let mut s = ConfirmScreen::new();
        assert_eq!(s.on_key(key), None);
        assert!(!s.is_first_highlighted());
        assert_eq!(s.on_key(Key::Enter), Some(false));
    }
}

#[test]
fn confirm_switching_twice_restores() {
    let mut s = ConfirmScreen::new();
    s.on_key(Key::Left);
    s.on_key(Key::Char('k'));
    assert!(s.is_first_highlighted());
}

#[test]
fn confirm_other_keys_change_nothing() {
    let mut s = ConfirmScreen::new();
    assert_eq!(s.on_key(Key::Up), None);
    assert_eq!(s.on_key(Key::Char('x')), None);
    assert_eq!(s.on_key(Key::Backspace), None);
    assert!(s.is_first_highlighted());
}

#[test]
fn menu_down_wraps_to_first() {
    let mut m = SelectScreen::new(3);
    m.on_key(Key::Down);
    assert_eq!(m.cursor(), 1);
    m.on_key(Key::Char('k'));
    assert_eq!(m.cursor(), 2);
    m.on_key(Key::Down);
    assert_eq!(m.cursor(), 0);
}

#[test]
fn menu_up_from_first_goes_past_the_last() {
    let mut m = SelectScreen::new(3);
    m.on_key(Key::Up);
    assert_eq!(m.cursor(), 3);
    assert!(!m.can_take(Key::Enter));
    m.on_key(Key::Char('j'));
    assert_eq!(m.cursor(), 2);
}

#[test]
fn menu_down_undoes_up() {
    for start in 0..4 {
        let mut m = SelectScreen::new(4);
        for _ in 0..start {
            m.on_key(Key::Down);
        }
        m.on_key(Key::Up);
        m.on_key(Key::Down);
        assert_eq!(m.cursor(), start);
    }
}

#[test]
fn menu_enter_chooses_highlighted() {
    let mut m = SelectScreen::new(2);
    m.on_key(Key::Down);
    assert_eq!(m.on_key(Key::Enter), Some(1));
}

#[test]
fn menu_empty_refuses_up_and_enter() {
    let mut m = SelectScreen::new(0);
    assert!(!m.can_take(Key::Up));
    assert!(!m.can_take(Key::Char('j')));
    assert!(!m.can_take(Key::Enter));
    assert!(m.can_take(Key::Down));
    assert_eq!(m.on_key(Key::Down), None);
    assert_eq!(m.cursor(), 0);
    assert_eq!(m.len(), 0);
}

#[test]
fn checkbox_moves_and_clamps() {
    let mut b = CheckBox::with_all(vec!["a", "b", "c"], false);
    assert_eq!(b.row(), 0);
    b.on_key(Key::Up);
    assert_eq!(b.row(), 0);
    b.on_key(Key::Down);
    b.on_key(Key::Char('k'));
    assert_eq!(b.row(), 2);
    b.on_key(Key::Down);
    assert_eq!(b.row(), 2);
    b.on_key(Key::Char('j'));
    assert_eq!(b.row(), 1);
}

#[test]
fn checkbox_flip_twice_restores() {
    let mut b = CheckBox::with_marks(vec![1, 2, 3], vec![true, false, true]);
    b.on_key(Key::Down);
    b.on_key(Key::Char('s'));
    assert!(b.is_marked(1));
    b.on_key(Key::Char('s'));
    assert!(!b.is_marked(1));
    assert!(b.is_marked(0));
    assert!(b.is_marked(2));
}

#[test]
fn checkbox_enter_with_nothing_marked_warns_first() {
    let mut b = CheckBox::with_all(vec!["a", "b"], false);
    assert!(!b.on_key(Key::Enter));
    assert!(b.is_warning_shown());
    assert!(b.on_key(Key::Enter));
    assert_eq!(b.finish(false), Vec::<&str>::new());
}

#[test]
fn checkbox_flip_takes_warning_down() {
    let mut b = CheckBox::with_all(vec!["a", "b"], false);
    b.on_key(Key::Enter);
    assert!(b.is_warning_shown());
    b.on_key(Key::Char('s'));
    b.on_key(Key::Char('s'));
    assert!(!b.is_warning_shown());
    assert!(!b.on_key(Key::Enter));
}

#[test]
fn checkbox_moving_keeps_the_warning() {
    let mut b = CheckBox::with_all(vec!["a", "b"], false);
    b.on_key(Key::Enter);
    b.on_key(Key::Down);
    assert!(b.is_warning_shown());
    assert!(b.on_key(Key::Enter));
}

#[test]
fn checkbox_enter_with_marks_finishes_at_once() {
    let mut b = CheckBox::with_all(vec!["a"], true);
    assert!(b.on_key(Key::Enter));
    assert!(!b.is_warning_shown());
}

#[test]
fn checkbox_finish_keeps_marked_in_order() {
    let b = CheckBox::with_marks(vec!["a", "b", "c", "d"], vec![true, false, false, true]);
    assert_eq!(b.finish(false), vec!["a", "d"]);
}

#[test]
fn checkbox_finish_keep_unmarked_returns_all() {
    let b = CheckBox::with_marks(vec!["a", "b", "c"], vec![false, true, false]);
    assert_eq!(b.finish(true), vec!["a", "b", "c"]);
}

#[test]
fn checkbox_empty_refuses_flip() {
    let mut b: CheckBox<u8> = CheckBox::with_all(Vec::new(), true);
    assert!(!b.can_take(Key::Char('s')));
    assert!(b.can_take(Key::Down));
    b.on_key(Key::Down);
    assert_eq!(b.row(), 0);
    assert!(!b.on_key(Key::Enter));
    assert!(b.on_key(Key::Enter));
    assert!(b.finish(true).is_empty());
}

#[test]
fn checkbox_item_and_len() {
    let b = CheckBox::with_all(vec![10, 20], true);
    assert_eq!(b.len(), 2);
    assert_eq!(*b.item(1), 20);
    assert!(b.has_marked());
}
