use snippets::app::{cursor_column_for, Action, App, Key, Mode};

fn type_text(app: &mut App, text: &str) {
    for c in text.chars() {
        assert_eq!(app.handle_key(Key::Char(c)), Action::Continue);
    }
}

#[test]
fn starts_in_normal_mode_and_empty() {
    let app = App::default();
    assert_eq!(app.mode(), Mode::Normal);
    assert_eq!(app.input(), "");
    assert!(app.messages().is_empty());
}

#[test]
fn normal_mode_ignores_all_but_e_and_q() {
    let mut app = App::default();
    for key in [Key::Char('x'), Key::Enter, Key::Backspace, Key::Esc, Key::Other] {
        assert_eq!(app.handle_key(key), Action::Continue);
        assert_eq!(app.mode(), Mode::Normal);
        assert_eq!(app.input(), "");
    }
    assert_eq!(app.handle_key(Key::Char('q')), Action::Quit);
    assert_eq!(app.mode(), Mode::Normal);
}

#[test]
fn editing_collects_and_enters_text() {
    let mut app = App::default();
    assert_eq!(app.handle_key(Key::Char('e')), Action::Continue);
    assert_eq!(app.mode(), Mode::Editing);
    type_text(&mut app, "quiet");
    assert_eq!(app.input(), "quiet");
    assert_eq!(app.handle_key(Key::Backspace), Action::Continue);
    assert_eq!(app.input(), "quie");
    assert_eq!(app.handle_key(Key::Other), Action::Continue);
    assert_eq!(app.handle_key(Key::Enter), Action::Continue);
    assert_eq!(app.input(), "");
    assert_eq!(app.messages(), &vec!["quie".to_string()]);
    type_text(&mut app, "e\u{e9}");
    assert_eq!(app.handle_key(Key::Enter), Action::Continue);
    assert_eq!(app.messages(), &vec!["quie".to_string(), "e\u{e9}".to_string()]);
    assert_eq!(app.mode(), Mode::Editing);
}

#[test]
fn backspace_on_empty_input_changes_nothing() {
    let mut app = App::default();
    app.handle_key(Key::Char('e'));
    assert_eq!(app.handle_key(Key::Backspace), Action::Continue);
    assert_eq!(app.input(), "");
    assert_eq!(app.mode(), Mode::Editing);
}

#[test]
fn escape_returns_to_normal_and_keeps_the_input() {
    let mut app = App::default();
    app.handle_key(Key::Char('e'));
    type_text(&mut app, "ab");
    assert_eq!(app.handle_key(Key::Esc), Action::Continue);
    assert_eq!(app.mode(), Mode::Normal);
    assert_eq!(app.input(), "ab");
    assert_eq!(app.handle_key(Key::Char('q')), Action::Quit);
}

#[test]
fn cursor_stands_one_past_the_text() {
    let mut app = App::default();
    assert_eq!(app.cursor_column(0), 1);
    assert_eq!(app.cursor_column(2), 3);
    app.handle_key(Key::Char('e'));
    type_text(&mut app, "ab");
    assert_eq!(app.cursor_column(2), 5);
}

#[test]
fn cursor_counts_columns_not_characters() {
    let mut app = App::default();
    app.handle_key(Key::Char('e'));
    type_text(&mut app, "\u{65e5}\u{672c}");
    assert_eq!(app.cursor_column(2), 7);
}

#[test]
fn cursor_stops_at_the_last_column() {
    let mut app = App::default();
    app.handle_key(Key::Char('e'));
    type_text(&mut app, "abc");
    assert_eq!(app.cursor_column(u16::MAX), u16::MAX);
    assert_eq!(app.cursor_column(u16::MAX - 3), u16::MAX);
    assert_eq!(app.cursor_column(u16::MAX - 4), u16::MAX);
    assert_eq!(app.cursor_column(u16::MAX - 5), u16::MAX - 1);
}

#[test]
fn cursor_column_for_adds_frame_width_and_one() {
    assert_eq!(cursor_column_for(0, 0), 1);
    assert_eq!(cursor_column_for(2, 10), 13);
    assert_eq!(cursor_column_for(65000, 534), 65535);
    assert_eq!(cursor_column_for(65000, 535), 65535);
    assert_eq!(cursor_column_for(65000, 533), 65534);
    assert_eq!(cursor_column_for(7, usize::MAX), u16::MAX);
}
