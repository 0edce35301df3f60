use modal_edit::cursor_actions::CursorAction;
use modal_edit::editor::{scroll_offset, Editor, EditorMode, Effect, Key, LogMessage};
use modal_edit::position::{CursorDirection, Position};
use modal_edit::text_actions::TextAction;

fn editor(text: &str) -> Editor {
    Editor::new(Some("notes.txt".to_string()), Some(text.to_string()))
}

fn at(x: u16, y: u16) -> Position {
    Position { x, y }
}

fn keys(e: &mut Editor, s: &str) -> Vec<Effect> {
    s.chars().map(|c| e.handle_key_event(Key::Char(c))).collect()
}

#[test]
fn offsets_count_utf8_bytes() {
    let e = editor("aé\nxyz\n");
    assert_eq!(e.get_byte_offset(at(0, 0)), 0);
    assert_eq!(e.get_byte_offset(at(1, 0)), 1);
    assert_eq!(e.get_byte_offset(at(2, 0)), 3);
    assert_eq!(e.get_byte_offset(at(9, 0)), 3);
    assert_eq!(e.get_byte_offset(at(1, 1)), 5);
    assert_eq!(e.get_byte_offset(at(0, 2)), 8);
    assert_eq!(editor("ab").get_byte_offset(at(0, 1)), 3);
}

#[test]
fn insert_splits_lines() {
    let mut e = editor("abcd");
    e.insert_char(at(2, 0), '\n');
    assert_eq!(e.text(), "ab\ncd");
    e.insert_char(at(5, 1), '!');
    assert_eq!(e.text(), "ab\ncd!");
    e.insert_char(at(0, 7), '?');
    assert_eq!(e.text(), "ab\ncd!?");
}

#[test]
fn insert_then_delete_restores_text() {
    for (text, p) in [("ab\ncd", at(1, 1)), ("ab\ncd", at(2, 0)), ("", at(0, 0)), ("xy\n", at(0, 1)), ("é", at(0, 3))] {
        for c in ['q', '\n', 'ß'] {
            let mut e = editor(text);
            e.insert_char(p, c);
            e.remove_char(p);
            assert_eq!(e.text(), text);
        }
    }
}

#[test]
fn delete_past_end_removes_last_character() {
    let mut e = editor("ab\ncd");
    e.remove_char(at(0, 5));
    assert_eq!(e.text(), "ab\nc");
    e.remove_char(at(1, 0));
    assert_eq!(e.text(), "a\nc");
    let mut empty = editor("");
    empty.remove_char(at(0, 0));
    assert_eq!(empty.text(), "");
}

#[test]
fn vertical_moves_stop_at_the_edges() {
    let mut e = editor("abc\nd");
    e.cursor = at(2, 0);
    e.move_cursor(CursorDirection::Up);
    assert_eq!(e.cursor, at(2, 0));
    e.cursor = at(1, 3);
    e.move_cursor(CursorDirection::Down);
    assert_eq!(e.cursor, at(1, 3));
    e.cursor = at(1, 2);
    e.move_cursor(CursorDirection::Down);
    assert_eq!(e.cursor, at(0, 3));
}

#[test]
fn vertical_moves_clamp_the_column() {
    let mut e = editor("abcdef\nab\nabcd");
    e.cursor = at(5, 0);
    e.move_cursor(CursorDirection::Down);
    assert_eq!(e.cursor, at(2, 1));
    e.move_cursor(CursorDirection::Down);
    assert_eq!(e.cursor, at(2, 2));
    e.cursor = at(3, 2);
    e.move_cursor(CursorDirection::Up);
    assert_eq!(e.cursor, at(2, 1));
}

#[test]
fn horizontal_moves_wrap_lines() {
    let mut e = editor("ab\ncde");
    e.cursor = at(0, 1);
    e.move_cursor(CursorDirection::Left);
    assert_eq!(e.cursor, at(2, 0));
    e.move_cursor(CursorDirection::Right);
    assert_eq!(e.cursor, at(0, 1));
    e.cursor = at(0, 0);
    e.move_cursor(CursorDirection::Left);
    assert_eq!(e.cursor, at(0, 0));
    e.cursor = at(3, 1);
    e.move_cursor(CursorDirection::Right);
    assert_eq!(e.cursor, at(0, 2));
}

#[test]
fn word_motion_on_a_line() {
    let mut e = editor("ab cd");
    e.handle_key_event(Key::Char('e'));
    assert_eq!(e.cursor, at(2, 0));
    e.handle_key_event(Key::Char('b'));
    assert_eq!(e.cursor, at(0, 0));
    e.cursor = at(5, 0);
    e.handle_key_event(Key::Char('b'));
    assert_eq!(e.cursor, at(3, 0));
    e.cursor = at(2, 0);
    e.handle_key_event(Key::Char('e'));
    assert_eq!(e.cursor, at(3, 0));
}

#[test]
fn line_queries() {
    let mut e = editor("one\ntwo\n");
    e.cursor = at(0, 1);
    assert_eq!(e.line_at_cursor().iter().collect::<String>(), "two");
    assert_eq!(e.line_from_cursor(-1).iter().collect::<String>(), "one");
    assert!(e.line_from_cursor(1).is_empty());
    e.cursor = at(0, 3);
    assert!(e.cursor_at_end_of_file());
    e.cursor = at(0, 2);
    assert!(!e.cursor_at_end_of_file());
}

#[test]
fn save_command_asks_for_one_save() {
    let mut e = editor("hello\nworld");
    let mut effects = keys(&mut e, ":w");
    effects.push(e.handle_key_event(Key::Enter));
    assert_eq!(effects.iter().filter(|f| **f == Effect::Save).count(), 1);
    assert_eq!(effects.last(), Some(&Effect::Save));
    assert_eq!(e.text(), "hello\nworld");
    assert_eq!(e.mode, EditorMode::Normal);
    assert!(e.command.is_empty());
    assert!(!e.exit);
}

#[test]
fn quit_and_save_quit_commands() {
    let mut e = editor("x");
    keys(&mut e, ":q");
    assert_eq!(e.handle_key_event(Key::Enter), Effect::Nothing);
    assert!(e.exit);
    let mut e = editor("x");
    keys(&mut e, ": x ");
    assert_eq!(e.handle_key_event(Key::Enter), Effect::Save);
    assert!(e.exit);
    let mut e = editor("x");
    keys(&mut e, ":nope");
    assert_eq!(e.handle_key_event(Key::Enter), Effect::Nothing);
    assert!(!e.exit);
    assert_eq!(e.mode, EditorMode::Normal);
}

#[test]
fn theme_command_sets_theme_path() {
    let mut e = editor("");
    keys(&mut e, ":theme dark");
    e.handle_key_event(Key::Enter);
    assert_eq!(e.theme_path, "theme/dark.toml");
    e.set_theme(None);
    assert_eq!(e.theme_path, "theme/default.toml");
}

#[test]
fn command_editing_and_escape() {
    let mut e = editor("");
    keys(&mut e, ":ab");
    e.handle_key_event(Key::Backspace);
    assert_eq!(e.command, vec!['a']);
    e.handle_key_event(Key::Esc);
    assert!(e.command.is_empty());
    assert_eq!(e.mode, EditorMode::Normal);
    keys(&mut e, ":e");
    e.handle_key_event(Key::Enter);
    assert!(matches!(&e.message_queue, LogMessage::Error(m) if m == "aaaa"));
}

#[test]
fn insert_mode_typing() {
    let mut e = editor("ac");
    keys(&mut e, "li");
    assert_eq!(e.mode, EditorMode::Insert);
    e.handle_key_event(Key::Char('b'));
    assert_eq!(e.text(), "abc");
    assert_eq!(e.cursor, at(2, 0));
    e.handle_key_event(Key::Enter);
    assert_eq!(e.text(), "ab\nc");
    assert_eq!(e.cursor, at(0, 1));
    e.handle_key_event(Key::Backspace);
    assert_eq!(e.text(), "abc");
    assert_eq!(e.cursor, at(2, 0));
    e.handle_key_event(Key::Backspace);
    assert_eq!(e.text(), "ac");
    assert_eq!(e.cursor, at(1, 0));
    e.handle_key_event(Key::Esc);
    assert_eq!(e.mode, EditorMode::Normal);
}

#[test]
fn open_lines_and_append() {
    let mut e = editor("ab\ncd");
    keys(&mut e, "o");
    assert_eq!(e.text(), "ab\n\ncd");
    assert_eq!(e.cursor, at(0, 1));
    assert_eq!(e.mode, EditorMode::Insert);
    let mut e = editor("ab\ncd");
    e.cursor = at(0, 1);
    keys(&mut e, "O");
    assert_eq!(e.text(), "ab\n\ncd");
    let mut e = editor("ab");
    keys(&mut e, "O");
    assert_eq!(e.text(), "\nab");
    let mut e = editor("abé");
    keys(&mut e, "A");
    assert_eq!(e.cursor, at(3, 0));
    assert_eq!(e.mode, EditorMode::Insert);
}

#[test]
fn normal_mode_keys() {
    let mut e = editor("abc\ndef");
    keys(&mut e, "jll");
    assert_eq!(e.cursor, at(2, 1));
    keys(&mut e, "d");
    assert_eq!(e.text(), "abc\nde");
    keys(&mut e, "0");
    assert_eq!(e.cursor, at(0, 1));
    keys(&mut e, "l");
    keys(&mut e, "g");
    assert_eq!(e.cursor, at(1, 1));
    keys(&mut e, "g");
    assert_eq!(e.cursor, at(0, 0));
    keys(&mut e, "v");
    assert_eq!(e.mode, EditorMode::Visual);
    keys(&mut e, "j");
    assert_eq!(e.cursor, at(0, 0));
    keys(&mut e, "v");
    assert_eq!(e.mode, EditorMode::Normal);
    keys(&mut e, "q");
    assert!(e.exit);
}

#[test]
fn key_history_is_bounded() {
    let mut e = editor("");
    for _ in 0..200 {
        e.handle_key_event(Key::Other);
    }
    e.handle_key_event(Key::Char('g'));
    assert!(e.keyhistory.len() <= 64);
    assert_eq!(e.keyhistory.last(), Some(&Key::Char('g')));
}

#[test]
fn scratch_buffer_and_unreadable_file() {
    let e = Editor::new(None, None);
    assert_eq!(e.file_path, "[scratch]");
    assert_eq!(e.text(), "");
    let e = Editor::new(Some("gone.txt".to_string()), None);
    assert_eq!(e.file_path, "gone.txt");
    assert_eq!(e.text(), "");
}

#[test]
fn scroll_keeps_cursor_in_view() {
    assert_eq!(scroll_offset(0, 10), 0);
    assert_eq!(scroll_offset(9, 10), 0);
    assert_eq!(scroll_offset(10, 10), 1);
    assert_eq!(scroll_offset(30, 5), 26);
    assert_eq!(scroll_offset(u16::MAX, 0), u16::MAX);
}
