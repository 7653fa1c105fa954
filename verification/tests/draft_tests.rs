use dsh_tui::draft::{Draft, KeyCode, KeyPress};

fn key(code: KeyCode) -> KeyPress {
    KeyPress { code, ctrl: false, alt: false }
}

fn typed(text: &str) -> Draft {
    let mut d = Draft::new();
    for c in text.chars() {
        d.handle_key(key(KeyCode::Char(c)));
    }
    d
}

#[test]
fn new_draft_is_empty() {
    let d = Draft::new();
    assert_eq!(d.text(), "");
    assert_eq!(d.cursor(), (0, 0));
}

#[test]
fn set_text_then_text_reads_it_back() {
    let mut d = Draft::new();
    d.set_text("one\ntwo 😀");
    assert_eq!(d.text(), "one\ntwo 😀");
    assert_eq!(d.cursor(), (1, 5));
    d.set_text("");
    assert_eq!(d.text(), "");
    assert_eq!(d.cursor(), (0, 0));
    d.set_text("a\n");
    assert_eq!(d.text(), "a\n");
    assert_eq!(d.cursor(), (1, 0));
}

#[test]
fn take_text_returns_and_clears() {
    let mut d = typed("hello");
    assert_eq!(d.take_text(), "hello");
    assert_eq!(d.text(), "");
    assert_eq!(d.cursor(), (0, 0));
}

#[test]
fn typing_inserts_at_the_cursor() {
    let mut d = typed("ac");
    d.handle_key(key(KeyCode::Left));
    d.handle_key(key(KeyCode::Char('b')));
    assert_eq!(d.text(), "abc");
    assert_eq!(d.cursor(), (0, 2));
}

#[test]
fn control_characters_are_not_typed() {
    let mut d = typed("a");
    d.handle_key(key(KeyCode::Char('\u{1b}')));
    d.handle_key(key(KeyCode::Char('\n')));
    assert_eq!(d.text(), "a");
    assert_eq!(d.cursor(), (0, 1));
}

#[test]
fn keys_with_ctrl_or_alt_do_not_edit() {
    let mut d = typed("a");
    d.handle_key(KeyPress { code: KeyCode::Char('x'), ctrl: true, alt: false });
    d.handle_key(KeyPress { code: KeyCode::Backspace, ctrl: false, alt: true });
    assert_eq!(d.text(), "a");
}

#[test]
fn a_combining_mark_joins_the_cluster_before_it() {
    let d = typed("e\u{301}");
    assert_eq!(d.text(), "e\u{301}");
    assert_eq!(d.cursor(), (0, 1));
}

#[test]
fn backspace_removes_a_whole_cluster() {
    let mut d = typed("ab");
    d.insert_inline("👩\u{200d}💻");
    assert_eq!(d.cursor(), (0, 3));
    d.handle_key(key(KeyCode::Backspace));
    assert_eq!(d.text(), "ab");
    assert_eq!(d.cursor(), (0, 2));
}

#[test]
fn delete_removes_the_cluster_at_the_cursor() {
    let mut d = typed("a😀b");
    d.handle_key(key(KeyCode::Home));
    d.handle_key(key(KeyCode::Right));
    d.handle_key(key(KeyCode::Delete));
    assert_eq!(d.text(), "ab");
    assert_eq!(d.cursor(), (0, 1));
    d.handle_key(key(KeyCode::End));
    d.handle_key(key(KeyCode::Delete));
    assert_eq!(d.text(), "ab");
}

#[test]
fn backspace_at_line_start_joins_lines() {
    let mut d = Draft::new();
    d.set_text("ab\ncd");
    d.handle_key(key(KeyCode::Home));
    d.handle_key(key(KeyCode::Backspace));
    assert_eq!(d.text(), "abcd");
    assert_eq!(d.cursor(), (0, 2));
}

#[test]
fn delete_at_line_end_joins_the_next_line() {
    let mut d = Draft::new();
    d.set_text("ab\ncd");
    d.handle_key(key(KeyCode::Up));
    d.handle_key(key(KeyCode::End));
    d.handle_key(key(KeyCode::Delete));
    assert_eq!(d.text(), "abcd");
    assert_eq!(d.cursor(), (0, 2));
}

#[test]
fn cursor_moves_across_lines() {
    let mut d = Draft::new();
    d.set_text("abc\nd");
    assert_eq!(d.cursor(), (1, 1));
    d.handle_key(key(KeyCode::Left));
    d.handle_key(key(KeyCode::Left));
    assert_eq!(d.cursor(), (0, 3));
    d.handle_key(key(KeyCode::Right));
    assert_eq!(d.cursor(), (1, 0));
    d.handle_key(key(KeyCode::End));
    d.handle_key(key(KeyCode::Up));
    assert_eq!(d.cursor(), (0, 1));
    d.handle_key(key(KeyCode::Up));
    assert_eq!(d.cursor(), (0, 1));
    d.handle_key(key(KeyCode::End));
    d.handle_key(key(KeyCode::Down));
    assert_eq!(d.cursor(), (1, 1));
    d.handle_key(key(KeyCode::Down));
    assert_eq!(d.cursor(), (1, 1));
}

#[test]
fn insert_inline_drops_control_characters_but_keeps_tabs() {
    let mut d = typed("x");
    d.insert_inline("a\u{7}b\tc");
    assert_eq!(d.text(), "xab\tc");
    assert_eq!(d.cursor(), (0, 5));
    d.insert_inline("\u{7}");
    assert_eq!(d.text(), "xab\tc");
}
