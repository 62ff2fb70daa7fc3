use specwriter::edit::TextBuffer;

fn text(b: &TextBuffer) -> String {
    b.text.iter().collect()
}

fn typed(s: &str) -> TextBuffer {
    let mut b = TextBuffer::new();
    for c in s.chars() {
        b.insert_char(c);
    }
    b
}

#[test]
fn insert_advances_cursor_by_utf8_length() {
    let b = typed("aé€😀");
    assert_eq!(text(&b), "aé€😀");
    assert_eq!(b.cursor_index, 4);
    assert_eq!(b.cursor_pos, 1 + 2 + 3 + 4);
}

#[test]
fn backspace_removes_previous_character() {
    let mut b = typed("hé");
    b.backspace();
    assert_eq!(text(&b), "h");
    assert_eq!(b.cursor_pos, 1);
    b.backspace();
    b.backspace();
    assert_eq!(text(&b), "");
    assert_eq!(b.cursor_pos, 0);
}

#[test]
fn delete_removes_next_character() {
    let mut b = typed("ab€");
    b.move_left();
    b.move_left();
    b.delete();
    assert_eq!(text(&b), "a€");
    assert_eq!(b.cursor_pos, 1);
    b.move_end();
    b.delete();
    assert_eq!(text(&b), "a€");
}

#[test]
fn left_and_right_move_by_characters() {
    let mut b = typed("x€");
    b.move_left();
    assert_eq!(b.cursor_pos, 1);
    b.move_left();
    assert_eq!(b.cursor_pos, 0);
    b.move_left();
    assert_eq!(b.cursor_pos, 0);
    b.move_right();
    b.move_right();
    assert_eq!(b.cursor_pos, 4);
    b.move_right();
    assert_eq!(b.cursor_pos, 4);
}

#[test]
fn home_and_end_follow_lines() {
    let mut b = typed("one\ntwo\nthree");
    b.move_home();
    assert_eq!(b.cursor_pos, 8);
    b.move_left();
    b.move_left();
    b.move_home();
    assert_eq!(b.cursor_pos, 4);
    b.move_end();
    assert_eq!(b.cursor_pos, 7);
    b.move_end();
    assert_eq!(b.cursor_pos, 7);
}

#[test]
fn newline_is_one_byte() {
    let mut b = typed("ab");
    b.move_left();
    b.insert_newline();
    assert_eq!(text(&b), "a\nb");
    assert_eq!(b.cursor_pos, 2);
}

#[test]
fn insert_then_backspace_restores() {
    let mut b = typed("héllo");
    b.move_left();
    b.move_left();
    let before = (text(&b), b.cursor_pos, b.cursor_index);
    b.insert_char('ß');
    b.backspace();
    assert_eq!((text(&b), b.cursor_pos, b.cursor_index), before);
}
