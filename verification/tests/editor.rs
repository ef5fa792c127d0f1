use paperview::editor::{EditorBuffer, EDIT_VIEWPORT_LINES};

fn numbered_lines(count: usize) -> String {
    (0..count).map(|index| format!("line {index}")).collect::<Vec<_>>().join("\n")
}

fn cursor_line_is_visible(editor: &EditorBuffer) -> bool {
    let (cursor_line, _) = editor.cursor_line_column();
    let scroll = usize::from(editor.scroll());
    (scroll..scroll + EDIT_VIEWPORT_LINES).contains(&cursor_line)
}

#[test]
fn edit_mode_inserts_and_deletes_at_cursor() {
    let mut editor = EditorBuffer::from_text("abc");

    editor.move_left();
    editor.insert_char('X');
    assert_eq!(editor.text(), "abXc");

    editor.move_left();
    editor.backspace();
    assert_eq!(editor.text(), "aXc");

    editor.delete();
    assert_eq!(editor.text(), "ac");
}

#[test]
fn edit_mode_moves_cursor_by_line() {
    let mut editor = EditorBuffer::from_text("one\ntwo\nthree");

    editor.move_to_line_start();
    editor.move_vertical(-1);
    editor.insert_char('X');
    assert_eq!(editor.text(), "one\nXtwo\nthree");

    editor.move_to_line_end();
    editor.move_vertical(-1);
    editor.insert_char('Y');
    assert_eq!(editor.text(), "oneY\nXtwo\nthree");
}

#[test]
fn edit_mode_cursor_handles_multibyte_text() {
    let mut editor = EditorBuffer::from_text("a\u{e9}\u{6587}");

    editor.move_left();
    editor.move_left();
    editor.insert_char('X');

    assert_eq!(editor.text(), "aX\u{e9}\u{6587}");
}

#[test]
fn edit_mode_scrolls_to_keep_cursor_visible() {
    let mut editor = EditorBuffer::from_text(&numbered_lines(30));

    assert!(editor.scroll() > 0);
    assert!(cursor_line_is_visible(&editor));

    editor.move_to_line_start();
    editor.insert_char('X');

    assert!(cursor_line_is_visible(&editor));
}

#[test]
fn edit_mode_page_keys_move_cursor_and_scroll() {
    let mut editor = EditorBuffer::from_text(&numbered_lines(40));
    let initial_cursor = editor.cursor();

    editor.page(-1);

    assert!(editor.cursor() < initial_cursor);
    assert!(cursor_line_is_visible(&editor));

    editor.page(1);

    assert!(editor.cursor() > 0);
    assert!(cursor_line_is_visible(&editor));
}

#[test]
fn editor_edges_leave_the_text_alone() {
    let mut editor = EditorBuffer::from_text("");
    editor.backspace();
    editor.delete();
    editor.move_left();
    editor.move_right();
    assert_eq!(editor.text(), "");
    assert_eq!(editor.cursor(), 0);

    let mut editor = EditorBuffer::from_text("ab\ncdef\ng");
    assert_eq!(editor.cursor_line_column(), (2, 1));
    editor.move_vertical(-1);
    assert_eq!(editor.cursor_line_column(), (1, 1));
    editor.move_vertical(-5);
    assert_eq!(editor.cursor_line_column(), (0, 1));
    editor.move_to_line_end();
    editor.move_vertical(1);
    assert_eq!(editor.cursor_line_column(), (1, 2));
    editor.move_vertical(isize::MAX);
    assert_eq!(editor.cursor_line_column(), (2, 1));
    editor.insert_char('\n');
    assert_eq!(editor.text(), "ab\ncdef\ng\n");
    assert_eq!(editor.cursor_line_column(), (3, 0));
}
