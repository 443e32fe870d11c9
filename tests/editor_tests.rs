use rustte::editor::{move_cursor, scroll_offset, Command, Motion, QUIT_TIMES};
use rustte::{Document, Editor, Position, Row};

fn doc(lines: &[&str]) -> Document {
    let v: Vec<String> = lines.iter().map(|s| s.to_string()).collect();
    Document::from_lines(Some("notes.txt".to_string()), &v)
}

fn text(d: &Document, y: usize) -> String {
    d.row(y).unwrap().render(0, usize::MAX)
}

#[test]
fn end_then_insert_on_accented_line() {
    let mut editor = Editor::new(doc(&["h\u{e9}llo", "world"]));
    assert_eq!(editor.document.row(0).unwrap().len(), 5);
    editor.process_key(Command::Move(Motion::End), 80, 24);
    assert_eq!(editor.cursor_position, Position { x: 5, y: 0 });
    editor.process_key(Command::Insert('!'), 80, 24);
    assert_eq!(text(&editor.document, 0), "h\u{e9}llo!");
    assert_eq!(editor.document.row(0).unwrap().len(), 6);
    assert_eq!(editor.cursor_position, Position { x: 6, y: 0 });
    assert!(editor.document.is_dirty());
}

#[test]
fn document_loads_lines() {
    let d = doc(&["one", "two"]);
    assert_eq!(d.len(), 2);
    assert!(!d.is_empty());
    assert!(!d.is_dirty());
    assert_eq!(d.name().as_deref(), Some("notes.txt"));
    assert!(d.row(2).is_none());
    assert!(Document::new().is_empty());
}

#[test]
fn newline_splits_and_delete_merges() {
    let mut d = doc(&["hello", "world"]);
    d.insert(&Position { x: 2, y: 0 }, '\n');
    assert_eq!(d.len(), 3);
    assert_eq!(text(&d, 0), "he");
    assert_eq!(text(&d, 1), "llo");
    d.delete(&Position { x: 2, y: 0 });
    assert_eq!(d.len(), 2);
    assert_eq!(text(&d, 0), "hello");
    assert_eq!(text(&d, 1), "world");
    assert!(d.is_dirty());
    d.mark_saved();
    assert!(!d.is_dirty());
}

#[test]
fn insert_past_last_line_adds_a_row() {
    let mut d = doc(&["a"]);
    d.insert(&Position { x: 0, y: 1 }, 'z');
    assert_eq!(d.len(), 2);
    assert_eq!(text(&d, 1), "z");
    d.insert(&Position { x: 0, y: 2 }, '\n');
    assert_eq!(d.len(), 3);
    assert_eq!(text(&d, 2), "");
}

#[test]
fn delete_at_end_of_document_does_nothing() {
    let mut d = doc(&["ab"]);
    d.delete(&Position { x: 2, y: 0 });
    assert_eq!(text(&d, 0), "ab");
    d.delete(&Position { x: 0, y: 1 });
    assert_eq!(d.len(), 1);
    d.delete(&Position { x: 0, y: 0 });
    assert_eq!(text(&d, 0), "b");
}

#[test]
fn search_wraps_to_the_top() {
    let d = doc(&["alpha needle", "beta", "gamma"]);
    assert_eq!(d.find("needle", &Position { x: 0, y: 2 }), Some(Position { x: 6, y: 0 }));
    assert_eq!(d.find("gam", &Position { x: 0, y: 1 }), Some(Position { x: 0, y: 2 }));
    assert_eq!(d.find("a", &Position { x: 0, y: 1 }), Some(Position { x: 3, y: 1 }));
    assert_eq!(d.find("missing", &Position { x: 0, y: 0 }), None);
    assert_eq!(d.find("beta", &Position { x: 0, y: 3 }), Some(Position { x: 0, y: 1 }));
}

#[test]
fn cursor_moves_and_wraps_between_lines() {
    let d = doc(&["abc", "de"]);
    let p = move_cursor(&d, Position { x: 0, y: 1 }, Motion::Left, 10);
    assert_eq!(p, Position { x: 3, y: 0 });
    let p = move_cursor(&d, Position { x: 3, y: 0 }, Motion::Right, 10);
    assert_eq!(p, Position { x: 0, y: 1 });
    let p = move_cursor(&d, Position { x: 3, y: 0 }, Motion::Down, 10);
    assert_eq!(p, Position { x: 2, y: 1 });
    let p = move_cursor(&d, Position { x: 2, y: 1 }, Motion::Down, 10);
    assert_eq!(p, Position { x: 0, y: 2 });
    let p = move_cursor(&d, Position { x: 0, y: 2 }, Motion::Down, 10);
    assert_eq!(p, Position { x: 0, y: 2 });
    let p = move_cursor(&d, Position { x: 0, y: 0 }, Motion::Up, 10);
    assert_eq!(p, Position { x: 0, y: 0 });
    let p = move_cursor(&d, Position { x: 0, y: 0 }, Motion::Left, 10);
    assert_eq!(p, Position { x: 0, y: 0 });
    let p = move_cursor(&d, Position { x: 1, y: 0 }, Motion::End, 10);
    assert_eq!(p, Position { x: 3, y: 0 });
    let p = move_cursor(&d, Position { x: 2, y: 0 }, Motion::Home, 10);
    assert_eq!(p, Position { x: 0, y: 0 });
}

#[test]
fn pages_jump_a_window_height() {
    let lines: Vec<String> = (0..50).map(|i| format!("line {}", i)).collect();
    let d = Document::from_lines(None, &lines);
    let p = move_cursor(&d, Position { x: 0, y: 0 }, Motion::PageDown, 20);
    assert_eq!(p.y, 20);
    let p = move_cursor(&d, Position { x: 0, y: 40 }, Motion::PageDown, 20);
    assert_eq!(p.y, 50);
    let p = move_cursor(&d, Position { x: 0, y: 25 }, Motion::PageUp, 20);
    assert_eq!(p.y, 5);
    let p = move_cursor(&d, Position { x: 0, y: 20 }, Motion::PageUp, 20);
    assert_eq!(p.y, 0);
}

#[test]
fn scroll_keeps_cursor_on_screen() {
    let off = scroll_offset(Position { x: 100, y: 30 }, Position { x: 0, y: 0 }, 80, 24);
    assert_eq!(off, Position { x: 21, y: 7 });
    let off = scroll_offset(Position { x: 3, y: 2 }, Position { x: 21, y: 7 }, 80, 24);
    assert_eq!(off, Position { x: 3, y: 2 });
    let off = scroll_offset(Position { x: 10, y: 10 }, Position { x: 5, y: 5 }, 80, 24);
    assert_eq!(off, Position { x: 5, y: 5 });
    let off = scroll_offset(Position { x: 4, y: 4 }, Position { x: 0, y: 0 }, 1, 1);
    assert_eq!(off, Position { x: 4, y: 4 });
}

#[test]
fn scroll_after_moves_stays_in_window() {
    let lines: Vec<String> = (0..40).map(|i| "x".repeat(i * 3)).collect();
    let mut editor = Editor::new(Document::from_lines(None, &lines));
    let keys = [
        Motion::PageDown,
        Motion::End,
        Motion::Down,
        Motion::End,
        Motion::PageDown,
        Motion::Up,
        Motion::Right,
        Motion::PageUp,
        Motion::Left,
        Motion::Home,
    ];
    for m in keys.iter() {
        editor.process_key(Command::Move(*m), 20, 10);
        let c = editor.cursor_position;
        let o = editor.offset;
        assert!(o.x <= c.x && c.x < o.x + 20);
        assert!(o.y <= c.y && c.y < o.y + 10);
        let s = editor.screen_position();
        assert!(s.x < 20 && s.y < 10);
    }
}

#[test]
fn quit_on_modified_document_needs_confirmation() {
    let mut editor = Editor::new(doc(&["abc"]));
    editor.process_key(Command::Insert('x'), 80, 24);
    for _ in 0..QUIT_TIMES {
        editor.process_key(Command::Quit, 80, 24);
        assert!(!editor.quit);
    }
    editor.process_key(Command::Quit, 80, 24);
    assert!(editor.quit);
}

#[test]
fn other_key_resets_quit_count() {
    let mut editor = Editor::new(doc(&["abc"]));
    editor.process_key(Command::Insert('x'), 80, 24);
    editor.process_key(Command::Quit, 80, 24);
    editor.process_key(Command::Quit, 80, 24);
    assert_eq!(editor.quit_times, QUIT_TIMES - 2);
    editor.process_key(Command::Insert('y'), 80, 24);
    assert_eq!(editor.quit_times, QUIT_TIMES);
    for _ in 0..QUIT_TIMES {
        editor.process_key(Command::Quit, 80, 24);
        assert!(!editor.quit);
    }
    editor.process_key(Command::Quit, 80, 24);
    assert!(editor.quit);
}

#[test]
fn quit_on_clean_document_is_immediate() {
    let mut editor = Editor::new(doc(&["abc"]));
    editor.process_key(Command::Quit, 80, 24);
    assert!(editor.quit);
}

#[test]
fn backspace_joins_lines() {
    let mut editor = Editor::new(doc(&["ab", "cd"]));
    editor.process_key(Command::Move(Motion::Down), 80, 24);
    editor.process_key(Command::Backspace, 80, 24);
    assert_eq!(editor.document.len(), 1);
    assert_eq!(text(&editor.document, 0), "abcd");
    assert_eq!(editor.cursor_position, Position { x: 2, y: 0 });
    editor.process_key(Command::Delete, 80, 24);
    assert_eq!(text(&editor.document, 0), "abd");
    editor.process_key(Command::Insert('\n'), 80, 24);
    assert_eq!(text(&editor.document, 0), "ab");
    assert_eq!(text(&editor.document, 1), "d");
    assert_eq!(editor.cursor_position, Position { x: 0, y: 1 });
}

#[test]
fn visible_row_follows_horizontal_scroll() {
    let mut editor = Editor::new(doc(&["abcdefghij"]));
    editor.offset = Position { x: 3, y: 0 };
    let row = Row::from("a\tcdefghij");
    assert_eq!(editor.visible_row(&row, 4), "defg");
    editor.offset = Position { x: 0, y: 0 };
    assert_eq!(editor.visible_row(&row, 3), "a c");
    editor.offset = Position { x: 8, y: 0 };
    assert_eq!(editor.visible_row(&row, usize::MAX), "ij");
}
