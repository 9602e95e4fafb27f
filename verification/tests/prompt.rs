use image_in_terminal::events::{KeyCode, KeyEvent, KeyModifiers};
use image_in_terminal::prompt::{EditOutcome, LineEditor};

fn press(code: KeyCode) -> KeyEvent {
    KeyEvent { code, modifiers: KeyModifiers::Plain, pressed: true }
}

fn typed(keys: &[KeyCode]) -> LineEditor {
    let mut editor = LineEditor::new();
    for &code in keys {
        let (next, outcome) = editor.edit(press(code));
        assert_eq!(outcome, EditOutcome::Editing);
        editor = next;
    }
    editor
}

fn text(editor: &LineEditor) -> String {
    editor.text().iter().collect()
}

#[test]
fn editor_starts_empty() {
    let editor = LineEditor::new();
    assert_eq!(text(&editor), "");
    assert_eq!(editor.cursor(), 0);
}

#[test]
fn editor_inserts_at_cursor() {
    let editor = typed(&[KeyCode::Char('a'), KeyCode::Char('c'), KeyCode::Left, KeyCode::Char('b')]);
    assert_eq!(text(&editor), "abc");
    assert_eq!(editor.cursor(), 2);
}

#[test]
fn editor_takes_any_character() {
    let editor = typed(&[KeyCode::Char('é'), KeyCode::Char('日'), KeyCode::Left, KeyCode::Char('x')]);
    assert_eq!(text(&editor), "éx日");
    assert_eq!(editor.cursor(), 2);
}

#[test]
fn editor_inserts_with_shift_held() {
    let editor = LineEditor::new();
    let key = KeyEvent { code: KeyCode::Char('A'), modifiers: KeyModifiers::Shift, pressed: true };
    let (editor, outcome) = editor.edit(key);
    assert_eq!(outcome, EditOutcome::Editing);
    assert_eq!(text(&editor), "A");
    // a plain c is a character like any other
    let (editor, outcome) = editor.edit(press(KeyCode::Char('c')));
    assert_eq!(outcome, EditOutcome::Editing);
    assert_eq!(text(&editor), "Ac");
}

#[test]
fn editor_backspace_removes_before_cursor() {
    let editor = typed(&[KeyCode::Char('a'), KeyCode::Char('b'), KeyCode::Char('c'), KeyCode::Left, KeyCode::Backspace]);
    assert_eq!(text(&editor), "ac");
    assert_eq!(editor.cursor(), 1);
    let editor = typed(&[KeyCode::Char('a'), KeyCode::Home, KeyCode::Backspace]);
    assert_eq!(text(&editor), "a");
    assert_eq!(editor.cursor(), 0);
}

#[test]
fn editor_delete_removes_at_cursor() {
    let editor = typed(&[KeyCode::Char('a'), KeyCode::Char('b'), KeyCode::Char('c'), KeyCode::Left, KeyCode::Left, KeyCode::Delete]);
    assert_eq!(text(&editor), "ac");
    assert_eq!(editor.cursor(), 1);
    let editor = typed(&[KeyCode::Char('a'), KeyCode::Delete]);
    assert_eq!(text(&editor), "a");
    assert_eq!(editor.cursor(), 1);
}

#[test]
fn editor_cursor_stays_in_text() {
    let editor = typed(&[KeyCode::Left]);
    assert_eq!(editor.cursor(), 0);
    let editor = typed(&[KeyCode::Char('a'), KeyCode::Right, KeyCode::Right]);
    assert_eq!(editor.cursor(), 1);
    let editor = typed(&[KeyCode::Char('a'), KeyCode::Char('b'), KeyCode::Home]);
    assert_eq!(editor.cursor(), 0);
    let editor = typed(&[KeyCode::Char('a'), KeyCode::Char('b'), KeyCode::Home, KeyCode::End]);
    assert_eq!(editor.cursor(), 2);
    let editor = typed(&[KeyCode::Char('a'), KeyCode::Char('b'), KeyCode::Home, KeyCode::Right]);
    assert_eq!(editor.cursor(), 1);
}

#[test]
fn editor_enter_submits() {
    let editor = typed(&[KeyCode::Char('a'), KeyCode::Char('b')]);
    let (editor, outcome) = editor.edit(press(KeyCode::Enter));
    assert_eq!(outcome, EditOutcome::Submitted);
    assert_eq!(text(&editor), "ab");
    assert_eq!(editor.cursor(), 2);
}

#[test]
fn editor_escape_and_control_c_cancel() {
    let editor = typed(&[KeyCode::Char('a')]);
    let (editor, outcome) = editor.edit(press(KeyCode::Esc));
    assert_eq!(outcome, EditOutcome::Cancelled);
    assert_eq!(text(&editor), "a");
    let key = KeyEvent { code: KeyCode::Char('c'), modifiers: KeyModifiers::Control, pressed: true };
    let (editor, outcome) = editor.edit(key);
    assert_eq!(outcome, EditOutcome::Cancelled);
    assert_eq!(text(&editor), "a");
}

#[test]
fn editor_ignores_releases_and_other_keys() {
    let editor = typed(&[KeyCode::Char('a'), KeyCode::Other]);
    assert_eq!(text(&editor), "a");
    for code in [KeyCode::Char('b'), KeyCode::Enter, KeyCode::Esc, KeyCode::Backspace] {
        let release = KeyEvent { code, modifiers: KeyModifiers::Plain, pressed: false };
        let (next, outcome) = typed(&[KeyCode::Char('a')]).edit(release);
        assert_eq!(outcome, EditOutcome::Editing);
        assert_eq!(text(&next), "a");
        assert_eq!(next.cursor(), 1);
    }
}
