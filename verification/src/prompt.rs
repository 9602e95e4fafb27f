//! The line editor behind a one-line prompt: what each key does to the text
//! typed so far and to the cursor in it.

use vstd::prelude::*;

use crate::events::{KeyCode, KeyEvent, KeyModifiers};

verus! {

/// The mathematical content of a line editor: the characters typed and the
/// number of them before the cursor.
pub struct LineView {
    pub text: Seq<char>,
    pub cursor: nat,
}

/// How a prompt stands after a key.
#[derive(Clone, Copy, Debug, PartialEq, Eq, Structural)]
pub enum EditOutcome {
    /// The prompt goes on.
    Editing,
    /// The user accepted the text.
    Submitted,
    /// The user gave the prompt up.
    Cancelled,
}

/// Whether `key` gives the prompt up: Escape, or `c` with Control held.
pub open spec fn cancels(key: KeyEvent) -> bool {
    key.code == KeyCode::Esc || (key.code == KeyCode::Char('c') && key.modifiers
        == KeyModifiers::Control)
}

/// The line after `key`. Keys that are no presses do nothing. A character
/// goes in at the cursor, which moves past it; Backspace takes the character
/// before the cursor, Delete the one at it; the arrows, Home and End move the
/// cursor within the text.
pub open spec fn edited(line: LineView, key: KeyEvent) -> LineView {
    if !key.pressed || cancels(key) {
        line
    } else {
        match key.code {
            KeyCode::Char(c) => LineView {
                text: line.text.insert(line.cursor as int, c),
                cursor: line.cursor + 1,
            },
            KeyCode::Backspace => if line.cursor > 0 {
                LineView {
                    text: line.text.remove(line.cursor - 1),
                    cursor: (line.cursor - 1) as nat,
                }
            } else {
                line
            },
            KeyCode::Delete => if line.cursor < line.text.len() {
                LineView { text: line.text.remove(line.cursor as int), cursor: line.cursor }
            } else {
                line
            },
            KeyCode::Left => LineView {
                text: line.text,
                cursor: if line.cursor > 0 { (line.cursor - 1) as nat } else { 0 },
            },
            KeyCode::Right => LineView {
                text: line.text,
                cursor: if line.cursor < line.text.len() { line.cursor + 1 } else { line.cursor },
            },
            KeyCode::Home => LineView { text: line.text, cursor: 0 },
            KeyCode::End => LineView { text: line.text, cursor: line.text.len() },
            _ => line,
        }
    }
}

/// How the prompt stands after `key`.
pub open spec fn outcome_of(key: KeyEvent) -> EditOutcome {
    if !key.pressed {
        EditOutcome::Editing
    } else if cancels(key) {
        EditOutcome::Cancelled
    } else if key.code == KeyCode::Enter {
        EditOutcome::Submitted
    } else {
        EditOutcome::Editing
    }
}

/// A line of text with a cursor in it.
pub struct LineEditor {
    text: Vec<char>,
    cursor: usize,
}

impl View for LineEditor {
    type V = LineView;

    closed spec fn view(&self) -> LineView {
        LineView { text: self.text@, cursor: self.cursor as nat }
    }
}

impl LineEditor {
    #[verifier::type_invariant]
    spec fn inv(self) -> bool {
        self.cursor <= self.text@.len()
    }

    /// An empty line.
    pub fn new() -> (editor: LineEditor)
        ensures
            editor@ == (LineView { text: Seq::empty(), cursor: 0 }),
    {
        LineEditor { text: Vec::new(), cursor: 0 }
    }

    /// The characters typed so far.
    pub fn text(&self) -> (text: &Vec<char>)
        ensures
            text@ == self@.text,
            self@.cursor <= self@.text.len(),
    {
        proof { use_type_invariant(self); }
        &self.text
    }

    /// The number of characters before the cursor.
    pub fn cursor(&self) -> (cursor: usize)
        ensures
            cursor == self@.cursor,
            cursor <= self@.text.len(),
    {
        proof { use_type_invariant(self); }
        self.cursor
    }

    /// Applies one key to the line: the line as the key leaves it, and
    /// whether the prompt goes on.
    pub fn edit(self, key: KeyEvent) -> (out: (LineEditor, EditOutcome))
        ensures
            out.0@ == edited(self@, key),
            out.1 == outcome_of(key),
    {
        proof { use_type_invariant(&self); }
        let mut text: Vec<char> = self.text;
        let mut cursor: usize = self.cursor;
        let mut outcome = EditOutcome::Editing;
        if key.pressed {
            match key.code {
                KeyCode::Esc => {
                    outcome = EditOutcome::Cancelled;
                },
                KeyCode::Enter => {
                    outcome = EditOutcome::Submitted;
                },
                KeyCode::Char(c) => {
                    if c == 'c' && key.modifiers == KeyModifiers::Control {
                        outcome = EditOutcome::Cancelled;
                    } else {
                        text.insert(cursor, c);
                        assert(cursor < text.len());
                        cursor = cursor + 1;
                    }
                },
                KeyCode::Backspace => {
                    if cursor > 0 {
                        text.remove(cursor - 1);
                        cursor = cursor - 1;
                    }
                },
                KeyCode::Delete => {
                    if cursor < text.len() {
                        text.remove(cursor);
                    }
                },
                KeyCode::Left => {
                    if cursor > 0 {
                        cursor = cursor - 1;
                    }
                },
                KeyCode::Right => {
                    if cursor < text.len() {
                        cursor = cursor + 1;
                    }
                },
                KeyCode::Home => {
                    cursor = 0;
                },
                KeyCode::End => {
                    cursor = text.len();
                },
                KeyCode::Other => {},
            }
        }
        (LineEditor { text, cursor }, outcome)
    }
}

} // verus!
