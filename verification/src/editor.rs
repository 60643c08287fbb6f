//! The line editor: one line of characters and a caret.
//!
//! The caret stands before the character whose index it holds, or behind the
//! last one. Positions count characters, not bytes. Every operation leaves
//! the caret inside the line; a caret found outside it is taken to stand at
//! the end.

use crate::text::{chars_of, string_of, trim_bounds, trimmed};
use vstd::prelude::*;

verus! {

/// A line of characters and the index of the character before which the
/// caret stands.
pub struct LineEditor {
    pub buffer: Vec<char>,
    pub caret: usize,
}

/// One editing step.
#[derive(Clone, Copy, Debug, PartialEq, Eq, Structural)]
pub enum EditOp {
    /// Put a character where the caret stands.
    Insert(char),
    /// Remove the character before the caret.
    Backspace,
    /// Remove the character at the caret.
    DeleteForward,
    CaretLeft,
    CaretRight,
    /// Move the caret to the start of the line.
    CaretHome,
    /// Move the caret behind the last character.
    CaretEnd,
    /// Remove all that stands before the caret.
    DeleteToStart,
    /// Remove all that stands at the caret and behind it.
    DeleteToEnd,
}

/// A line and the place of its caret.
pub struct Line {
    pub text: Seq<char>,
    pub caret: int,
}

/// The line and the caret after one editing step on `text` with the caret at
/// `at`.
pub open spec fn edited(text: Seq<char>, at: int, op: EditOp) -> Line {
    match op {
        EditOp::Insert(ch) => Line { text: text.insert(at, ch), caret: at + 1 },
        EditOp::Backspace => if at > 0 {
            Line { text: text.remove(at - 1), caret: at - 1 }
        } else {
            Line { text, caret: 0 }
        },
        EditOp::DeleteForward => if at < text.len() {
            Line { text: text.remove(at), caret: at }
        } else {
            Line { text, caret: at }
        },
        EditOp::CaretLeft => Line {
            text,
            caret: if at > 0 {
                at - 1
            } else {
                0
            },
        },
        EditOp::CaretRight => Line {
            text,
            caret: if at < text.len() {
                at + 1
            } else {
                text.len() as int
            },
        },
        EditOp::CaretHome => Line { text, caret: 0 },
        EditOp::CaretEnd => Line { text, caret: text.len() as int },
        EditOp::DeleteToStart => Line { text: text.skip(at), caret: 0 },
        EditOp::DeleteToEnd => Line { text: text.take(at), caret: at },
    }
}

/// An editing step leaves the caret inside the line.
pub proof fn lemma_edited_caret(text: Seq<char>, at: int, op: EditOp)
    requires
        0 <= at <= text.len(),
    ensures
        0 <= edited(text, at, op).caret <= edited(text, at, op).text.len(),
{
}

impl LineEditor {
    /// The caret stands inside the line.
    pub open spec fn wf(&self) -> bool {
        self.caret <= self.buffer@.len()
    }

    /// The text of the line.
    pub open spec fn text(&self) -> Seq<char> {
        self.buffer@
    }

    /// Where the caret stands: its index, or the end of the line if the index
    /// lies beyond it.
    pub open spec fn place(&self) -> int {
        if self.caret <= self.buffer@.len() {
            self.caret as int
        } else {
            self.buffer@.len() as int
        }
    }

    fn clamped_caret(&self) -> (at: usize)
        ensures
            at as int == self.place(),
            at <= self.buffer@.len(),
    {
        if self.caret <= self.buffer.len() {
            self.caret
        } else {
            self.buffer.len()
        }
    }

    /// An empty line.
    pub fn new() -> (editor: LineEditor)
        ensures
            editor.wf(),
            editor.text() == Seq::<char>::empty(),
            editor.caret == 0,
    {
        LineEditor { buffer: Vec::new(), caret: 0 }
    }

    /// A line that holds `text`, with the caret behind it.
    pub fn with_text(text: &str) -> (editor: LineEditor)
        ensures
            editor.wf(),
            editor.text() == text@,
            editor.caret == text@.len(),
    {
        let buffer = chars_of(text);
        let caret = buffer.len();
        LineEditor { buffer, caret }
    }

    /// Number of characters of the line.
    pub fn char_count(&self) -> (count: usize)
        ensures
            count == self.text().len(),
    {
        self.buffer.len()
    }

    /// Puts `ch` where the caret stands and moves the caret behind it.
    pub fn insert_char(&mut self, ch: char)
        ensures
            final(self).wf(),
            final(self).text() == old(self).text().insert(old(self).place(), ch),
            final(self).caret == old(self).place() + 1,
    {
        let at = self.clamped_caret();
        self.buffer.insert(at, ch);
        let grown = self.buffer.len();
        assert(at < grown);
        self.caret = at + 1;
    }

    /// Removes the character before the caret, if there is one, and moves the
    /// caret onto its place.
    pub fn backspace(&mut self)
        ensures
            final(self).wf(),
            old(self).place() > 0 ==> final(self).text() == old(self).text().remove(
                old(self).place() - 1,
            ) && final(self).caret == old(self).place() - 1,
            old(self).place() == 0 ==> final(self).text() == old(self).text() && final(self).caret
                == 0,
    {
        let at = self.clamped_caret();
        if at > 0 {
            self.buffer.remove(at - 1);
            self.caret = at - 1;
        } else {
            self.caret = 0;
        }
    }

    /// Removes the character at the caret, if there is one.
    pub fn delete_forward(&mut self)
        ensures
            final(self).wf(),
            final(self).caret == old(self).place(),
            old(self).place() < old(self).text().len() ==> final(self).text() == old(
                self,
            ).text().remove(old(self).place()),
            old(self).place() == old(self).text().len() ==> final(self).text() == old(self).text(),
    {
        let at = self.clamped_caret();
        if at < self.buffer.len() {
            self.buffer.remove(at);
        }
        self.caret = at;
    }

    /// Moves the caret one character to the left, if it is not at the start.
    pub fn caret_left(&mut self)
        ensures
            final(self).wf(),
            final(self).text() == old(self).text(),
            final(self).caret == if old(self).place() > 0 {
                old(self).place() - 1
            } else {
                0
            },
    {
        let at = self.clamped_caret();
        self.caret = if at > 0 {
            at - 1
        } else {
            0
        };
    }

    /// Moves the caret one character to the right, if it is not at the end.
    pub fn caret_right(&mut self)
        ensures
            final(self).wf(),
            final(self).text() == old(self).text(),
            final(self).caret == if old(self).place() < old(self).text().len() {
                old(self).place() + 1
            } else {
                old(self).text().len() as int
            },
    {
        let at = self.clamped_caret();
        self.caret = if at < self.buffer.len() {
            at + 1
        } else {
            at
        };
    }

    /// Moves the caret to the start of the line.
    pub fn caret_home(&mut self)
        ensures
            final(self).wf(),
            final(self).text() == old(self).text(),
            final(self).caret == 0,
    {
        self.caret = 0;
    }

    /// Moves the caret behind the last character.
    pub fn caret_end(&mut self)
        ensures
            final(self).wf(),
            final(self).text() == old(self).text(),
            final(self).caret == old(self).text().len(),
    {
        self.caret = self.buffer.len();
    }

    /// Removes all that stands before the caret; the caret is then at the
    /// start.
    pub fn delete_to_start(&mut self)
        ensures
            final(self).wf(),
            final(self).text() == old(self).text().skip(old(self).place()),
            final(self).caret == 0,
    {
        let at = self.clamped_caret();
        let rest = self.buffer.split_off(at);
        assert(rest@ == old(self).buffer@.skip(at as int));
        self.buffer = rest;
        self.caret = 0;
    }

    /// Removes all that stands at the caret and behind it; the caret is then
    /// at the end.
    pub fn delete_to_end(&mut self)
        ensures
            final(self).wf(),
            final(self).text() == old(self).text().take(old(self).place()),
            final(self).caret == old(self).place(),
    {
        let at = self.clamped_caret();
        self.buffer.truncate(at);
        assert(self.buffer@ == old(self).buffer@.take(at as int));
        self.caret = at;
    }

    /// Whether the line holds nothing but white space.
    pub fn is_blank(&self) -> (blank: bool)
        ensures
            blank == (trimmed(self.text()).len() == 0),
    {
        let (from, to) = trim_bounds(&self.buffer, 0, self.buffer.len());
        from == to
    }

    /// The text of the line without the white space at its ends.
    pub fn trimmed_text(&self) -> (out: String)
        ensures
            out@ == trimmed(self.text()),
    {
        let (from, to) = trim_bounds(&self.buffer, 0, self.buffer.len());
        let mut part: Vec<char> = Vec::new();
        let mut i: usize = from;
        while i < to
            invariant
                from <= i <= to <= self.buffer@.len(),
                part@ == self.buffer@.subrange(from as int, i as int),
            decreases to - i,
        {
            part.push(self.buffer[i]);
            assert(self.buffer@.subrange(from as int, i as int).push(self.buffer@[i as int])
                == self.buffer@.subrange(from as int, i + 1));
            i += 1;
        }
        string_of(&part)
    }

    /// Carries out one editing step.
    pub fn apply(&mut self, op: EditOp)
        ensures
            final(self).wf(),
            final(self).text() == edited(old(self).text(), old(self).place(), op).text,
            final(self).caret as int == edited(old(self).text(), old(self).place(), op).caret,
    {
        match op {
            EditOp::Insert(ch) => self.insert_char(ch),
            EditOp::Backspace => self.backspace(),
            EditOp::DeleteForward => self.delete_forward(),
            EditOp::CaretLeft => self.caret_left(),
            EditOp::CaretRight => self.caret_right(),
            EditOp::CaretHome => self.caret_home(),
            EditOp::CaretEnd => self.caret_end(),
            EditOp::DeleteToStart => self.delete_to_start(),
            EditOp::DeleteToEnd => self.delete_to_end(),
        }
    }

    /// Empties the line.
    pub fn clear(&mut self)
        ensures
            final(self).wf(),
            final(self).text().len() == 0,
            final(self).caret == 0,
    {
        self.buffer.clear();
        self.caret = 0;
    }

    /// The character at the caret, if the caret is not at the end.
    pub fn char_at_caret(&self) -> (ch: Option<char>)
        ensures
            ch == if self.caret < self.text().len() {
                Some(self.text()[self.caret as int])
            } else {
                None
            },
    {
        if self.caret < self.buffer.len() {
            Some(self.buffer[self.caret])
        } else {
            None
        }
    }
}

} // verus!
