//! An editable line of text with a cursor.

use vstd::prelude::*;
use crate::text::{chars_of, string_of};

verus! {

/// The mathematical content of a [`LineBuffer`], with the edits as
/// functions from one line to the next.
pub struct LineView {
    /// The characters of the line.
    pub text: Seq<char>,
    /// The position of the cursor, in characters from the start.
    pub cursor: nat,
}

impl LineView {
    /// The cursor lies within the line or just behind its last character.
    pub open spec fn wf(self) -> bool {
        self.cursor <= self.text.len()
    }

    /// `c` put at the cursor, and the cursor behind it.
    pub open spec fn insert(self, c: char) -> LineView {
        LineView { text: self.text.insert(self.cursor as int, c), cursor: self.cursor + 1 }
    }

    /// The character before the cursor removed, if there is one.
    pub open spec fn delete_backward(self) -> LineView {
        if self.cursor > 0 {
            LineView { text: self.text.remove(self.cursor - 1), cursor: (self.cursor - 1) as nat }
        } else {
            self
        }
    }

    /// The character under the cursor removed, if there is one.
    pub open spec fn delete_forward(self) -> LineView {
        if self.cursor < self.text.len() {
            LineView { text: self.text.remove(self.cursor as int), cursor: self.cursor }
        } else {
            self
        }
    }

    /// The cursor one character towards the start, unless it is there.
    pub open spec fn left(self) -> LineView {
        if self.cursor > 0 {
            LineView { cursor: (self.cursor - 1) as nat, ..self }
        } else {
            self
        }
    }

    /// The cursor one character towards the end, unless it is there.
    pub open spec fn right(self) -> LineView {
        if self.cursor < self.text.len() {
            LineView { cursor: self.cursor + 1, ..self }
        } else {
            self
        }
    }

    /// The cursor before the first character.
    pub open spec fn start(self) -> LineView {
        LineView { cursor: 0, ..self }
    }

    /// The cursor behind the last character.
    pub open spec fn end(self) -> LineView {
        LineView { cursor: self.text.len(), ..self }
    }

    /// The line that holds `text`, with the cursor behind it.
    pub open spec fn of(text: Seq<char>) -> LineView {
        LineView { text, cursor: text.len() }
    }
}

/// Every edit leaves the cursor within the line, and what was typed can be
/// taken back: deleting backward after an insertion restores the line.
pub proof fn lemma_edits_keep_cursor_in_line(line: LineView, c: char)
    requires
        line.wf(),
    ensures
        line.insert(c).wf(),
        line.delete_backward().wf(),
        line.delete_forward().wf(),
        line.left().wf(),
        line.right().wf(),
        line.start().wf(),
        line.end().wf(),
        line.insert(c).delete_backward() == line,
{
    assert(line.text.insert(line.cursor as int, c).remove(line.cursor as int) =~= line.text);
}

/// A line of text under edit.
///
/// The cursor counts characters, not bytes, so it always rests on a
/// character boundary: `0` is before the first character and the length of
/// the line is behind the last.
pub struct LineBuffer {
    text: Vec<char>,
    cursor: usize,
}

impl View for LineBuffer {
    type V = LineView;

    closed spec fn view(&self) -> LineView {
        LineView { text: self.text@, cursor: self.cursor as nat }
    }
}

impl LineBuffer {
    /// The line is well formed if its content is.
    pub open spec fn wf(self) -> bool {
        self@.wf()
    }

    /// An empty line.
    pub fn new() -> (r: Self)
        ensures
            r.wf(),
            r@ == LineView::of(Seq::<char>::empty()),
    {
        LineBuffer { text: Vec::new(), cursor: 0 }
    }

    /// A line that holds `text`, with the cursor behind its last character.
    pub fn from_text(text: &str) -> (r: Self)
        ensures
            r.wf(),
            r@ == LineView::of(text@),
    {
        let chars = chars_of(text);
        let cursor = chars.len();
        LineBuffer { text: chars, cursor }
    }

    /// The line as a string.
    pub fn text(&self) -> (r: String)
        ensures
            r@ == self@.text,
    {
        string_of(&self.text)
    }

    /// The position of the cursor.
    pub fn cursor(&self) -> (r: usize)
        ensures
            r == self@.cursor,
    {
        self.cursor
    }

    /// The number of characters in the line.
    pub fn len(&self) -> (r: usize)
        ensures
            r == self@.text.len(),
    {
        self.text.len()
    }

    /// Whether the line holds no character.
    pub fn is_empty(&self) -> (r: bool)
        ensures
            r == (self@.text.len() == 0),
    {
        self.text.len() == 0
    }

    /// Puts `c` at the cursor and moves the cursor behind it.
    pub fn insert(&mut self, c: char)
        requires
            old(self).wf(),
        ensures
            final(self).wf(),
            final(self)@ == old(self)@.insert(c),
    {
        self.text.insert(self.cursor, c);
        let n = self.text.len();
        assert(self.cursor < n);
        self.cursor = self.cursor + 1;
    }

    /// Removes the character before the cursor, if there is one, and moves
    /// the cursor back onto its place.
    pub fn delete_backward(&mut self)
        requires
            old(self).wf(),
        ensures
            final(self).wf(),
            final(self)@ == old(self)@.delete_backward(),
    {
        if self.cursor > 0 {
            self.cursor = self.cursor - 1;
            self.text.remove(self.cursor);
        }
    }

    /// Removes the character under the cursor, if there is one. The cursor
    /// stays where it is.
    pub fn delete_forward(&mut self)
        requires
            old(self).wf(),
        ensures
            final(self).wf(),
            final(self)@ == old(self)@.delete_forward(),
    {
        if self.cursor < self.text.len() {
            self.text.remove(self.cursor);
        }
    }

    /// Moves the cursor one character towards the start; at the start it stays.
    pub fn move_left(&mut self)
        requires
            old(self).wf(),
        ensures
            final(self).wf(),
            final(self)@ == old(self)@.left(),
    {
        if self.cursor > 0 {
            self.cursor = self.cursor - 1;
        }
    }

    /// Moves the cursor one character towards the end; at the end it stays.
    pub fn move_right(&mut self)
        requires
            old(self).wf(),
        ensures
            final(self).wf(),
            final(self)@ == old(self)@.right(),
    {
        if self.cursor < self.text.len() {
            self.cursor = self.cursor + 1;
        }
    }

    /// Moves the cursor before the first character.
    pub fn move_to_start(&mut self)
        requires
            old(self).wf(),
        ensures
            final(self).wf(),
            final(self)@ == old(self)@.start(),
    {
        self.cursor = 0;
    }

    /// Moves the cursor behind the last character.
    pub fn move_to_end(&mut self)
        requires
            old(self).wf(),
        ensures
            final(self).wf(),
            final(self)@ == old(self)@.end(),
    {
        self.cursor = self.text.len();
    }

    /// Replaces the whole line by `text` and puts the cursor behind it.
    pub fn replace_all(&mut self, text: &str)
        ensures
            final(self).wf(),
            final(self)@ == LineView::of(text@),
    {
        self.text = chars_of(text);
        self.cursor = self.text.len();
    }
}

} // verus!
