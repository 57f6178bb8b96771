//! The prompt for a line of text, with recall of earlier input.

use vstd::prelude::*;
use crate::error::{PromptError, Status};
use crate::history::{History, HistoryView};
use crate::key::Key;
use crate::line_buffer::{LineBuffer, LineView};
use crate::text::{chars_of, push_char};

verus! {

/// The mathematical content of an [`Input`] prompt.
pub struct InputView {
    /// The request shown to the user.
    pub prompt: Seq<char>,
    /// Whether Enter accepts an empty line.
    pub allow_empty: bool,
    /// The line under edit.
    pub line: LineView,
    /// Where the prompt stands.
    pub status: Status,
}

impl InputView {
    /// The line under edit is well formed.
    pub open spec fn wf(self) -> bool {
        self.line.wf()
    }

    /// Whether Enter would confirm the prompt as it stands.
    pub open spec fn acceptable(self) -> bool {
        self.allow_empty || self.line.text.len() > 0
    }

    /// The prompt with its line replaced by `line`.
    pub open spec fn with_line(self, line: LineView) -> InputView {
        InputView { line, ..self }
    }

    /// The prompt and the history after the key `key`.
    ///
    /// Escape and Ctrl-C cancel, and end recall. Enter confirms, unless the
    /// line is empty and must not be: the line is pushed to the history.
    /// A character is put at the cursor; Backspace and Delete remove one.
    /// These three are fresh input and end recall. Left, Right, Home and End
    /// move the cursor. Up shows the next older entry of the history, if
    /// there is one. Down shows the next newer one; from the newest it ends
    /// recall and empties the line; without recall under way it does
    /// nothing. Every other key does nothing, and so does any key once the
    /// prompt has ended.
    pub open spec fn step(self, key: Key, history: HistoryView) -> (InputView, HistoryView) {
        if self.status != Status::Active {
            (self, history)
        } else if key.cancels() {
            (InputView { status: Status::Cancelled, ..self }, history.reset())
        } else if key == Key::Enter {
            if self.acceptable() {
                (InputView { status: Status::Confirmed, ..self }, history.push(self.line.text).reset())
            } else {
                (self, history)
            }
        } else if key.typed() is Some {
            (self.with_line(self.line.insert(key.typed()->0)), history.reset())
        } else if key == Key::Backspace {
            (self.with_line(self.line.delete_backward()), history.reset())
        } else if key == Key::Delete {
            (self.with_line(self.line.delete_forward()), history.reset())
        } else if key == Key::Left {
            (self.with_line(self.line.left()), history)
        } else if key == Key::Right {
            (self.with_line(self.line.right()), history)
        } else if key == Key::Home {
            (self.with_line(self.line.start()), history)
        } else if key == Key::End {
            (self.with_line(self.line.end()), history)
        } else if key == Key::Up {
            match history.previous_entry() {
                Some(entry) => (self.with_line(LineView::of(entry)), history.recall_previous()),
                None => (self, history),
            }
        } else if key == Key::Down {
            if history.cursor is Some {
                (
                    self.with_line(
                        LineView::of(
                            match history.next_entry() {
                                Some(entry) => entry,
                                None => Seq::<char>::empty(),
                            },
                        ),
                    ),
                    history.recall_next(),
                )
            } else {
                (self, history)
            }
        } else {
            (self, history)
        }
    }

    /// What the prompt gives: nothing while it is active, the line once it
    /// is confirmed, and the error `Interrupted` once it is cancelled.
    pub open spec fn outcome(self) -> Option<Result<Seq<char>, PromptError>> {
        match self.status {
            Status::Active => None,
            Status::Confirmed => Some(Ok(self.line.text)),
            Status::Cancelled => Some(Err(PromptError::Interrupted)),
        }
    }

    /// The line that the prompt shows: the request and the text.
    pub open spec fn shown(self) -> Seq<char> {
        self.prompt + ": "@ + self.line.text
    }

    /// The part of the shown line that stands left of the cursor.
    pub open spec fn before_caret(self) -> Seq<char> {
        self.prompt + ": "@ + self.line.text.take(self.line.cursor as int)
    }
}

/// A prompt that has ended stays as it is and leaves the history as it is,
/// whatever key arrives; a key never takes a prompt or a history out of a
/// well-formed state, nor changes what the prompt was set up with; and only
/// Enter on an active prompt changes what the history holds.
pub proof fn lemma_input_step(prompt: InputView, key: Key, history: HistoryView)
    requires
        prompt.wf(),
        history.wf(),
    ensures
        prompt.step(key, history).0.wf(),
        prompt.step(key, history).1.wf(),
        prompt.step(key, history).0.prompt == prompt.prompt,
        prompt.step(key, history).0.allow_empty == prompt.allow_empty,
        prompt.status != Status::Active ==> prompt.step(key, history) == (prompt, history),
        key != Key::Enter ==> prompt.step(key, history).1.entries == history.entries,
{
    if key == Key::Enter {
        crate::history::lemma_without(history.entries, prompt.line.text);
    }
}

/// A prompt for a line of text.
pub struct Input {
    prompt: String,
    allow_empty: bool,
    line: LineBuffer,
    status: Status,
}

impl View for Input {
    type V = InputView;

    closed spec fn view(&self) -> InputView {
        InputView {
            prompt: self.prompt@,
            allow_empty: self.allow_empty,
            line: self.line@,
            status: self.status,
        }
    }
}

impl Input {
    /// The prompt is well formed if its content is.
    pub open spec fn wf(self) -> bool {
        self@.wf()
    }

    /// An active prompt that shows `prompt` and starts out with the line
    /// `initial`, the cursor behind it.
    pub fn new(prompt: &str, initial: &str, allow_empty: bool) -> (r: Self)
        ensures
            r.wf(),
            r@ == (InputView {
                prompt: prompt@,
                allow_empty,
                line: LineView::of(initial@),
                status: Status::Active,
            }),
    {
        Input {
            prompt: prompt.to_owned(),
            allow_empty,
            line: LineBuffer::from_text(initial),
            status: Status::Active,
        }
    }

    /// Where the prompt stands.
    pub fn status(&self) -> (r: Status)
        ensures
            r == self@.status,
    {
        self.status
    }

    /// The text of the line under edit.
    pub fn text(&self) -> (r: String)
        ensures
            r@ == self@.line.text,
    {
        self.line.text()
    }

    /// The position of the cursor in the line under edit.
    pub fn cursor(&self) -> (r: usize)
        ensures
            r == self@.line.cursor,
    {
        self.line.cursor()
    }

    /// Takes one key. Recall reads from `history`, and a confirmed line is
    /// pushed to it.
    pub fn step(&mut self, key: Key, history: &mut History)
        requires
            old(self).wf(),
            old(history).wf(),
        ensures
            final(self).wf(),
            final(history).wf(),
            (final(self)@, final(history)@) == old(self)@.step(key, old(history)@),
            old(self)@.status != Status::Active ==> *final(self) == *old(self) && *final(history)
                == *old(history),
    {
        if self.status != Status::Active {
            return ;
        }
        if key.is_cancel() {
            self.status = Status::Cancelled;
            history.reset_cursor();
            return ;
        }
        match key {
            Key::Enter => {
                if self.allow_empty || !self.line.is_empty() {
                    self.status = Status::Confirmed;
                    let text = self.line.text();
                    history.push(text.as_str());
                    history.reset_cursor();
                }
            },
            Key::Backspace => {
                self.line.delete_backward();
                history.reset_cursor();
            },
            Key::Delete => {
                self.line.delete_forward();
                history.reset_cursor();
            },
            Key::Left => {
                self.line.move_left();
            },
            Key::Right => {
                self.line.move_right();
            },
            Key::Home => {
                self.line.move_to_start();
            },
            Key::End => {
                self.line.move_to_end();
            },
            Key::Up => {
                match history.recall_previous() {
                    Some(entry) => {
                        self.line.replace_all(entry.as_str());
                    },
                    None => {},
                }
            },
            Key::Down => {
                if history.cursor().is_some() {
                    match history.recall_next() {
                        Some(entry) => {
                            self.line.replace_all(entry.as_str());
                        },
                        None => {
                            proof {
                                reveal_strlit("");
                                assert(""@ =~= Seq::<char>::empty());
                            }
                            self.line.replace_all("");
                        },
                    }
                }
            },
            _ => {
                match key.typed_char() {
                    Some(c) => {
                        self.line.insert(c);
                        history.reset_cursor();
                    },
                    None => {},
                }
            },
        }
    }

    /// What the prompt gives: nothing while it is active, the line once it
    /// is confirmed, and the error `Interrupted` once it is cancelled.
    pub fn outcome(&self) -> (r: Option<Result<String, PromptError>>)
        ensures
            match r {
                Some(Ok(text)) => self@.outcome() == Some(Ok::<Seq<char>, PromptError>(text@)),
                Some(Err(e)) => self@.outcome() == Some(Err::<Seq<char>, PromptError>(e)),
                None => self@.outcome() is None,
            },
    {
        match self.status {
            Status::Active => None,
            Status::Confirmed => Some(Ok(self.line.text())),
            Status::Cancelled => Some(Err(PromptError::Interrupted)),
        }
    }

    /// The part of the shown line that stands left of the cursor. Its width
    /// on the screen is the column on which the cursor belongs.
    pub fn before_caret(&self) -> (r: String)
        requires
            self.wf(),
        ensures
            r@ == self@.before_caret(),
    {
        let mut line = self.prompt.clone();
        line.append(": ");
        let ghost head = line@;
        let text = chars_of(self.line.text().as_str());
        let cursor = self.line.cursor();
        let mut i: usize = 0;
        while i < cursor
            invariant
                i <= cursor <= text@.len(),
                line@ == head + text@.take(i as int),
            decreases cursor - i,
        {
            push_char(&mut line, text[i]);
            i = i + 1;
            assert(line@ =~= head + text@.take(i as int));
        }
        line
    }

    /// The lines that the prompt shows: the request and the text, on one
    /// line.
    pub fn frame(&self) -> (r: Vec<String>)
        ensures
            r.deep_view() == seq![self@.shown()],
    {
        let mut line = self.prompt.clone();
        line.append(": ");
        let text = self.line.text();
        line.append(text.as_str());
        let mut lines: Vec<String> = Vec::new();
        lines.push(line);
        assert(lines.deep_view() =~= seq![self@.shown()]);
        lines
    }
}

} // verus!
