//! The prompt for a secret, which is never shown.

use vstd::prelude::*;
use crate::error::{PromptError, Status};
use crate::key::Key;
use crate::line_buffer::{LineBuffer, LineView};
use crate::text::push_char;

verus! {

/// The glyph that stands for one character of a secret.
pub const MASK: char = '*';

/// What a password prompt shows in place of a secret of `len` characters.
pub open spec fn mask(len: nat) -> Seq<char> {
    Seq::new(len, |i: int| MASK)
}

/// The mathematical content of a [`Password`] prompt.
pub struct PasswordView {
    /// The request shown to the user.
    pub prompt: Seq<char>,
    /// Whether Enter accepts an empty secret.
    pub allow_empty: bool,
    /// The secret typed so far.
    pub line: LineView,
    /// Where the prompt stands.
    pub status: Status,
}

impl PasswordView {
    /// The line under edit is well formed.
    pub open spec fn wf(self) -> bool {
        self.line.wf()
    }

    /// Whether Enter would confirm the prompt as it stands.
    pub open spec fn acceptable(self) -> bool {
        self.allow_empty || self.line.text.len() > 0
    }

    /// The state after the key `key`.
    ///
    /// Escape and Ctrl-C cancel. Enter confirms, unless the secret is empty
    /// and must not be. A character is added at the cursor and Backspace
    /// removes the one before it. Every other key does nothing, and so does
    /// any key once the prompt has ended.
    pub open spec fn step(self, key: Key) -> PasswordView {
        if self.status != Status::Active {
            self
        } else if key.cancels() {
            PasswordView { status: Status::Cancelled, ..self }
        } else if key == Key::Enter {
            if self.acceptable() {
                PasswordView { status: Status::Confirmed, ..self }
            } else {
                self
            }
        } else if key.typed() is Some {
            PasswordView { line: self.line.insert(key.typed()->0), ..self }
        } else if key == Key::Backspace {
            PasswordView { line: self.line.delete_backward(), ..self }
        } else {
            self
        }
    }

    /// What the prompt gives: nothing while it is active, the secret once it
    /// is confirmed, and the error `Interrupted` once it is cancelled.
    pub open spec fn outcome(self) -> Option<Result<Seq<char>, PromptError>> {
        match self.status {
            Status::Active => None,
            Status::Confirmed => Some(Ok(self.line.text)),
            Status::Cancelled => Some(Err(PromptError::Interrupted)),
        }
    }

    /// The line that the prompt shows: the request and one glyph for each
    /// character of the secret, never the secret itself.
    pub open spec fn shown(self) -> Seq<char> {
        self.prompt + ": "@ + mask(self.line.text.len())
    }
}

/// A prompt that has ended stays as it is, whatever key arrives; a key never
/// takes a prompt out of a well-formed state, nor changes what it was set up
/// with; and what it shows never holds a character of the secret's place
/// other than the mask.
pub proof fn lemma_password_step(prompt: PasswordView, key: Key)
    requires
        prompt.wf(),
    ensures
        prompt.step(key).wf(),
        prompt.step(key).prompt == prompt.prompt,
        prompt.step(key).allow_empty == prompt.allow_empty,
        prompt.shown().len() == prompt.prompt.len() + 2 + prompt.line.text.len(),
        forall|i: int|
            prompt.prompt.len() + 2 <= i < prompt.shown().len() ==> #[trigger] prompt.shown()[i]
                == MASK,
        prompt.status != Status::Active ==> prompt.step(key) == prompt,
{
    reveal_strlit(": ");
}

/// Whether a secret and its repetition agree: they do exactly if they are
/// the same characters in the same order. Nothing is trimmed or folded.
pub fn passwords_match(first: &str, second: &str) -> (r: bool)
    ensures
        r == (first@ == second@),
{
    let a = first.to_owned();
    let b = second.to_owned();
    a == b
}

/// A prompt for a secret.
pub struct Password {
    prompt: String,
    allow_empty: bool,
    line: LineBuffer,
    status: Status,
}

impl View for Password {
    type V = PasswordView;

    closed spec fn view(&self) -> PasswordView {
        PasswordView {
            prompt: self.prompt@,
            allow_empty: self.allow_empty,
            line: self.line@,
            status: self.status,
        }
    }
}

impl Password {
    /// The prompt is well formed if its content is.
    pub open spec fn wf(self) -> bool {
        self@.wf()
    }

    /// An active prompt that shows `prompt`, with nothing typed.
    pub fn new(prompt: &str, allow_empty: bool) -> (r: Self)
        ensures
            r.wf(),
            r@ == (PasswordView {
                prompt: prompt@,
                allow_empty,
                line: LineView::of(Seq::<char>::empty()),
                status: Status::Active,
            }),
    {
        Password {
            prompt: prompt.to_owned(),
            allow_empty,
            line: LineBuffer::new(),
            status: Status::Active,
        }
    }

    /// Where the prompt stands.
    pub fn status(&self) -> (r: Status)
        ensures
            r == self@.status,
    {
        self.status
    }

    /// Takes one key.
    pub fn step(&mut self, key: Key)
        requires
            old(self).wf(),
        ensures
            final(self).wf(),
            final(self)@ == old(self)@.step(key),
            old(self)@.status != Status::Active ==> *final(self) == *old(self),
    {
        if self.status != Status::Active {
            return ;
        }
        if key.is_cancel() {
            self.status = Status::Cancelled;
            return ;
        }
        match key {
            Key::Enter => {
                if self.allow_empty || !self.line.is_empty() {
                    self.status = Status::Confirmed;
                }
            },
            Key::Backspace => {
                self.line.delete_backward();
            },
            _ => {
                match key.typed_char() {
                    Some(c) => {
                        self.line.insert(c);
                    },
                    None => {},
                }
            },
        }
    }

    /// What the prompt gives: nothing while it is active, the secret once it
    /// is confirmed, and the error `Interrupted` once it is cancelled.
    pub fn outcome(&self) -> (r: Option<Result<String, PromptError>>)
        ensures
            match r {
                Some(Ok(secret)) => self@.outcome() == Some(Ok::<Seq<char>, PromptError>(secret@)),
                Some(Err(e)) => self@.outcome() == Some(Err::<Seq<char>, PromptError>(e)),
                None => self@.outcome() is None,
            },
    {
        match self.status {
            Status::Active => None,
            Status::Confirmed => Some(Ok(self.line.text())),
            Status::Cancelled => Some(Err(PromptError::Interrupted)),
        }
    }

    /// The lines that the prompt shows: the request and the masked secret,
    /// on one line.
    pub fn frame(&self) -> (r: Vec<String>)
        ensures
            r.deep_view() == seq![self@.shown()],
    {
        let mut line = self.prompt.clone();
        line.append(": ");
        let ghost head = line@;
        let n = self.line.len();
        let mut i: usize = 0;
        while i < n
            invariant
                i <= n,
                line@ == head + mask(i as nat),
            decreases n - i,
        {
            push_char(&mut line, MASK);
            i = i + 1;
            assert(line@ =~= head + mask(i as nat));
        }
        let mut lines: Vec<String> = Vec::new();
        lines.push(line);
        assert(lines.deep_view() =~= seq![self@.shown()]);
        lines
    }
}

} // verus!
