//! The yes-or-no prompt.

use vstd::prelude::*;
use crate::error::{PromptError, Status};
use crate::key::Key;

verus! {

/// The hint that a confirm prompt shows behind its question: the default
/// answer, if there is one, is the capital letter.
pub open spec fn hint(default: Option<bool>) -> Seq<char> {
    match default {
        Some(true) => " [Y/n] "@,
        Some(false) => " [y/N] "@,
        None => " [y/n] "@,
    }
}

/// How a confirm prompt shows the answer given so far.
pub open spec fn shown(answer: Option<bool>) -> Seq<char> {
    match answer {
        Some(true) => "yes"@,
        Some(false) => "no"@,
        None => ""@,
    }
}

/// The mathematical content of a [`Confirm`] prompt.
pub struct ConfirmView {
    /// The question.
    pub prompt: Seq<char>,
    /// The answer that Enter gives when the user has given none.
    pub default: Option<bool>,
    /// Whether an answer must be confirmed with Enter.
    pub wait_for_newline: bool,
    /// The answer given so far.
    pub answer: Option<bool>,
    /// Where the prompt stands.
    pub status: Status,
}

impl ConfirmView {
    /// A confirmed prompt has an answer.
    pub open spec fn wf(self) -> bool {
        self.status == Status::Confirmed ==> self.answer is Some
    }

    /// The state after the user answered `value`: the answer is recorded,
    /// and it ends the prompt unless Enter is waited for.
    pub open spec fn answered(self, value: bool) -> ConfirmView {
        ConfirmView {
            answer: Some(value),
            status: if self.wait_for_newline {
                Status::Active
            } else {
                Status::Confirmed
            },
            ..self
        }
    }

    /// The state after the key `key`.
    ///
    /// Escape and Ctrl-C cancel. `y` and `n`, in either case, answer. Enter
    /// confirms the answer given so far, or else the default; with neither
    /// it does nothing. Every other key does nothing, and so does any key
    /// once the prompt has ended.
    pub open spec fn step(self, key: Key) -> ConfirmView {
        if self.status != Status::Active {
            self
        } else if key.cancels() {
            ConfirmView { status: Status::Cancelled, ..self }
        } else if key == Key::Char('y') || key == Key::Char('Y') {
            self.answered(true)
        } else if key == Key::Char('n') || key == Key::Char('N') {
            self.answered(false)
        } else if key == Key::Enter {
            if self.answer is Some {
                ConfirmView { status: Status::Confirmed, ..self }
            } else if self.default is Some {
                ConfirmView { answer: self.default, status: Status::Confirmed, ..self }
            } else {
                self
            }
        } else {
            self
        }
    }

    /// What the prompt gives: nothing while it is active, the answer once it
    /// is confirmed, and the error `Interrupted` once it is cancelled.
    pub open spec fn outcome(self) -> Option<Result<bool, PromptError>> {
        match self.status {
            Status::Active => None,
            Status::Confirmed => Some(Ok(self.answer->0)),
            Status::Cancelled => Some(Err(PromptError::Interrupted)),
        }
    }

    /// The line that the prompt shows.
    pub open spec fn line(self) -> Seq<char> {
        self.prompt + hint(self.default) + shown(self.answer)
    }
}

/// A prompt that has ended stays as it is, whatever key arrives; a key never
/// takes a prompt out of a well-formed state, nor changes what it was set up
/// with; and a key that cancels makes an active prompt give `Interrupted`.
pub proof fn lemma_confirm_step(prompt: ConfirmView, key: Key)
    requires
        prompt.wf(),
    ensures
        prompt.step(key).wf(),
        prompt.step(key).prompt == prompt.prompt,
        prompt.step(key).default == prompt.default,
        prompt.step(key).wait_for_newline == prompt.wait_for_newline,
        prompt.status != Status::Active ==> prompt.step(key) == prompt,
        prompt.status == Status::Active && key.cancels() ==> prompt.step(key).outcome() == Some(
            Err::<bool, PromptError>(PromptError::Interrupted),
        ),
{
}

/// Where Enter is not waited for, `y` and `n` end an active prompt at once,
/// with `true` and `false`.
pub proof fn lemma_confirm_answers_at_once(prompt: ConfirmView, value: bool)
    requires
        prompt.status == Status::Active,
        !prompt.wait_for_newline,
    ensures
        prompt.answered(value).outcome() == Some(Ok::<bool, PromptError>(value)),
        prompt.step(Key::Char('y')).outcome() == Some(Ok::<bool, PromptError>(true)),
        prompt.step(Key::Char('n')).outcome() == Some(Ok::<bool, PromptError>(false)),
{
}

/// A yes-or-no prompt.
pub struct Confirm {
    prompt: String,
    default: Option<bool>,
    wait_for_newline: bool,
    answer: Option<bool>,
    status: Status,
}

impl View for Confirm {
    type V = ConfirmView;

    closed spec fn view(&self) -> ConfirmView {
        ConfirmView {
            prompt: self.prompt@,
            default: self.default,
            wait_for_newline: self.wait_for_newline,
            answer: self.answer,
            status: self.status,
        }
    }
}

impl Confirm {
    /// The prompt is well formed if its content is.
    pub open spec fn wf(self) -> bool {
        self@.wf()
    }

    /// An active prompt that asks `prompt`, without an answer so far.
    pub fn new(prompt: &str, default: Option<bool>, wait_for_newline: bool) -> (r: Self)
        ensures
            r.wf(),
            r@ == (ConfirmView {
                prompt: prompt@,
                default,
                wait_for_newline,
                answer: None,
                status: Status::Active,
            }),
    {
        Confirm {
            prompt: prompt.to_owned(),
            default,
            wait_for_newline,
            answer: None,
            status: Status::Active,
        }
    }

    /// Where the prompt stands.
    pub fn status(&self) -> (r: Status)
        ensures
            r == self@.status,
    {
        self.status
    }

    /// The answer given so far.
    pub fn answer(&self) -> (r: Option<bool>)
        ensures
            r == self@.answer,
    {
        self.answer
    }

    /// Takes one key.
    pub fn step(&mut self, key: Key)
        requires
            old(self).wf(),
        ensures
            final(self).wf(),
            final(self)@ == old(self)@.step(key),
            old(self)@.status != Status::Active ==> *final(self) == *old(self),
    {
        if self.status != Status::Active {
            return ;
        }
        if key.is_cancel() {
            self.status = Status::Cancelled;
            return ;
        }
        match key {
            Key::Char(c) => {
                if c == 'y' || c == 'Y' {
                    self.answer = Some(true);
                    if !self.wait_for_newline {
                        self.status = Status::Confirmed;
                    }
                } else if c == 'n' || c == 'N' {
                    self.answer = Some(false);
                    if !self.wait_for_newline {
                        self.status = Status::Confirmed;
                    }
                }
            },
            Key::Enter => {
                if self.answer.is_some() {
                    self.status = Status::Confirmed;
                } else if self.default.is_some() {
                    self.answer = self.default;
                    self.status = Status::Confirmed;
                }
            },
            _ => {},
        }
    }

    /// What the prompt gives: nothing while it is active, the answer once it
    /// is confirmed, and the error `Interrupted` once it is cancelled.
    pub fn outcome(&self) -> (r: Option<Result<bool, PromptError>>)
        requires
            self.wf(),
        ensures
            r == self@.outcome(),
    {
        match self.status {
            Status::Active => None,
            Status::Confirmed => Some(Ok(self.answer.unwrap())),
            Status::Cancelled => Some(Err(PromptError::Interrupted)),
        }
    }

    /// The lines that the prompt shows: the question, the hint and the
    /// answer so far, on one line.
    pub fn frame(&self) -> (r: Vec<String>)
        ensures
            r.deep_view() == seq![self@.line()],
    {
        let mut line = self.prompt.clone();
        match self.default {
            Some(true) => line.append(" [Y/n] "),
            Some(false) => line.append(" [y/N] "),
            None => line.append(" [y/n] "),
        }
        match self.answer {
            Some(true) => line.append("yes"),
            Some(false) => line.append("no"),
            None => line.append(""),
        }
        let mut lines: Vec<String> = Vec::new();
        lines.push(line);
        assert(lines.deep_view() =~= seq![self@.line()]);
        lines
    }
}

} // verus!
