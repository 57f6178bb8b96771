//! What all prompts share, and the run of one prompt in front of a screen.
//!
//! Every prompt is a state machine of the same shape: it is active until a
//! key confirms or cancels it, and then it stays as it is. A session pairs a
//! prompt with a renderer: each key is handed to the prompt, and what the
//! prompt then shows is drawn by its difference from what was drawn before.
//! The caller reads the keys and carries out the terminal operations.

use vstd::prelude::*;
use crate::error::{PromptError, Status};
use crate::history::History;
use crate::key::Key;
use crate::prompt::confirm::Confirm;
use crate::prompt::fuzzy_select::FuzzySelect;
use crate::prompt::input::Input;
use crate::prompt::multi_select::MultiSelect;
use crate::prompt::password::Password;
use crate::prompt::sort::Sort;
use crate::render::{changes, extent, RenderOp, Renderer};

verus! {

/// A prompt: a state machine that takes keys until it is confirmed or
/// cancelled.
pub trait Prompt: Sized {
    /// What a confirmed prompt gives.
    type Output;

    /// The prompt is well formed.
    spec fn sound(&self) -> bool;

    /// Where the prompt stands.
    spec fn stage(&self) -> Status;

    /// The lines that the prompt shows.
    spec fn shown(&self) -> Seq<Seq<char>>;

    /// `next` is the prompt after the key `key`.
    spec fn steps_to(&self, key: Key, next: &Self) -> bool;

    /// `outcome` is what the prompt gives as it stands.
    spec fn gives(&self, outcome: Option<Result<Self::Output, PromptError>>) -> bool;

    /// Takes one key. A prompt that has ended ignores it; Escape and Ctrl-C
    /// cancel an active prompt.
    fn take(&mut self, key: Key)
        requires
            old(self).sound(),
        ensures
            final(self).sound(),
            old(self).steps_to(key, final(self)),
            old(self).stage() != Status::Active ==> *final(self) == *old(self),
            old(self).stage() == Status::Active && key.cancels() ==> final(self).stage()
                == Status::Cancelled,
    ;

    /// The lines that the prompt shows.
    fn lines(&self) -> (r: Vec<String>)
        requires
            self.sound(),
        ensures
            r.deep_view() == self.shown(),
    ;

    /// What the prompt gives: nothing while it is active, a value once it is
    /// confirmed, and the error `Interrupted` once it is cancelled.
    fn result(&self) -> (r: Option<Result<Self::Output, PromptError>>)
        requires
            self.sound(),
        ensures
            self.gives(r),
            match self.stage() {
                Status::Active => r is None,
                Status::Confirmed => r matches Some(Ok(_)),
                Status::Cancelled => r matches Some(Err(e)) && e == PromptError::Interrupted,
            },
    ;
}

impl Prompt for Confirm {
    type Output = bool;

    open spec fn sound(&self) -> bool {
        self.wf()
    }

    open spec fn stage(&self) -> Status {
        self@.status
    }

    open spec fn shown(&self) -> Seq<Seq<char>> {
        seq![self@.line()]
    }

    open spec fn steps_to(&self, key: Key, next: &Self) -> bool {
        next@ == self@.step(key)
    }

    open spec fn gives(&self, outcome: Option<Result<bool, PromptError>>) -> bool {
        outcome == self@.outcome()
    }

    fn take(&mut self, key: Key) {
        self.step(key)
    }

    fn lines(&self) -> (r: Vec<String>) {
        self.frame()
    }

    fn result(&self) -> (r: Option<Result<bool, PromptError>>) {
        self.outcome()
    }
}

impl Prompt for Password {
    type Output = String;

    open spec fn sound(&self) -> bool {
        self.wf()
    }

    open spec fn stage(&self) -> Status {
        self@.status
    }

    open spec fn shown(&self) -> Seq<Seq<char>> {
        seq![self@.shown()]
    }

    open spec fn steps_to(&self, key: Key, next: &Self) -> bool {
        next@ == self@.step(key)
    }

    open spec fn gives(&self, outcome: Option<Result<String, PromptError>>) -> bool {
        match outcome {
            Some(Ok(secret)) => self@.outcome() == Some(Ok::<Seq<char>, PromptError>(secret@)),
            Some(Err(e)) => self@.outcome() == Some(Err::<Seq<char>, PromptError>(e)),
            None => self@.outcome() is None,
        }
    }

    fn take(&mut self, key: Key) {
        self.step(key)
    }

    fn lines(&self) -> (r: Vec<String>) {
        self.frame()
    }

    fn result(&self) -> (r: Option<Result<String, PromptError>>) {
        self.outcome()
    }
}

impl Prompt for FuzzySelect {
    type Output = usize;

    open spec fn sound(&self) -> bool {
        self.wf()
    }

    open spec fn stage(&self) -> Status {
        self@.status
    }

    open spec fn shown(&self) -> Seq<Seq<char>> {
        self@.lines()
    }

    open spec fn steps_to(&self, key: Key, next: &Self) -> bool {
        self@.steps(key, next@)
    }

    open spec fn gives(&self, outcome: Option<Result<usize, PromptError>>) -> bool {
        outcome == self@.outcome()
    }

    fn take(&mut self, key: Key) {
        self.step(key)
    }

    fn lines(&self) -> (r: Vec<String>) {
        self.frame()
    }

    fn result(&self) -> (r: Option<Result<usize, PromptError>>) {
        self.outcome()
    }
}

impl Prompt for MultiSelect {
    type Output = Vec<usize>;

    open spec fn sound(&self) -> bool {
        self.wf()
    }

    open spec fn stage(&self) -> Status {
        self@.status
    }

    open spec fn shown(&self) -> Seq<Seq<char>> {
        self@.lines()
    }

    open spec fn steps_to(&self, key: Key, next: &Self) -> bool {
        next@ == self@.step(key)
    }

    open spec fn gives(&self, outcome: Option<Result<Vec<usize>, PromptError>>) -> bool {
        match outcome {
            Some(Ok(items)) => self@.outcome() == Some(Ok::<Seq<usize>, PromptError>(items@)),
            Some(Err(e)) => self@.outcome() == Some(Err::<Seq<usize>, PromptError>(e)),
            None => self@.outcome() is None,
        }
    }

    fn take(&mut self, key: Key) {
        self.step(key)
    }

    fn lines(&self) -> (r: Vec<String>) {
        self.frame()
    }

    fn result(&self) -> (r: Option<Result<Vec<usize>, PromptError>>) {
        self.outcome()
    }
}

impl Prompt for Sort {
    type Output = Vec<usize>;

    open spec fn sound(&self) -> bool {
        self.wf()
    }

    open spec fn stage(&self) -> Status {
        self@.status
    }

    open spec fn shown(&self) -> Seq<Seq<char>> {
        self@.lines()
    }

    open spec fn steps_to(&self, key: Key, next: &Self) -> bool {
        next@ == self@.step(key)
    }

    open spec fn gives(&self, outcome: Option<Result<Vec<usize>, PromptError>>) -> bool {
        match outcome {
            Some(Ok(order)) => self@.outcome() == Some(Ok::<Seq<usize>, PromptError>(order@)),
            Some(Err(e)) => self@.outcome() == Some(Err::<Seq<usize>, PromptError>(e)),
            None => self@.outcome() is None,
        }
    }

    fn take(&mut self, key: Key) {
        self.step(key)
    }

    fn lines(&self) -> (r: Vec<String>) {
        self.frame()
    }

    fn result(&self) -> (r: Option<Result<Vec<usize>, PromptError>>) {
        self.outcome()
    }
}

/// An input prompt together with the history that it recalls from and
/// pushes to. The caller hands its history in and takes it back when the
/// prompt has ended.
pub struct Recall {
    prompt: Input,
    history: History,
}

impl Recall {
    /// The input prompt.
    pub closed spec fn input(self) -> Input {
        self.prompt
    }

    /// The history.
    pub closed spec fn history(self) -> History {
        self.history
    }

    /// Pairs the prompt with the history.
    pub fn new(prompt: Input, history: History) -> (r: Self)
        ensures
            r.input() == prompt,
            r.history() == history,
    {
        Recall { prompt, history }
    }

    /// The part of the shown line that stands left of the cursor.
    pub fn before_caret(&self) -> (r: String)
        requires
            self.input().wf(),
        ensures
            r@ == self.input()@.before_caret(),
    {
        self.prompt.before_caret()
    }

    /// Gives the prompt and the history back.
    pub fn into_parts(self) -> (r: (Input, History))
        ensures
            r.0 == self.input(),
            r.1 == self.history(),
    {
        (self.prompt, self.history)
    }
}

impl Prompt for Recall {
    type Output = String;

    open spec fn sound(&self) -> bool {
        self.input().wf() && self.history().wf()
    }

    open spec fn stage(&self) -> Status {
        self.input()@.status
    }

    open spec fn shown(&self) -> Seq<Seq<char>> {
        seq![self.input()@.shown()]
    }

    open spec fn steps_to(&self, key: Key, next: &Self) -> bool {
        (next.input()@, next.history()@) == self.input()@.step(key, self.history()@)
    }

    open spec fn gives(&self, outcome: Option<Result<String, PromptError>>) -> bool {
        match outcome {
            Some(Ok(text)) => self.input()@.outcome() == Some(Ok::<Seq<char>, PromptError>(text@)),
            Some(Err(e)) => self.input()@.outcome() == Some(Err::<Seq<char>, PromptError>(e)),
            None => self.input()@.outcome() is None,
        }
    }

    fn take(&mut self, key: Key) {
        self.prompt.step(key, &mut self.history)
    }

    fn lines(&self) -> (r: Vec<String>) {
        self.prompt.frame()
    }

    fn result(&self) -> (r: Option<Result<String, PromptError>>) {
        self.prompt.outcome()
    }
}

/// What one key brought: the terminal operations that bring the screen up
/// to date, and what the prompt gives if it has ended.
pub struct Turn<T> {
    /// The operations to carry out, in order.
    pub ops: Vec<RenderOp>,
    /// What the prompt gives, once it has ended.
    pub done: Option<Result<T, PromptError>>,
}

/// The run of one prompt in front of a screen.
pub struct Session<P: Prompt> {
    prompt: P,
    renderer: Renderer,
}

impl<P: Prompt> Session<P> {
    /// The prompt as it stands.
    pub closed spec fn prompt(self) -> P {
        self.prompt
    }

    /// The frame on the screen.
    pub closed spec fn drawn(self) -> Seq<Seq<char>> {
        self.renderer@
    }

    /// The prompt is well formed.
    pub open spec fn wf(self) -> bool {
        self.prompt().sound()
    }

    /// A session for `prompt` in front of a screen on which nothing of the
    /// prompt is drawn yet.
    pub fn new(prompt: P) -> (r: Self)
        requires
            prompt.sound(),
        ensures
            r.wf(),
            r.prompt() == prompt,
            r.drawn() == Seq::<Seq<char>>::empty(),
    {
        Session { prompt, renderer: Renderer::new() }
    }

    /// The prompt as it stands.
    pub fn current(&self) -> (r: &P)
        ensures
            *r == self.prompt(),
    {
        &self.prompt
    }

    /// The operations that bring the screen up to date with what the prompt
    /// shows. Before the first key they draw the prompt.
    pub fn draw(&mut self) -> (ops: Vec<RenderOp>)
        requires
            old(self).wf(),
        ensures
            final(self).wf(),
            final(self).prompt() == old(self).prompt(),
            final(self).drawn() == old(self).prompt().shown(),
            ops.deep_view() == changes(
                old(self).drawn(),
                old(self).prompt().shown(),
                extent(old(self).drawn(), old(self).prompt().shown()),
            ),
    {
        let frame = self.prompt.lines();
        self.renderer.render(frame)
    }

    /// Hands `key` to the prompt and brings the screen up to date with what
    /// the prompt shows then.
    pub fn turn(&mut self, key: Key) -> (r: Turn<P::Output>)
        requires
            old(self).wf(),
        ensures
            final(self).wf(),
            old(self).prompt().steps_to(key, &final(self).prompt()),
            old(self).prompt().stage() != Status::Active ==> final(self).prompt() == old(
                self,
            ).prompt(),
            final(self).drawn() == final(self).prompt().shown(),
            r.ops.deep_view() == changes(
                old(self).drawn(),
                final(self).prompt().shown(),
                extent(old(self).drawn(), final(self).prompt().shown()),
            ),
            final(self).prompt().gives(r.done),
            r.done is None <==> final(self).prompt().stage() == Status::Active,
    {
        self.prompt.take(key);
        let frame = self.prompt.lines();
        let ops = self.renderer.render(frame);
        let done = self.prompt.result();
        Turn { ops, done }
    }

    /// Ends the session and gives the prompt back.
    pub fn into_prompt(self) -> (r: P)
        ensures
            r == self.prompt(),
    {
        self.prompt
    }
}

} // verus!
