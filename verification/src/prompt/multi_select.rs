//! The prompt that lets the user check any number of items.

use vstd::prelude::*;
use crate::error::{PromptError, Status};
use crate::frame::{boxed_row, heading, make_boxed_row, make_heading};
use crate::key::Key;
use crate::select::{ring_next, ring_prev, CheckList, CheckView};

verus! {

/// The mathematical content of a [`MultiSelect`] prompt.
pub struct MultiSelectView {
    /// The request shown to the user.
    pub prompt: Seq<char>,
    /// The labels of the items.
    pub labels: Seq<Seq<char>>,
    /// The checkboxes and the highlight.
    pub list: CheckView,
    /// Where the prompt stands.
    pub status: Status,
}

impl MultiSelectView {
    /// The list is well formed and has a checkbox for each label.
    pub open spec fn wf(self) -> bool {
        &&& self.list.wf()
        &&& self.labels.len() == self.list.len
    }

    /// The state after the key `key`.
    ///
    /// Escape and Ctrl-C cancel. Enter confirms. Up and Down move the
    /// highlight around the ring of rows and leave the checkboxes alone.
    /// The space bar flips the checkbox of the highlighted item. Every other
    /// key does nothing, and so does any key once the prompt has ended.
    pub open spec fn step(self, key: Key) -> MultiSelectView {
        if self.status != Status::Active {
            self
        } else if key.cancels() {
            MultiSelectView { status: Status::Cancelled, ..self }
        } else if key == Key::Enter {
            MultiSelectView { status: Status::Confirmed, ..self }
        } else if key == Key::Up {
            MultiSelectView {
                list: CheckView { cursor: ring_prev(self.list.cursor, self.list.len), ..self.list },
                ..self
            }
        } else if key == Key::Down {
            MultiSelectView {
                list: CheckView { cursor: ring_next(self.list.cursor, self.list.len), ..self.list },
                ..self
            }
        } else if key.is_space() {
            MultiSelectView { list: self.list.toggle(self.list.cursor), ..self }
        } else {
            self
        }
    }

    /// What the prompt gives: nothing while it is active, the checked items
    /// in rising order once it is confirmed, and the error `Interrupted`
    /// once it is cancelled.
    pub open spec fn outcome(self) -> Option<Result<Seq<usize>, PromptError>> {
        match self.status {
            Status::Active => None,
            Status::Confirmed => Some(Ok(self.list.selected())),
            Status::Cancelled => Some(Err(PromptError::Interrupted)),
        }
    }

    /// The lines that the prompt shows: the heading, then one row for each
    /// item.
    pub open spec fn lines(self) -> Seq<Seq<char>> {
        seq![heading(self.prompt)] + Seq::new(
            self.labels.len(),
            |i: int| boxed_row(i == self.list.cursor, self.list.checked.contains(i), self.labels[i]),
        )
    }
}

/// A prompt that has ended stays as it is, whatever key arrives; a key never
/// takes a prompt out of a well-formed state, nor changes what it was set up
/// with; and moving the highlight leaves the checked items as they are.
pub proof fn lemma_multi_select_step(prompt: MultiSelectView, key: Key)
    requires
        prompt.wf(),
    ensures
        prompt.step(key).wf(),
        prompt.step(key).prompt == prompt.prompt,
        prompt.step(key).labels == prompt.labels,
        prompt.status != Status::Active ==> prompt.step(key) == prompt,
        key == Key::Up || key == Key::Down ==> prompt.step(key).list.checked == prompt.list.checked,
{
}

/// A prompt with a checkbox for each item.
pub struct MultiSelect {
    prompt: String,
    labels: Vec<String>,
    list: CheckList,
    status: Status,
}

impl View for MultiSelect {
    type V = MultiSelectView;

    closed spec fn view(&self) -> MultiSelectView {
        MultiSelectView {
            prompt: self.prompt@,
            labels: self.labels.deep_view(),
            list: self.list@,
            status: self.status,
        }
    }
}

impl MultiSelect {
    /// The prompt is well formed if its content is.
    pub open spec fn wf(self) -> bool {
        self@.wf()
    }

    /// An active prompt over the items `labels`, where item `i` starts out
    /// checked if `defaults[i]` is set. It is refused where there is no
    /// item, or not one default for each item.
    pub fn new(prompt: &str, labels: Vec<String>, defaults: Vec<bool>) -> (r: Result<
        Self,
        PromptError,
    >)
        ensures
            match r {
                Ok(p) => {
                    &&& labels@.len() > 0
                    &&& labels@.len() == defaults@.len()
                    &&& p.wf()
                    &&& p@.prompt == prompt@
                    &&& p@.labels == labels.deep_view()
                    &&& p@.status == Status::Active
                    &&& p@.list.cursor == 0
                    &&& forall|i: int|
                        #[trigger] p@.list.checked.contains(i) <==> (0 <= i < defaults@.len()
                            && defaults@[i])
                },
                Err(e) => {
                    &&& labels@.len() == 0 || labels@.len() != defaults@.len()
                    &&& e == PromptError::InvalidConfiguration
                },
            },
    {
        if labels.len() != defaults.len() {
            return Err(PromptError::InvalidConfiguration);
        }
        match CheckList::new(defaults) {
            Ok(list) => Ok(
                MultiSelect { prompt: prompt.to_owned(), labels, list, status: Status::Active },
            ),
            Err(e) => Err(e),
        }
    }

    /// Where the prompt stands.
    pub fn status(&self) -> (r: Status)
        ensures
            r == self@.status,
    {
        self.status
    }

    /// The checkboxes and the highlight.
    pub fn list(&self) -> (r: &CheckList)
        ensures
            r@ == self@.list,
    {
        &self.list
    }

    /// Takes one key.
    pub fn step(&mut self, key: Key)
        requires
            old(self).wf(),
        ensures
            final(self).wf(),
            final(self)@ == old(self)@.step(key),
            old(self)@.status != Status::Active ==> *final(self) == *old(self),
    {
        if self.status != Status::Active {
            return ;
        }
        if key.is_cancel() {
            self.status = Status::Cancelled;
            return ;
        }
        if key.is_space_bar() {
            self.list.toggle_current();
            return ;
        }
        match key {
            Key::Enter => {
                self.status = Status::Confirmed;
            },
            Key::Up => {
                self.list.move_up();
            },
            Key::Down => {
                self.list.move_down();
            },
            _ => {},
        }
    }

    /// What the prompt gives: nothing while it is active, the checked items
    /// in rising order once it is confirmed, and the error `Interrupted`
    /// once it is cancelled.
    pub fn outcome(&self) -> (r: Option<Result<Vec<usize>, PromptError>>)
        ensures
            match r {
                Some(Ok(items)) => self@.outcome() == Some(Ok::<Seq<usize>, PromptError>(items@)),
                Some(Err(e)) => self@.outcome() == Some(Err::<Seq<usize>, PromptError>(e)),
                None => self@.outcome() is None,
            },
    {
        match self.status {
            Status::Active => None,
            Status::Confirmed => Some(Ok(self.list.selected())),
            Status::Cancelled => Some(Err(PromptError::Interrupted)),
        }
    }

    /// The lines that the prompt shows.
    pub fn frame(&self) -> (r: Vec<String>)
        requires
            self.wf(),
        ensures
            r.deep_view() == self@.lines(),
    {
        let mut lines: Vec<String> = Vec::new();
        lines.push(make_heading(self.prompt.as_str()));
        let cursor = self.list.cursor();
        let mut i: usize = 0;
        while i < self.labels.len()
            invariant
                self.wf(),
                i <= self.labels.len(),
                cursor == self@.list.cursor,
                lines@.len() == i + 1,
                lines@[0]@ == heading(self@.prompt),
                forall|j: int|
                    0 <= j < i ==> (#[trigger] lines@[j + 1])@ == boxed_row(
                        j == cursor,
                        self@.list.checked.contains(j),
                        self@.labels[j],
                    ),
            decreases self.labels.len() - i,
        {
            lines.push(make_boxed_row(i == cursor, self.list.is_checked(i), self.labels[i].as_str()));
            i = i + 1;
        }
        assert forall|i: int| 0 <= i < lines@.len() implies lines.deep_view()[i] == self@.lines()[i] by {
            if i > 0 {
                assert(lines@[(i - 1) + 1] == lines@[i]);
            }
        }
        assert(lines.deep_view() =~= self@.lines());
        lines
    }
}

} // verus!
