//! The prompt that narrows a list by a typed filter and picks one item.

use vstd::prelude::*;
use crate::error::{PromptError, Status};
use crate::frame::{make_plain_row, plain_row};
use crate::key::Key;
use crate::select::{ring_next, ring_prev, FuzzyList, FuzzyView};
use crate::text::{chars_of, push_char, string_of};

verus! {

/// The mathematical content of a [`FuzzySelect`] prompt.
pub struct FuzzySelectView {
    /// The request shown to the user.
    pub prompt: Seq<char>,
    /// The items, the filter, its matches and the highlight.
    pub list: FuzzyView,
    /// Where the prompt stands.
    pub status: Status,
}

impl FuzzySelectView {
    /// The list is well formed, and a confirmed prompt has an item under
    /// the highlight.
    pub open spec fn wf(self) -> bool {
        &&& self.list.wf()
        &&& self.status == Status::Confirmed ==> self.list.selected() is Some
    }

    /// `next` is this prompt after its filter became `filter`: the items are
    /// ranked anew, and the highlight follows [`FuzzyView::cursor_after`].
    pub open spec fn refiltered(self, filter: Seq<char>, next: FuzzySelectView) -> bool {
        &&& next.prompt == self.prompt
        &&& next.status == self.status
        &&& next.list.labels == self.list.labels
        &&& next.list.filter == filter
        &&& next.list.wf()
        &&& next.list.cursor == self.list.cursor_after(next.list.matches)
    }

    /// `next` is the state after the key `key`.
    ///
    /// Escape and Ctrl-C cancel. Enter confirms the highlighted item; where
    /// nothing matches it does nothing. Up and Down move the highlight
    /// around the ring of matches. A character is added to the end of the
    /// filter and Backspace removes its last one; either ranks the items
    /// anew. Every other key does nothing, and so does any key once the
    /// prompt has ended.
    pub open spec fn steps(self, key: Key, next: FuzzySelectView) -> bool {
        if self.status != Status::Active {
            next == self
        } else if key.cancels() {
            next == (FuzzySelectView { status: Status::Cancelled, ..self })
        } else if key == Key::Enter {
            if self.list.selected() is Some {
                next == (FuzzySelectView { status: Status::Confirmed, ..self })
            } else {
                next == self
            }
        } else if key == Key::Up {
            next == (FuzzySelectView {
                list: FuzzyView {
                    cursor: ring_prev(self.list.cursor, self.list.matches.len()),
                    ..self.list
                },
                ..self
            })
        } else if key == Key::Down {
            next == (FuzzySelectView {
                list: FuzzyView {
                    cursor: ring_next(self.list.cursor, self.list.matches.len()),
                    ..self.list
                },
                ..self
            })
        } else if key.typed() is Some {
            self.refiltered(self.list.filter.push(key.typed()->0), next)
        } else if key == Key::Backspace {
            if self.list.filter.len() > 0 {
                self.refiltered(self.list.filter.drop_last(), next)
            } else {
                next == self
            }
        } else {
            next == self
        }
    }

    /// What the prompt gives: nothing while it is active, the highlighted
    /// item once it is confirmed, and the error `Interrupted` once it is
    /// cancelled.
    pub open spec fn outcome(self) -> Option<Result<usize, PromptError>> {
        match self.status {
            Status::Active => None,
            Status::Confirmed => Some(Ok(self.list.selected()->0)),
            Status::Cancelled => Some(Err(PromptError::Interrupted)),
        }
    }

    /// The lines that the prompt shows: the request with the filter, then
    /// one row for each match, best first.
    pub open spec fn lines(self) -> Seq<Seq<char>> {
        seq![self.prompt + ": "@ + self.list.filter] + Seq::new(
            self.list.matches.len(),
            |k: int|
                plain_row(k == self.list.cursor, self.list.labels[self.list.matches[k].index as int]),
        )
    }
}

/// A key leads from one state to exactly one next state: a prompt that has
/// ended stays as it is, and an active one changes as [`FuzzySelectView::steps`]
/// says and in no other way.
pub proof fn lemma_fuzzy_select_step(
    prompt: FuzzySelectView,
    key: Key,
    first: FuzzySelectView,
    second: FuzzySelectView,
)
    requires
        prompt.wf(),
        prompt.steps(key, first),
        prompt.steps(key, second),
    ensures
        first == second,
        first.wf(),
        first.prompt == prompt.prompt,
        first.list.labels == prompt.list.labels,
        prompt.status != Status::Active ==> first == prompt,
{
    crate::fuzzy::lemma_ranking_is_unique(
        first.list.labels,
        first.list.filter,
        first.list.matches,
        second.list.matches,
    );
}

/// A prompt that narrows a list by a typed filter.
pub struct FuzzySelect {
    prompt: String,
    list: FuzzyList,
    status: Status,
}

impl View for FuzzySelect {
    type V = FuzzySelectView;

    closed spec fn view(&self) -> FuzzySelectView {
        FuzzySelectView { prompt: self.prompt@, list: self.list@, status: self.status }
    }
}

impl FuzzySelect {
    /// The prompt is well formed if its content is.
    pub open spec fn wf(self) -> bool {
        self@.wf()
    }

    /// An active prompt over the items `labels`, with an empty filter and
    /// the highlight on the first item. It is refused where there is no
    /// item.
    pub fn new(prompt: &str, labels: Vec<String>) -> (r: Result<Self, PromptError>)
        ensures
            match r {
                Ok(p) => {
                    &&& labels@.len() > 0
                    &&& p.wf()
                    &&& p@.prompt == prompt@
                    &&& p@.status == Status::Active
                    &&& p@.list.labels == labels.deep_view()
                    &&& p@.list.filter == Seq::<char>::empty()
                    &&& p@.list.cursor == 0
                },
                Err(e) => labels@.len() == 0 && e == PromptError::InvalidConfiguration,
            },
    {
        match FuzzyList::new(labels) {
            Ok(list) => Ok(FuzzySelect { prompt: prompt.to_owned(), list, status: Status::Active }),
            Err(e) => Err(e),
        }
    }

    /// Where the prompt stands.
    pub fn status(&self) -> (r: Status)
        ensures
            r == self@.status,
    {
        self.status
    }

    /// The items, the filter, its matches and the highlight.
    pub fn list(&self) -> (r: &FuzzyList)
        ensures
            r@ == self@.list,
    {
        &self.list
    }

    /// Takes one key.
    pub fn step(&mut self, key: Key)
        requires
            old(self).wf(),
        ensures
            final(self).wf(),
            old(self)@.steps(key, final(self)@),
            old(self)@.status != Status::Active ==> *final(self) == *old(self),
    {
        if self.status != Status::Active {
            return ;
        }
        if key.is_cancel() {
            self.status = Status::Cancelled;
            return ;
        }
        match key {
            Key::Enter => {
                if self.list.selected().is_some() {
                    self.status = Status::Confirmed;
                }
            },
            Key::Up => {
                self.list.move_up();
            },
            Key::Down => {
                self.list.move_down();
            },
            Key::Backspace => {
                let mut chars = chars_of(self.list.filter().as_str());
                if chars.len() > 0 {
                    chars.pop();
                    let filter = string_of(&chars);
                    self.list.set_filter(filter.as_str());
                }
            },
            _ => {
                match key.typed_char() {
                    Some(c) => {
                        let mut filter = self.list.filter().clone();
                        push_char(&mut filter, c);
                        self.list.set_filter(filter.as_str());
                    },
                    None => {},
                }
            },
        }
    }

    /// What the prompt gives: nothing while it is active, the highlighted
    /// item once it is confirmed, and the error `Interrupted` once it is
    /// cancelled.
    pub fn outcome(&self) -> (r: Option<Result<usize, PromptError>>)
        requires
            self.wf(),
        ensures
            r == self@.outcome(),
    {
        match self.status {
            Status::Active => None,
            Status::Confirmed => Some(Ok(self.list.selected().unwrap())),
            Status::Cancelled => Some(Err(PromptError::Interrupted)),
        }
    }

    /// The lines that the prompt shows.
    pub fn frame(&self) -> (r: Vec<String>)
        requires
            self.wf(),
        ensures
            r.deep_view() == self@.lines(),
    {
        let mut first = self.prompt.clone();
        first.append(": ");
        first.append(self.list.filter().as_str());
        let mut lines: Vec<String> = Vec::new();
        lines.push(first);
        let cursor = self.list.cursor();
        let matches = self.list.matches();
        let labels = self.list.labels();
        let mut k: usize = 0;
        while k < matches.len()
            invariant
                self.wf(),
                k <= matches.len(),
                cursor == self@.list.cursor,
                matches@ == self@.list.matches,
                labels.deep_view() == self@.list.labels,
                lines@.len() == k + 1,
                lines@[0]@ == self@.prompt + ": "@ + self@.list.filter,
                forall|j: int|
                    0 <= j < k ==> (#[trigger] lines@[j + 1])@ == plain_row(
                        j == cursor,
                        self@.list.labels[matches@[j].index as int],
                    ),
            decreases matches.len() - k,
        {
            let item = matches[k].index;
            assert(labels.deep_view()[item as int] == labels@[item as int]@);
            lines.push(make_plain_row(k == cursor, labels[item].as_str()));
            k = k + 1;
        }
        assert forall|i: int| 0 <= i < lines@.len() implies lines.deep_view()[i] == self@.lines()[i] by {
            if i > 0 {
                assert(lines@[(i - 1) + 1] == lines@[i]);
            }
        }
        assert(lines.deep_view() =~= self@.lines());
        lines
    }
}

} // verus!
