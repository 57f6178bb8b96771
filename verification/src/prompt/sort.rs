//! The prompt that lets the user put items in order.

use vstd::prelude::*;
use crate::error::{PromptError, Status};
use crate::frame::{boxed_row, heading, make_boxed_row, make_heading};
use crate::key::Key;
use crate::select::{
    is_permutation, lemma_order_stays_permutation, ring_next, ring_prev, SortList, SortView,
};

verus! {

/// The mathematical content of a [`Sort`] prompt.
pub struct SortPromptView {
    /// The request shown to the user.
    pub prompt: Seq<char>,
    /// The labels of the items.
    pub labels: Seq<Seq<char>>,
    /// The order, the highlight and the grab.
    pub list: SortView,
    /// Where the prompt stands.
    pub status: Status,
}

impl SortPromptView {
    /// The list is well formed and orders exactly the labelled items.
    pub open spec fn wf(self) -> bool {
        &&& self.list.wf()
        &&& self.labels.len() == self.list.order.len()
    }

    /// The state after the key `key`.
    ///
    /// Escape and Ctrl-C cancel. Enter confirms the order as it stands and
    /// lets a held item go. The space bar holds the highlighted item or lets
    /// it go. Up and Down move the highlight around the ring of rows; a held
    /// item moves with it, changing places with the item it meets. Every
    /// other key does nothing, and so does any key once the prompt has
    /// ended.
    pub open spec fn step(self, key: Key) -> SortPromptView {
        if self.status != Status::Active {
            self
        } else if key.cancels() {
            SortPromptView { status: Status::Cancelled, ..self }
        } else if key == Key::Enter {
            SortPromptView {
                list: SortView { held: false, ..self.list },
                status: Status::Confirmed,
                ..self
            }
        } else if key == Key::Up {
            SortPromptView {
                list: self.list.moved(ring_prev(self.list.cursor, self.list.order.len())),
                ..self
            }
        } else if key == Key::Down {
            SortPromptView {
                list: self.list.moved(ring_next(self.list.cursor, self.list.order.len())),
                ..self
            }
        } else if key.is_space() {
            SortPromptView { list: self.list.grabbed(), ..self }
        } else {
            self
        }
    }

    /// The state after the keys `keys`, in order.
    pub open spec fn run(self, keys: Seq<Key>) -> SortPromptView
        decreases keys.len(),
    {
        if keys.len() == 0 {
            self
        } else {
            self.run(keys.drop_last()).step(keys.last())
        }
    }

    /// What the prompt gives: nothing while it is active, the order once it
    /// is confirmed, and the error `Interrupted` once it is cancelled.
    pub open spec fn outcome(self) -> Option<Result<Seq<usize>, PromptError>> {
        match self.status {
            Status::Active => None,
            Status::Confirmed => Some(Ok(self.list.order)),
            Status::Cancelled => Some(Err(PromptError::Interrupted)),
        }
    }

    /// The lines that the prompt shows: the heading, then the items in their
    /// current order, the box of a held item checked.
    pub open spec fn lines(self) -> Seq<Seq<char>> {
        seq![heading(self.prompt)] + Seq::new(
            self.list.order.len(),
            |k: int|
                boxed_row(
                    k == self.list.cursor,
                    self.list.held && k == self.list.cursor,
                    self.labels[self.list.order[k] as int],
                ),
        )
    }
}

/// A prompt that has ended stays as it is, whatever key arrives; a key never
/// changes what the prompt was set up with; and after any key the order is
/// still a permutation of the items.
pub proof fn lemma_sort_step(prompt: SortPromptView, key: Key)
    requires
        prompt.wf(),
    ensures
        prompt.step(key).wf(),
        is_permutation(prompt.step(key).list.order),
        prompt.step(key).prompt == prompt.prompt,
        prompt.step(key).labels == prompt.labels,
        prompt.status != Status::Active ==> prompt.step(key) == prompt,
{
    lemma_order_stays_permutation(prompt.list, prompt.list.cursor);
}

/// Whatever keys arrive, in whatever order, the order of the items stays a
/// permutation: it holds every item exactly once.
pub proof fn lemma_sort_run(prompt: SortPromptView, keys: Seq<Key>)
    requires
        prompt.wf(),
    ensures
        prompt.run(keys).wf(),
        is_permutation(prompt.run(keys).list.order),
        prompt.run(keys).list.order.len() == prompt.list.order.len(),
    decreases keys.len(),
{
    if keys.len() > 0 {
        lemma_sort_run(prompt, keys.drop_last());
        lemma_sort_step(prompt.run(keys.drop_last()), keys.last());
    }
}

/// A prompt that lets the user put items in order.
pub struct Sort {
    prompt: String,
    labels: Vec<String>,
    list: SortList,
    status: Status,
}

impl View for Sort {
    type V = SortPromptView;

    closed spec fn view(&self) -> SortPromptView {
        SortPromptView {
            prompt: self.prompt@,
            labels: self.labels.deep_view(),
            list: self.list@,
            status: self.status,
        }
    }
}

impl Sort {
    /// The prompt is well formed if its content is.
    pub open spec fn wf(self) -> bool {
        self@.wf()
    }

    /// An active prompt over the items `labels` in their given order. It is
    /// refused where there is no item.
    pub fn new(prompt: &str, labels: Vec<String>) -> (r: Result<Self, PromptError>)
        ensures
            match r {
                Ok(p) => {
                    &&& labels@.len() > 0
                    &&& p.wf()
                    &&& p@.prompt == prompt@
                    &&& p@.labels == labels.deep_view()
                    &&& p@.status == Status::Active
                    &&& p@.list.cursor == 0
                    &&& !p@.list.held
                    &&& forall|k: int| 0 <= k < labels@.len() ==> p@.list.order[k] == k
                },
                Err(e) => labels@.len() == 0 && e == PromptError::InvalidConfiguration,
            },
    {
        match SortList::new(labels.len()) {
            Ok(list) => Ok(Sort { prompt: prompt.to_owned(), labels, list, status: Status::Active }),
            Err(e) => Err(e),
        }
    }

    /// Where the prompt stands.
    pub fn status(&self) -> (r: Status)
        ensures
            r == self@.status,
    {
        self.status
    }

    /// The order, the highlight and the grab.
    pub fn list(&self) -> (r: &SortList)
        ensures
            r@ == self@.list,
    {
        &self.list
    }

    /// Takes one key.
    pub fn step(&mut self, key: Key)
        requires
            old(self).wf(),
        ensures
            final(self).wf(),
            final(self)@ == old(self)@.step(key),
            old(self)@.status != Status::Active ==> *final(self) == *old(self),
    {
        if self.status != Status::Active {
            return ;
        }
        if key.is_cancel() {
            self.status = Status::Cancelled;
            return ;
        }
        if key.is_space_bar() {
            self.list.grab();
            return ;
        }
        match key {
            Key::Enter => {
                self.list.release();
                self.status = Status::Confirmed;
            },
            Key::Up => {
                self.list.move_up();
            },
            Key::Down => {
                self.list.move_down();
            },
            _ => {},
        }
    }

    /// What the prompt gives: nothing while it is active, the order once it
    /// is confirmed, and the error `Interrupted` once it is cancelled.
    pub fn outcome(&self) -> (r: Option<Result<Vec<usize>, PromptError>>)
        ensures
            match r {
                Some(Ok(order)) => self@.outcome() == Some(Ok::<Seq<usize>, PromptError>(order@)),
                Some(Err(e)) => self@.outcome() == Some(Err::<Seq<usize>, PromptError>(e)),
                None => self@.outcome() is None,
            },
    {
        match self.status {
            Status::Active => None,
            Status::Confirmed => Some(Ok(self.list.order().clone())),
            Status::Cancelled => Some(Err(PromptError::Interrupted)),
        }
    }

    /// The lines that the prompt shows.
    pub fn frame(&self) -> (r: Vec<String>)
        requires
            self.wf(),
        ensures
            r.deep_view() == self@.lines(),
    {
        let mut lines: Vec<String> = Vec::new();
        lines.push(make_heading(self.prompt.as_str()));
        let cursor = self.list.cursor();
        let held = self.list.is_held();
        let order = self.list.order();
        let mut k: usize = 0;
        while k < order.len()
            invariant
                self.wf(),
                k <= order.len(),
                cursor == self@.list.cursor,
                held == self@.list.held,
                order@ == self@.list.order,
                lines@.len() == k + 1,
                lines@[0]@ == heading(self@.prompt),
                forall|j: int|
                    0 <= j < k ==> (#[trigger] lines@[j + 1])@ == boxed_row(
                        j == cursor,
                        held && j == cursor,
                        self@.labels[order@[j] as int],
                    ),
            decreases order.len() - k,
        {
            let item = order[k];
            lines.push(make_boxed_row(k == cursor, held && k == cursor, self.labels[item].as_str()));
            k = k + 1;
        }
        assert forall|i: int| 0 <= i < lines@.len() implies lines.deep_view()[i] == self@.lines()[i] by {
            if i > 0 {
                assert(lines@[(i - 1) + 1] == lines@[i]);
            }
        }
        assert(lines.deep_view() =~= self@.lines());
        lines
    }
}

} // verus!
