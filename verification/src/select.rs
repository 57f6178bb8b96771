//! The state of a list under selection: a filtered list with a highlight,
//! a list of checkboxes, and a list that the user reorders.
//!
//! In all three the rows form a ring: moving down from the last row leads to
//! the first, and moving up from the first leads to the last.

use vstd::prelude::*;
use crate::error::PromptError;
use crate::fuzzy::{lists, rank, ranked, Match};

verus! {

/// The row below `cursor` in a ring of `len` rows.
pub open spec fn ring_next(cursor: nat, len: nat) -> nat {
    if cursor + 1 < len {
        cursor + 1
    } else {
        0
    }
}

/// The row above `cursor` in a ring of `len` rows.
pub open spec fn ring_prev(cursor: nat, len: nat) -> nat {
    if cursor > 0 {
        (cursor - 1) as nat
    } else if len > 0 {
        (len - 1) as nat
    } else {
        0
    }
}

/// Moving down and then up, or up and then down, leads back to the same row.
pub proof fn lemma_ring_round_trip(cursor: nat, len: nat)
    requires
        cursor < len,
    ensures
        ring_prev(ring_next(cursor, len), len) == cursor,
        ring_next(ring_prev(cursor, len), len) == cursor,
        ring_next(cursor, len) < len,
        ring_prev(cursor, len) < len,
{
}

fn next_row(cursor: usize, len: usize) -> (r: usize)
    requires
        cursor < len || len == 0,
    ensures
        r == ring_next(cursor as nat, len as nat),
{
    if len > 0 && cursor < len - 1 {
        cursor + 1
    } else {
        0
    }
}

fn prev_row(cursor: usize, len: usize) -> (r: usize)
    ensures
        r == ring_prev(cursor as nat, len as nat),
{
    if cursor > 0 {
        cursor - 1
    } else if len > 0 {
        len - 1
    } else {
        0
    }
}

/// Whether `matches` has an entry for the item `index`.
pub fn has_index(matches: &Vec<Match>, index: usize) -> (r: bool)
    ensures
        r == lists(matches@, index as int),
{
    let mut k: usize = 0;
    while k < matches.len()
        invariant
            k <= matches.len(),
            forall|j: int| 0 <= j < k ==> (#[trigger] matches@[j]).index != index,
        decreases matches.len() - k,
    {
        if matches[k].index == index {
            return true;
        }
        k = k + 1;
    }
    false
}

/// The mathematical content of a [`FuzzyList`].
pub struct FuzzyView {
    /// The labels of the items.
    pub labels: Seq<Seq<char>>,
    /// The filter typed so far.
    pub filter: Seq<char>,
    /// The items that the filter matches, best first.
    pub matches: Seq<Match>,
    /// The highlighted row among `matches`; `0` where there is no match.
    pub cursor: nat,
}

impl FuzzyView {
    /// There is an item, `matches` is the ranking of the labels under the
    /// filter, and the cursor is on one of its rows.
    pub open spec fn wf(self) -> bool {
        &&& self.labels.len() > 0
        &&& ranked(self.labels, self.filter, self.matches)
        &&& if self.matches.len() == 0 {
            self.cursor == 0
        } else {
            self.cursor < self.matches.len()
        }
    }

    /// The item under the highlight, if any item matches.
    pub open spec fn selected(self) -> Option<usize> {
        if self.matches.len() > 0 {
            Some(self.matches[self.cursor as int].index)
        } else {
            None
        }
    }

    /// Where the highlight goes when the ranking becomes `matches`: it stays
    /// on its row, or on the last row if the ranking got shorter, as long as
    /// the item it was on is still listed; otherwise it returns to the top.
    pub open spec fn cursor_after(self, matches: Seq<Match>) -> nat {
        if self.matches.len() > 0 && lists(matches, self.matches[self.cursor as int].index as int) {
            if self.cursor < matches.len() {
                self.cursor
            } else {
                (matches.len() - 1) as nat
            }
        } else {
            0
        }
    }
}

/// A list of items narrowed by a filter, with a highlight on one match.
pub struct FuzzyList {
    labels: Vec<String>,
    filter: String,
    matches: Vec<Match>,
    cursor: usize,
}

impl View for FuzzyList {
    type V = FuzzyView;

    closed spec fn view(&self) -> FuzzyView {
        FuzzyView {
            labels: self.labels.deep_view(),
            filter: self.filter@,
            matches: self.matches@,
            cursor: self.cursor as nat,
        }
    }
}

impl FuzzyList {
    /// The list is well formed if its content is.
    pub open spec fn wf(self) -> bool {
        self@.wf()
    }

    /// A list of the items `labels` under the empty filter, which matches
    /// them all. A list without items is refused.
    pub fn new(labels: Vec<String>) -> (r: Result<Self, PromptError>)
        ensures
            match r {
                Ok(list) => {
                    &&& labels@.len() > 0
                    &&& list.wf()
                    &&& list@.labels == labels.deep_view()
                    &&& list@.filter == Seq::<char>::empty()
                    &&& list@.cursor == 0
                },
                Err(e) => labels@.len() == 0 && e == PromptError::InvalidConfiguration,
            },
    {
        if labels.len() == 0 {
            return Err(PromptError::InvalidConfiguration);
        }
        let filter = String::new();
        let matches = rank(&labels, filter.as_str());
        proof {
            if matches@.len() == 0 {
                crate::fuzzy::lemma_leftmost_decides(filter@, labels.deep_view()[0]);
                assert(lists(matches@, 0));
            }
        }
        Ok(FuzzyList { labels, filter, matches, cursor: 0 })
    }

    /// The labels of the items.
    pub fn labels(&self) -> (r: &Vec<String>)
        ensures
            r.deep_view() == self@.labels,
    {
        &self.labels
    }

    /// The filter.
    pub fn filter(&self) -> (r: &String)
        ensures
            r@ == self@.filter,
    {
        &self.filter
    }

    /// The items that the filter matches, best first.
    pub fn matches(&self) -> (r: &Vec<Match>)
        ensures
            r@ == self@.matches,
    {
        &self.matches
    }

    /// The highlighted row among the matches.
    pub fn cursor(&self) -> (r: usize)
        ensures
            r == self@.cursor,
    {
        self.cursor
    }

    /// The item under the highlight, if any item matches.
    pub fn selected(&self) -> (r: Option<usize>)
        requires
            self.wf(),
        ensures
            r == self@.selected(),
    {
        if self.matches.len() > 0 {
            Some(self.matches[self.cursor].index)
        } else {
            None
        }
    }

    /// Replaces the filter and ranks the items anew.
    pub fn set_filter(&mut self, filter: &str)
        requires
            old(self).wf(),
        ensures
            final(self).wf(),
            final(self)@.labels == old(self)@.labels,
            final(self)@.filter == filter@,
            final(self)@.cursor == old(self)@.cursor_after(final(self)@.matches),
    {
        let found = rank(&self.labels, filter);
        let stays = self.matches.len() > 0 && has_index(&found, self.matches[self.cursor].index);
        if !stays {
            self.cursor = 0;
        } else if self.cursor >= found.len() {
            self.cursor = found.len() - 1;
        }
        self.filter = filter.to_owned();
        self.matches = found;
    }

    /// Moves the highlight one match down, from the last to the first.
    pub fn move_down(&mut self)
        requires
            old(self).wf(),
        ensures
            final(self).wf(),
            final(self)@ == (FuzzyView {
                cursor: ring_next(old(self)@.cursor, old(self)@.matches.len()),
                ..old(self)@
            }),
    {
        self.cursor = next_row(self.cursor, self.matches.len());
    }

    /// Moves the highlight one match up, from the first to the last.
    pub fn move_up(&mut self)
        requires
            old(self).wf(),
        ensures
            final(self).wf(),
            final(self)@ == (FuzzyView {
                cursor: ring_prev(old(self)@.cursor, old(self)@.matches.len()),
                ..old(self)@
            }),
    {
        self.cursor = prev_row(self.cursor, self.matches.len());
    }
}

/// `checked` with the membership of `index` flipped.
pub open spec fn toggled(checked: Set<int>, index: int) -> Set<int> {
    if checked.contains(index) {
        checked.remove(index)
    } else {
        checked.insert(index)
    }
}

/// Toggling an item twice leaves the set of checked items as it was.
pub proof fn lemma_toggle_twice(checked: Set<int>, index: int)
    ensures
        toggled(toggled(checked, index), index) == checked,
        toggled(checked, index).contains(index) == !checked.contains(index),
        forall|other: int|
            other != index ==> toggled(checked, index).contains(other) == checked.contains(other),
{
    assert(toggled(toggled(checked, index), index) =~= checked);
}

/// The checked items below `bound`, in rising order.
pub open spec fn picked(checked: Set<int>, bound: nat) -> Seq<usize>
    decreases bound,
{
    if bound == 0 {
        Seq::empty()
    } else if checked.contains(bound - 1) {
        picked(checked, (bound - 1) as nat).push((bound - 1) as usize)
    } else {
        picked(checked, (bound - 1) as nat)
    }
}

/// `picked` rises strictly and holds exactly the checked items below the
/// bound.
pub proof fn lemma_picked(checked: Set<int>, bound: nat)
    requires
        bound <= usize::MAX,
    ensures
        picked(checked, bound).len() <= bound,
        forall|k: int|
            0 <= k < picked(checked, bound).len() ==> {
                &&& (#[trigger] picked(checked, bound)[k]) < bound
                &&& checked.contains(picked(checked, bound)[k] as int)
            },
        forall|j: int, k: int|
            0 <= j < k < picked(checked, bound).len() ==> picked(checked, bound)[j] < picked(
                checked,
                bound,
            )[k],
        forall|i: int|
            0 <= i < bound && checked.contains(i) ==> exists|k: int|
                0 <= k < picked(checked, bound).len() && #[trigger] picked(checked, bound)[k] == i,
    decreases bound,
{
    if bound > 0 {
        let below = picked(checked, (bound - 1) as nat);
        let all = picked(checked, bound);
        lemma_picked(checked, (bound - 1) as nat);
        assert forall|i: int| 0 <= i < bound && checked.contains(i) implies exists|k: int|
            0 <= k < all.len() && #[trigger] all[k] == i by {
            if i < bound - 1 {
                let k = choose|k: int| 0 <= k < below.len() && #[trigger] below[k] == i;
                assert(all[k] == i);
            } else {
                assert(all[all.len() - 1] == i);
            }
        }
    }
}

/// The mathematical content of a [`CheckList`].
pub struct CheckView {
    /// The number of items.
    pub len: nat,
    /// The items that are checked.
    pub checked: Set<int>,
    /// The highlighted row.
    pub cursor: nat,
}

impl CheckView {
    /// There is an item, the cursor is on a row, and only items of the list
    /// are checked.
    pub open spec fn wf(self) -> bool {
        &&& self.len > 0
        &&& self.cursor < self.len
        &&& forall|i: int| self.checked.contains(i) ==> 0 <= i < self.len
    }

    /// The checked items, in rising order.
    pub open spec fn selected(self) -> Seq<usize> {
        picked(self.checked, self.len)
    }

    /// The state after the item `index` was toggled; an `index` that is no
    /// item changes nothing.
    pub open spec fn toggle(self, index: nat) -> CheckView {
        if index < self.len {
            CheckView { checked: toggled(self.checked, index as int), ..self }
        } else {
            self
        }
    }
}

/// Toggling the same item twice restores the state.
pub proof fn lemma_double_toggle_restores(list: CheckView, index: nat)
    ensures
        list.toggle(index).toggle(index) == list,
{
    lemma_toggle_twice(list.checked, index as int);
}

/// A list of items with a checkbox each and a highlight on one row.
pub struct CheckList {
    checked: Vec<bool>,
    cursor: usize,
}

impl View for CheckList {
    type V = CheckView;

    closed spec fn view(&self) -> CheckView {
        CheckView {
            len: self.checked@.len(),
            checked: Set::new(|i: int| 0 <= i < self.checked@.len() && self.checked@[i]),
            cursor: self.cursor as nat,
        }
    }
}

impl CheckList {
    /// The list is well formed if its content is.
    pub open spec fn wf(self) -> bool {
        self@.wf()
    }

    /// A list with one item for each element of `initial`, checked where the
    /// element is `true`. A list without items is refused.
    pub fn new(initial: Vec<bool>) -> (r: Result<Self, PromptError>)
        ensures
            match r {
                Ok(list) => {
                    &&& initial@.len() > 0
                    &&& list.wf()
                    &&& list@.len == initial@.len()
                    &&& list@.cursor == 0
                    &&& forall|i: int|
                        #[trigger] list@.checked.contains(i) <==> (0 <= i < initial@.len()
                            && initial@[i])
                },
                Err(e) => initial@.len() == 0 && e == PromptError::InvalidConfiguration,
            },
    {
        if initial.len() == 0 {
            return Err(PromptError::InvalidConfiguration);
        }
        Ok(CheckList { checked: initial, cursor: 0 })
    }

    /// The number of items.
    pub fn len(&self) -> (r: usize)
        ensures
            r == self@.len,
    {
        self.checked.len()
    }

    /// The highlighted row.
    pub fn cursor(&self) -> (r: usize)
        ensures
            r == self@.cursor,
    {
        self.cursor
    }

    /// Whether the item `index` is checked.
    pub fn is_checked(&self, index: usize) -> (r: bool)
        ensures
            r == self@.checked.contains(index as int),
    {
        index < self.checked.len() && self.checked[index]
    }

    /// The checked items, in rising order.
    pub fn selected(&self) -> (r: Vec<usize>)
        ensures
            r@ == self@.selected(),
    {
        let ghost checked = self@.checked;
        let mut out: Vec<usize> = Vec::new();
        let mut i: usize = 0;
        while i < self.checked.len()
            invariant
                i <= self.checked.len(),
                checked == self@.checked,
                out@ == picked(checked, i as nat),
            decreases self.checked.len() - i,
        {
            if self.checked[i] {
                out.push(i);
            }
            i = i + 1;
        }
        out
    }

    /// Flips the checkbox of the item `index`; an `index` that is no item
    /// changes nothing.
    pub fn toggle(&mut self, index: usize)
        requires
            old(self).wf(),
        ensures
            final(self).wf(),
            final(self)@ == old(self)@.toggle(index as nat),
    {
        if index < self.checked.len() {
            let flipped = !self.checked[index];
            self.checked.set(index, flipped);
            assert(self@.checked =~= toggled(old(self)@.checked, index as int));
        }
    }

    /// Flips the checkbox of the highlighted item.
    pub fn toggle_current(&mut self)
        requires
            old(self).wf(),
        ensures
            final(self).wf(),
            final(self)@ == old(self)@.toggle(old(self)@.cursor),
    {
        self.toggle(self.cursor);
    }

    /// Moves the highlight one row down, from the last to the first.
    pub fn move_down(&mut self)
        requires
            old(self).wf(),
        ensures
            final(self).wf(),
            final(self)@ == (CheckView { cursor: ring_next(old(self)@.cursor, old(self)@.len), ..old(self)@ }),
    {
        self.cursor = next_row(self.cursor, self.checked.len());
    }

    /// Moves the highlight one row up, from the first to the last.
    pub fn move_up(&mut self)
        requires
            old(self).wf(),
        ensures
            final(self).wf(),
            final(self)@ == (CheckView { cursor: ring_prev(old(self)@.cursor, old(self)@.len), ..old(self)@ }),
    {
        self.cursor = prev_row(self.cursor, self.checked.len());
    }
}

/// `order` holds every index below its length exactly once.
pub open spec fn is_permutation(order: Seq<usize>) -> bool {
    &&& forall|k: int| 0 <= k < order.len() ==> #[trigger] order[k] < order.len()
    &&& forall|j: int, k: int| 0 <= j < k < order.len() ==> order[j] != order[k]
    &&& forall|i: int| 0 <= i < order.len() ==> occurs(order, i)
}

/// The index `i` stands somewhere in `order`.
pub open spec fn occurs(order: Seq<usize>, i: int) -> bool {
    exists|k: int| 0 <= k < order.len() && #[trigger] order[k] == i
}

/// `order` with the entries at the places `a` and `b` exchanged.
pub open spec fn swapped(order: Seq<usize>, a: int, b: int) -> Seq<usize> {
    order.update(a, order[b]).update(b, order[a])
}

/// Exchanging two entries of a permutation gives a permutation.
pub proof fn lemma_swap_keeps_permutation(order: Seq<usize>, a: int, b: int)
    requires
        is_permutation(order),
        0 <= a < order.len(),
        0 <= b < order.len(),
    ensures
        is_permutation(swapped(order, a, b)),
{
    let after = swapped(order, a, b);
    assert forall|i: int| 0 <= i < after.len() implies occurs(after, i) by {
        assert(occurs(order, i));
        let k = choose|k: int| 0 <= k < order.len() && #[trigger] order[k] == i;
        if k == a {
            assert(after[b] == i);
        } else if k == b {
            assert(after[a] == i);
        } else {
            assert(after[k] == i);
        }
    }
}

/// The mathematical content of a [`SortList`].
pub struct SortView {
    /// The items in their current order: `order[k]` is the item on row `k`.
    pub order: Seq<usize>,
    /// The highlighted row.
    pub cursor: nat,
    /// Whether the highlighted item is held and moves with the highlight.
    pub held: bool,
}

impl SortView {
    /// There is an item, the cursor is on a row, and the order is a
    /// permutation of the items.
    pub open spec fn wf(self) -> bool {
        &&& self.order.len() > 0
        &&& self.cursor < self.order.len()
        &&& is_permutation(self.order)
    }

    /// The row of the held item, if one is held.
    pub open spec fn held_row(self) -> Option<nat> {
        if self.held {
            Some(self.cursor)
        } else {
            None
        }
    }

    /// The state after the highlight moved to the row `to`: a held item is
    /// exchanged with the item on that row.
    pub open spec fn moved(self, to: nat) -> SortView {
        SortView {
            order: if self.held {
                swapped(self.order, self.cursor as int, to as int)
            } else {
                self.order
            },
            cursor: to,
            held: self.held,
        }
    }

    /// The state after the grab key: a free item is held, a held one is let
    /// go where it is.
    pub open spec fn grabbed(self) -> SortView {
        SortView { held: !self.held, ..self }
    }
}

/// Grabbing, releasing and moving keep the order a permutation.
pub proof fn lemma_order_stays_permutation(list: SortView, to: nat)
    requires
        list.wf(),
        to < list.order.len(),
    ensures
        list.moved(to).wf(),
        list.grabbed().wf(),
        list.moved(ring_next(list.cursor, list.order.len())).wf(),
        list.moved(ring_prev(list.cursor, list.order.len())).wf(),
{
    lemma_swap_keeps_permutation(list.order, list.cursor as int, to as int);
    lemma_swap_keeps_permutation(
        list.order,
        list.cursor as int,
        ring_next(list.cursor, list.order.len()) as int,
    );
    lemma_swap_keeps_permutation(
        list.order,
        list.cursor as int,
        ring_prev(list.cursor, list.order.len()) as int,
    );
}

/// A list of items that the user puts in order.
pub struct SortList {
    order: Vec<usize>,
    cursor: usize,
    held: bool,
}

impl View for SortList {
    type V = SortView;

    closed spec fn view(&self) -> SortView {
        SortView { order: self.order@, cursor: self.cursor as nat, held: self.held }
    }
}

impl SortList {
    /// The list is well formed if its content is.
    pub open spec fn wf(self) -> bool {
        self@.wf()
    }

    /// A list of `count` items in their given order, none held. A list
    /// without items is refused.
    pub fn new(count: usize) -> (r: Result<Self, PromptError>)
        ensures
            match r {
                Ok(list) => {
                    &&& count > 0
                    &&& list.wf()
                    &&& list@.order.len() == count
                    &&& forall|k: int| 0 <= k < count ==> list@.order[k] == k
                    &&& list@.cursor == 0
                    &&& !list@.held
                },
                Err(e) => count == 0 && e == PromptError::InvalidConfiguration,
            },
    {
        if count == 0 {
            return Err(PromptError::InvalidConfiguration);
        }
        let mut order: Vec<usize> = Vec::new();
        let mut i: usize = 0;
        while i < count
            invariant
                i <= count,
                order@.len() == i,
                forall|k: int| 0 <= k < i ==> order@[k] == k,
            decreases count - i,
        {
            order.push(i);
            i = i + 1;
        }
        assert forall|i: int| 0 <= i < order@.len() implies occurs(order@, i) by {
            assert(order@[i] == i);
        }
        Ok(SortList { order, cursor: 0, held: false })
    }

    /// The items in their current order.
    pub fn order(&self) -> (r: &Vec<usize>)
        ensures
            r@ == self@.order,
    {
        &self.order
    }

    /// The highlighted row.
    pub fn cursor(&self) -> (r: usize)
        ensures
            r == self@.cursor,
    {
        self.cursor
    }

    /// Whether the highlighted item is held.
    pub fn is_held(&self) -> (r: bool)
        ensures
            r == self@.held,
    {
        self.held
    }

    /// Holds the highlighted item, or lets a held item go where it is.
    pub fn grab(&mut self)
        requires
            old(self).wf(),
        ensures
            final(self).wf(),
            final(self)@ == old(self)@.grabbed(),
    {
        self.held = !self.held;
    }

    /// Lets a held item go where it is.
    pub fn release(&mut self)
        requires
            old(self).wf(),
        ensures
            final(self).wf(),
            final(self)@ == (SortView { held: false, ..old(self)@ }),
    {
        self.held = false;
    }

    fn move_to(&mut self, to: usize)
        requires
            old(self).wf(),
            to < old(self)@.order.len(),
        ensures
            final(self).wf(),
            final(self)@ == old(self)@.moved(to as nat),
    {
        proof {
            lemma_order_stays_permutation(self@, to as nat);
        }
        if self.held {
            let here = self.order[self.cursor];
            let there = self.order[to];
            self.order.set(self.cursor, there);
            self.order.set(to, here);
        }
        self.cursor = to;
    }

    /// Moves the highlight one row down, from the last to the first, and a
    /// held item with it.
    pub fn move_down(&mut self)
        requires
            old(self).wf(),
        ensures
            final(self).wf(),
            final(self)@ == old(self)@.moved(ring_next(old(self)@.cursor, old(self)@.order.len())),
    {
        let to = next_row(self.cursor, self.order.len());
        self.move_to(to);
    }

    /// Moves the highlight one row up, from the first to the last, and a
    /// held item with it.
    pub fn move_up(&mut self)
        requires
            old(self).wf(),
        ensures
            final(self).wf(),
            final(self)@ == old(self)@.moved(ring_prev(old(self)@.cursor, old(self)@.order.len())),
    {
        let to = prev_row(self.cursor, self.order.len());
        self.move_to(to);
    }
}

/// The labels in the order `order`: the label of item `order[k]` on place
/// `k`. Every entry of `order` must be an item.
pub fn arrange(labels: &Vec<String>, order: &Vec<usize>) -> (r: Vec<String>)
    requires
        forall|k: int| 0 <= k < order@.len() ==> #[trigger] order@[k] < labels@.len(),
    ensures
        r.deep_view() == Seq::new(order@.len(), |k: int| labels.deep_view()[order@[k] as int]),
{
    let mut out: Vec<String> = Vec::new();
    let mut k: usize = 0;
    while k < order.len()
        invariant
            k <= order.len(),
            out@.len() == k,
            forall|j: int| 0 <= j < order@.len() ==> #[trigger] order@[j] < labels@.len(),
            forall|j: int| 0 <= j < k ==> (#[trigger] out@[j])@ == labels@[order@[j] as int]@,
        decreases order.len() - k,
    {
        out.push(labels[order[k]].clone());
        k = k + 1;
    }
    assert(out.deep_view() =~= Seq::new(order@.len(), |k: int| labels.deep_view()[order@[k] as int]));
    out
}

} // verus!
