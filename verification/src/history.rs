//! Recall of earlier input.
//!
//! The entries live in a `dialoguer::BasicHistory`, so that a history built
//! here holds exactly what that store holds. Entries are kept newest first:
//! entry `0` is the one pushed last.

use vstd::prelude::*;
use dialoguer::BasicHistory;

verus! {

#[verifier::external_type_specification]
#[verifier::external_body]
pub struct ExBasicHistory(BasicHistory);

/// The entries that a store holds, newest first.
pub uninterp spec fn stored(store: BasicHistory) -> Seq<Seq<char>>;

/// Whether a store was told to drop an older entry equal to a new one.
pub uninterp spec fn drops_duplicates(store: BasicHistory) -> bool;

/// The number of entries that a store was told to keep at most, if any.
pub uninterp spec fn entry_limit(store: BasicHistory) -> Option<nat>;

/// `entries` with every entry equal to `entry` taken out; the others keep
/// their order.
pub open spec fn without(entries: Seq<Seq<char>>, entry: Seq<char>) -> Seq<Seq<char>>
    decreases entries.len(),
{
    if entries.len() == 0 {
        entries
    } else if entries.last() == entry {
        without(entries.drop_last(), entry)
    } else {
        without(entries.drop_last(), entry).push(entries.last())
    }
}

/// What a store holds after `entry` was written to one that held `entries`.
pub open spec fn written(
    entries: Seq<Seq<char>>,
    entry: Seq<char>,
    dedup: bool,
    limit: Option<nat>,
) -> Seq<Seq<char>> {
    let kept = if dedup {
        without(entries, entry)
    } else {
        entries
    };
    let all = seq![entry] + kept;
    match limit {
        Some(n) => if n < all.len() {
            all.take(n as int)
        } else {
            all
        },
        None => all,
    }
}

/// What a history holds after `entry` was pushed to one that held
/// `entries`: an empty entry changes nothing; any other becomes the newest,
/// and with `dedup` its older copies leave.
pub open spec fn pushed(entries: Seq<Seq<char>>, entry: Seq<char>, dedup: bool) -> Seq<Seq<char>> {
    if entry.len() == 0 {
        entries
    } else {
        written(entries, entry, dedup, None)
    }
}

/// An empty store without a limit.
///
/// Calls `BasicHistory::new` and `BasicHistory::no_duplicates`; the contract
/// claims that the new store is empty, has no limit, and drops duplicates
/// exactly if `dedup` is set.
#[verifier::external_body]
fn store_new(dedup: bool) -> (r: BasicHistory)
    ensures
        stored(r) == Seq::<Seq<char>>::empty(),
        drops_duplicates(r) == dedup,
        entry_limit(r) is None,
{
    BasicHistory::new().no_duplicates(dedup)
}

/// The entry at `pos`, counted from the newest.
///
/// Calls `History::read` of `BasicHistory`; the contract claims that it
/// returns a copy of the entry at `pos`, and nothing where the store holds
/// no more than `pos` entries.
#[verifier::external_body]
fn store_read(store: &BasicHistory, pos: usize) -> (r: Option<String>)
    ensures
        match r {
            Some(s) => pos < stored(*store).len() && s@ == stored(*store)[pos as int],
            None => pos >= stored(*store).len(),
        },
{
    dialoguer::History::<String>::read(store, pos)
}

/// Writes `entry` to the store as its newest entry.
///
/// Calls `History::write` of `BasicHistory`; the contract claims that the
/// store then holds `entry` first, followed by what it held before, without
/// the entries equal to `entry` if it drops duplicates, and cut to its limit
/// if it has one; and that its two settings stay as they were.
#[verifier::external_body]
fn store_write(store: &mut BasicHistory, entry: &String)
    ensures
        stored(*final(store)) == written(
            stored(*old(store)),
            entry@,
            drops_duplicates(*old(store)),
            entry_limit(*old(store)),
        ),
        drops_duplicates(*final(store)) == drops_duplicates(*old(store)),
        entry_limit(*final(store)) == entry_limit(*old(store)),
{
    dialoguer::History::<String>::write(store, entry)
}

/// The mathematical content of a [`History`].
pub struct HistoryView {
    /// The entries, newest first.
    pub entries: Seq<Seq<char>>,
    /// Whether pushing an entry removes its older copies.
    pub dedup: bool,
    /// The entry that recall last showed, if recall is under way.
    pub cursor: Option<nat>,
}

impl HistoryView {
    /// No entry is empty, and the cursor, if set, points at an entry.
    pub open spec fn wf(self) -> bool {
        &&& forall|i: int| 0 <= i < self.entries.len() ==> #[trigger] self.entries[i].len() > 0
        &&& match self.cursor {
            Some(c) => c < self.entries.len(),
            None => true,
        }
    }

    /// The history after `entry` was pushed: what it holds follows
    /// [`pushed`], and an entry that was stored ends recall.
    pub open spec fn push(self, entry: Seq<char>) -> HistoryView {
        HistoryView {
            entries: pushed(self.entries, entry, self.dedup),
            dedup: self.dedup,
            cursor: if entry.len() > 0 {
                None
            } else {
                self.cursor
            },
        }
    }

    /// The position that recall shows next when it moves towards older
    /// entries.
    pub open spec fn older(self) -> nat {
        match self.cursor {
            Some(c) => c + 1,
            None => 0,
        }
    }

    /// The entry that recall shows when it moves towards older entries, if
    /// there is an older one.
    pub open spec fn previous_entry(self) -> Option<Seq<char>> {
        if self.older() < self.entries.len() {
            Some(self.entries[self.older() as int])
        } else {
            None
        }
    }

    /// The history after recall moved towards older entries: the cursor is
    /// on the older entry if there is one, and stays otherwise.
    pub open spec fn recall_previous(self) -> HistoryView {
        if self.older() < self.entries.len() {
            HistoryView { cursor: Some(self.older()), ..self }
        } else {
            self
        }
    }

    /// The entry that recall shows when it moves towards newer entries, if
    /// recall is under way and not at the newest.
    pub open spec fn next_entry(self) -> Option<Seq<char>> {
        match self.cursor {
            Some(c) => if 0 < c <= self.entries.len() {
                Some(self.entries[c - 1])
            } else {
                None
            },
            None => None,
        }
    }

    /// The history after recall moved towards newer entries: the cursor is
    /// on the newer entry if there is one, and recall has ended otherwise.
    pub open spec fn recall_next(self) -> HistoryView {
        match self.cursor {
            Some(c) => if c > 0 {
                HistoryView { cursor: Some((c - 1) as nat), ..self }
            } else {
                HistoryView { cursor: None, ..self }
            },
            None => self,
        }
    }

    /// The history with recall ended.
    pub open spec fn reset(self) -> HistoryView {
        HistoryView { cursor: None, ..self }
    }
}

/// Earlier input, newest first, with a cursor for recall.
///
/// The caller owns a history and may hand it to one prompt after another.
pub struct History {
    store: BasicHistory,
    dedup: bool,
    cursor: Option<usize>,
}

impl View for History {
    type V = HistoryView;

    closed spec fn view(&self) -> HistoryView {
        HistoryView {
            entries: stored(self.store),
            dedup: self.dedup,
            cursor: match self.cursor {
                Some(c) => Some(c as nat),
                None => None,
            },
        }
    }
}

/// Taking out an entry leaves only entries that were there and differ from
/// it, and never makes the sequence longer; where the entry was present the
/// sequence gets shorter.
pub proof fn lemma_without(entries: Seq<Seq<char>>, entry: Seq<char>)
    ensures
        without(entries, entry).len() <= entries.len(),
        entries.contains(entry) ==> without(entries, entry).len() < entries.len(),
        !entries.contains(entry) ==> without(entries, entry) == entries,
        forall|i: int|
            0 <= i < without(entries, entry).len() ==> {
                &&& #[trigger] without(entries, entry)[i] != entry
                &&& entries.contains(without(entries, entry)[i])
            },
        forall|j: int|
            0 <= j < entries.len() && entries[j] != entry ==> without(entries, entry).contains(
                #[trigger] entries[j],
            ),
    decreases entries.len(),
{
    if entries.len() > 0 {
        let front = entries.drop_last();
        lemma_without(front, entry);
        let w = without(entries, entry);
        let wf = without(front, entry);
        if entries.contains(entry) && entries.last() != entry {
            let k = choose|k: int| 0 <= k < entries.len() && entries[k] == entry;
            assert(front[k] == entry);
        }
        if !entries.contains(entry) {
            assert forall|k: int| 0 <= k < front.len() implies front[k] != entry by {
                assert(entries[k] == front[k]);
            }
            assert(!front.contains(entry));
            assert(front.push(entries.last()) =~= entries);
        }
        assert forall|i: int| 0 <= i < w.len() implies #[trigger] w[i] != entry && entries.contains(
            w[i],
        ) by {
            if i < wf.len() {
                assert(w[i] == wf[i]);
                let k = choose|k: int| 0 <= k < front.len() && front[k] == wf[i];
                assert(entries[k] == w[i]);
            } else {
                assert(w[i] == entries.last());
                assert(entries[entries.len() - 1] == w[i]);
            }
        }
        assert forall|j: int| 0 <= j < entries.len() && entries[j] != entry implies w.contains(
            #[trigger] entries[j],
        ) by {
            if j < front.len() {
                assert(front[j] == entries[j]);
                let k = choose|k: int| 0 <= k < wf.len() && wf[k] == front[j];
                assert(w[k] == entries[j]);
            } else {
                assert(w[w.len() - 1] == entries[j]);
            }
        }
    }
}

/// With `dedup`, pushing an entry that the history already holds does not
/// make it longer. Without `dedup`, pushing any entry that is not empty
/// makes it longer by one. An empty entry is never stored.
pub proof fn lemma_push_length(entries: Seq<Seq<char>>, entry: Seq<char>, dedup: bool)
    ensures
        entry.len() == 0 ==> pushed(entries, entry, dedup) == entries,
        dedup && entries.contains(entry) ==> pushed(entries, entry, dedup).len() <= entries.len(),
        !dedup && entry.len() > 0 ==> pushed(entries, entry, dedup).len() == entries.len() + 1,
{
    lemma_without(entries, entry);
}

/// With `dedup`, an entry that was pushed is then held exactly once, as the
/// newest.
pub proof fn lemma_push_unique(entries: Seq<Seq<char>>, entry: Seq<char>)
    requires
        entry.len() > 0,
    ensures
        pushed(entries, entry, true)[0] == entry,
        forall|i: int|
            0 < i < pushed(entries, entry, true).len() ==> #[trigger] pushed(entries, entry, true)[i]
                != entry,
{
    lemma_without(entries, entry);
}

impl History {
    /// The content is well formed, and the store behind it was set up as
    /// the history says: with the same choice on duplicates, and no limit.
    pub closed spec fn wf(self) -> bool {
        &&& self@.wf()
        &&& drops_duplicates(self.store) == self.dedup
        &&& entry_limit(self.store) is None
    }

    /// The content of a well-formed history is well formed.
    pub proof fn lemma_wf(self)
        requires
            self.wf(),
        ensures
            self@.wf(),
    {
    }

    /// An empty history. With `dedup`, pushing an entry that is already held
    /// moves it to the newest place in place of storing it twice.
    pub fn new(dedup: bool) -> (r: Self)
        ensures
            r.wf(),
            r@.entries == Seq::<Seq<char>>::empty(),
            r@.dedup == dedup,
            r@.cursor is None,
    {
        History { store: store_new(dedup), dedup, cursor: None }
    }

    /// Whether pushing an entry removes its older copies.
    pub fn dedup(&self) -> (r: bool)
        ensures
            r == self@.dedup,
    {
        self.dedup
    }

    /// The position that recall last showed, counted from the newest entry.
    pub fn cursor(&self) -> (r: Option<usize>)
        ensures
            match r {
                Some(c) => self@.cursor == Some(c as nat),
                None => self@.cursor is None,
            },
    {
        self.cursor
    }

    /// The entries, newest first.
    pub fn entries(&self) -> (r: Vec<String>)
        ensures
            r@.len() == self@.entries.len(),
            forall|i: int| 0 <= i < r@.len() ==> (#[trigger] r@[i])@ == self@.entries[i],
    {
        let mut all: Vec<String> = Vec::new();
        loop
            invariant
                all@.len() <= stored(self.store).len(),
                forall|i: int| 0 <= i < all@.len() ==> (#[trigger] all@[i])@ == stored(self.store)[i],
            ensures
                all@.len() == stored(self.store).len(),
            decreases stored(self.store).len() - all@.len(),
        {
            match store_read(&self.store, all.len()) {
                Some(s) => {
                    all.push(s);
                },
                None => {
                    break ;
                },
            }
        }
        all
    }

    /// The number of entries.
    pub fn len(&self) -> (r: usize)
        ensures
            r == self@.entries.len(),
    {
        self.entries().len()
    }

    /// Stores `entry` as the newest entry and ends recall. An empty entry is
    /// not stored and changes nothing. The result says whether the entry was
    /// stored.
    pub fn push(&mut self, entry: &str) -> (kept: bool)
        requires
            old(self).wf(),
        ensures
            final(self).wf(),
            kept == (entry@.len() > 0),
            final(self)@ == old(self)@.push(entry@),
    {
        if entry.is_empty() {
            return false;
        }
        let owned = entry.to_owned();
        proof {
            lemma_without(stored(self.store), entry@);
        }
        store_write(&mut self.store, &owned);
        self.cursor = None;
        true
    }

    /// Moves recall one entry towards the oldest and returns that entry. At
    /// the oldest entry, or in an empty history, nothing moves and nothing is
    /// returned.
    pub fn recall_previous(&mut self) -> (r: Option<String>)
        requires
            old(self).wf(),
        ensures
            final(self).wf(),
            final(self)@ == old(self)@.recall_previous(),
            match r {
                Some(s) => old(self)@.previous_entry() == Some(s@) && s@.len() > 0,
                None => old(self)@.previous_entry() is None,
            },
    {
        let next: usize = match self.cursor {
            None => 0,
            Some(c) => {
                if c == usize::MAX {
                    // Never taken: the cursor is on an entry, so the number of
                    // entries would have to exceed what `len` can return.
                    let count = self.len();
                    assert(c < count);
                    return None;
                }
                c + 1
            },
        };
        let found = store_read(&self.store, next);
        if found.is_some() {
            self.cursor = Some(next);
        }
        found
    }

    /// Moves recall one entry towards the newest and returns that entry.
    /// From the newest entry recall ends and nothing is returned, as it is
    /// when no recall is under way.
    pub fn recall_next(&mut self) -> (r: Option<String>)
        requires
            old(self).wf(),
        ensures
            final(self).wf(),
            final(self)@ == old(self)@.recall_next(),
            match r {
                Some(s) => old(self)@.next_entry() == Some(s@) && s@.len() > 0,
                None => old(self)@.next_entry() is None,
            },
    {
        match self.cursor {
            Some(c) => {
                if c > 0 {
                    let found = store_read(&self.store, c - 1);
                    self.cursor = Some(c - 1);
                    found
                } else {
                    self.cursor = None;
                    None
                }
            },
            None => None,
        }
    }

    /// Ends recall: the next recall starts from the newest entry again.
    pub fn reset_cursor(&mut self)
        requires
            old(self).wf(),
        ensures
            final(self).wf(),
            final(self)@ == old(self)@.reset(),
    {
        self.cursor = None;
    }
}

} // verus!
