//! Redrawing a prompt with as little output as the change needs.
//!
//! A frame is what a prompt shows: a sequence of lines. Given the frame on
//! the screen and the frame wanted, the renderer emits terminal operations
//! for the rows that differ and for no others.

use vstd::prelude::*;

verus! {

/// One terminal operation.
#[derive(Debug, PartialEq, Eq)]
pub enum RenderOp {
    /// Move the cursor to the start of a row, counted from the top of the
    /// prompt.
    MoveTo(usize),
    /// Clear the row that the cursor is on.
    ClearLine,
    /// Write text at the cursor.
    Write(String),
}

/// The mathematical content of a [`RenderOp`].
pub enum Paint {
    /// Move the cursor to the start of a row.
    MoveTo(nat),
    /// Clear the row that the cursor is on.
    ClearLine,
    /// Write text at the cursor.
    Write(Seq<char>),
}

impl DeepView for RenderOp {
    type V = Paint;

    open spec fn deep_view(&self) -> Paint {
        match *self {
            RenderOp::MoveTo(row) => Paint::MoveTo(row as nat),
            RenderOp::ClearLine => Paint::ClearLine,
            RenderOp::Write(text) => Paint::Write(text@),
        }
    }
}

/// A screen: its rows and the row that the cursor is on.
pub struct Screen {
    /// What each row holds, from the top.
    pub rows: Seq<Seq<char>>,
    /// The row that the cursor is on.
    pub row: int,
}

impl Screen {
    /// The screen after one operation. Clearing and writing on a row that
    /// the screen does not have changes nothing.
    pub open spec fn apply(self, op: Paint) -> Screen {
        match op {
            Paint::MoveTo(row) => Screen { row: row as int, ..self },
            Paint::ClearLine => if 0 <= self.row < self.rows.len() {
                Screen { rows: self.rows.update(self.row, Seq::empty()), ..self }
            } else {
                self
            },
            Paint::Write(text) => if 0 <= self.row < self.rows.len() {
                Screen { rows: self.rows.update(self.row, self.rows[self.row] + text), ..self }
            } else {
                self
            },
        }
    }

    /// The screen after the operations `ops`, in order.
    pub open spec fn run(self, ops: Seq<Paint>) -> Screen
        decreases ops.len(),
    {
        if ops.len() == 0 {
            self
        } else {
            self.run(ops.drop_last()).apply(ops.last())
        }
    }

    /// The screen shows `frame`: it has a row for each line of the frame,
    /// holding that line, and its other rows are empty.
    pub open spec fn shows(self, frame: Seq<Seq<char>>) -> bool {
        &&& frame.len() <= self.rows.len()
        &&& forall|i: int| 0 <= i < self.rows.len() ==> #[trigger] self.rows[i] == row_at(frame, i)
    }
}

/// Line `i` of `frame`, or the empty line where the frame has no such line.
pub open spec fn row_at(frame: Seq<Seq<char>>, i: int) -> Seq<char> {
    if 0 <= i < frame.len() {
        frame[i]
    } else {
        Seq::empty()
    }
}

/// The operations that make row `row` hold `text`.
pub open spec fn repaint_row(row: nat, text: Seq<char>) -> Seq<Paint> {
    if text.len() == 0 {
        seq![Paint::MoveTo(row), Paint::ClearLine]
    } else {
        seq![Paint::MoveTo(row), Paint::ClearLine, Paint::Write(text)]
    }
}

/// The operations that turn the first `upto` rows of a screen that shows
/// `prev` into those of `next`: a repaint for each row on which the two
/// differ, from the top down.
pub open spec fn changes(prev: Seq<Seq<char>>, next: Seq<Seq<char>>, upto: nat) -> Seq<Paint>
    decreases upto,
{
    if upto == 0 {
        Seq::empty()
    } else {
        let above = changes(prev, next, (upto - 1) as nat);
        if row_at(prev, upto - 1) == row_at(next, upto - 1) {
            above
        } else {
            above + repaint_row((upto - 1) as nat, row_at(next, upto - 1))
        }
    }
}

/// The number of rows that two frames can differ on: the length of the
/// longer.
pub open spec fn extent(prev: Seq<Seq<char>>, next: Seq<Seq<char>>) -> nat {
    if prev.len() >= next.len() {
        prev.len()
    } else {
        next.len()
    }
}

/// Running operations one group after another is running them all.
pub proof fn lemma_run_concat(screen: Screen, first: Seq<Paint>, second: Seq<Paint>)
    ensures
        screen.run(first + second) == screen.run(first).run(second),
    decreases second.len(),
{
    if second.len() == 0 {
        assert(first + second =~= first);
    } else {
        lemma_run_concat(screen, first, second.drop_last());
        assert((first + second).drop_last() =~= first + second.drop_last());
        assert((first + second).last() == second.last());
    }
}

/// Repainting a row of the screen makes it hold the text and leaves the
/// other rows alone.
pub proof fn lemma_repaint_row(screen: Screen, row: nat, text: Seq<char>)
    requires
        row < screen.rows.len(),
    ensures
        screen.run(repaint_row(row, text)).rows == screen.rows.update(row as int, text),
{
    let ops = repaint_row(row, text);
    let moved = screen.apply(Paint::MoveTo(row));
    let cleared = moved.apply(Paint::ClearLine);
    if text.len() == 0 {
        assert(ops.drop_last() =~= seq![Paint::MoveTo(row)]);
        assert(ops.drop_last().drop_last() =~= Seq::<Paint>::empty());
        assert(screen.run(ops.drop_last().drop_last()) == screen);
        assert(screen.run(ops.drop_last()) == moved);
        assert(screen.run(ops) == cleared);
        assert(text =~= Seq::<char>::empty());
    } else {
        assert(ops.drop_last() =~= seq![Paint::MoveTo(row), Paint::ClearLine]);
        assert(ops.drop_last().drop_last() =~= seq![Paint::MoveTo(row)]);
        assert(ops.drop_last().drop_last().drop_last() =~= Seq::<Paint>::empty());
        assert(screen.run(ops.drop_last().drop_last().drop_last()) == screen);
        assert(screen.run(ops.drop_last().drop_last()) == moved);
        assert(screen.run(ops.drop_last()) == cleared);
        assert(Seq::<char>::empty() + text =~= text);
        assert(screen.run(ops).rows =~= screen.rows.update(row as int, text));
    }
}

/// On a screen that shows `prev`, the changes up to row `upto` make the rows
/// above `upto` those of `next` and leave the others those of `prev`.
pub proof fn lemma_changes_upto(screen: Screen, prev: Seq<Seq<char>>, next: Seq<Seq<char>>, upto: nat)
    requires
        screen.shows(prev),
        upto <= screen.rows.len(),
    ensures
        screen.run(changes(prev, next, upto)).rows == Seq::new(
            screen.rows.len(),
            |i: int|
                if i < upto {
                    row_at(next, i)
                } else {
                    row_at(prev, i)
                },
        ),
    decreases upto,
{
    let wanted = Seq::new(
        screen.rows.len(),
        |i: int|
            if i < upto {
                row_at(next, i)
            } else {
                row_at(prev, i)
            },
    );
    if upto == 0 {
        assert(screen.rows =~= wanted);
    } else {
        let above = changes(prev, next, (upto - 1) as nat);
        lemma_changes_upto(screen, prev, next, (upto - 1) as nat);
        let so_far = screen.run(above);
        if row_at(prev, upto - 1) == row_at(next, upto - 1) {
            assert(so_far.rows =~= wanted);
        } else {
            let ops = repaint_row((upto - 1) as nat, row_at(next, upto - 1));
            lemma_run_concat(screen, above, ops);
            lemma_repaint_row(so_far, (upto - 1) as nat, row_at(next, upto - 1));
            assert(so_far.run(ops).rows =~= wanted);
        }
    }
}

/// On a screen that shows `prev` and has room for `next`, the changes over
/// the whole extent of the two frames make the screen show `next`.
pub proof fn lemma_changes_show_next(screen: Screen, prev: Seq<Seq<char>>, next: Seq<Seq<char>>)
    requires
        screen.shows(prev),
        next.len() <= screen.rows.len(),
    ensures
        screen.run(changes(prev, next, extent(prev, next))).shows(next),
{
    lemma_changes_upto(screen, prev, next, extent(prev, next));
}

/// Rows on which the two frames agree cost nothing: where they agree on
/// every row below `upto`, there are no changes at all.
pub proof fn lemma_no_change_no_output(prev: Seq<Seq<char>>, next: Seq<Seq<char>>, upto: nat)
    requires
        forall|i: int| 0 <= i < upto ==> row_at(prev, i) == row_at(next, i),
    ensures
        changes(prev, next, upto).len() == 0,
    decreases upto,
{
    if upto > 0 {
        lemma_no_change_no_output(prev, next, (upto - 1) as nat);
    }
}

/// Every operation among the changes that moves the cursor moves it to a
/// row on which the two frames differ.
pub proof fn lemma_changes_touch_only_differences(
    prev: Seq<Seq<char>>,
    next: Seq<Seq<char>>,
    upto: nat,
    k: int,
)
    requires
        0 <= k < changes(prev, next, upto).len(),
    ensures
        changes(prev, next, upto)[k] matches Paint::MoveTo(row) ==> row < upto && row_at(
            prev,
            row as int,
        ) != row_at(next, row as int),
        changes(prev, next, upto).len() <= 3 * upto,
    decreases upto,
{
    if upto > 0 {
        let above = changes(prev, next, (upto - 1) as nat);
        if k < above.len() {
            lemma_changes_touch_only_differences(prev, next, (upto - 1) as nat, k);
        } else if above.len() > 0 {
            lemma_changes_touch_only_differences(prev, next, (upto - 1) as nat, 0);
        }
    }
}

fn line_or_empty(frame: &Vec<String>, i: usize) -> (r: String)
    ensures
        r@ == row_at(frame.deep_view(), i as int),
{
    if i < frame.len() {
        frame[i].clone()
    } else {
        String::new()
    }
}

/// The operations that turn a screen that shows `prev` into one that shows
/// `next`.
pub fn diff(prev: &Vec<String>, next: &Vec<String>) -> (r: Vec<RenderOp>)
    ensures
        r.deep_view() == changes(
            prev.deep_view(),
            next.deep_view(),
            extent(prev.deep_view(), next.deep_view()),
        ),
{
    let rows = if prev.len() >= next.len() {
        prev.len()
    } else {
        next.len()
    };
    let mut ops: Vec<RenderOp> = Vec::new();
    let mut i: usize = 0;
    while i < rows
        invariant
            i <= rows,
            ops.deep_view() == changes(prev.deep_view(), next.deep_view(), i as nat),
        decreases rows - i,
    {
        let old_line = line_or_empty(prev, i);
        let new_line = line_or_empty(next, i);
        let ghost above = ops.deep_view();
        if old_line != new_line {
            ops.push(RenderOp::MoveTo(i));
            ops.push(RenderOp::ClearLine);
            if !new_line.as_str().is_empty() {
                ops.push(RenderOp::Write(new_line));
            }
            assert(ops.deep_view() =~= above + repaint_row(i as nat, new_line@));
        } else {
            assert(ops.deep_view() =~= above);
        }
        i = i + 1;
    }
    ops
}

/// A renderer: it remembers the frame it drew last and draws the next one
/// by its difference from that.
pub struct Renderer {
    last: Vec<String>,
}

impl View for Renderer {
    type V = Seq<Seq<char>>;

    /// The frame drawn last.
    closed spec fn view(&self) -> Seq<Seq<char>> {
        self.last.deep_view()
    }
}

impl Renderer {
    /// A renderer in front of an empty screen.
    pub fn new() -> (r: Self)
        ensures
            r@ == Seq::<Seq<char>>::empty(),
    {
        let r = Renderer { last: Vec::new() };
        assert(r@ =~= Seq::<Seq<char>>::empty());
        r
    }

    /// The frame drawn last.
    pub fn last_frame(&self) -> (r: &Vec<String>)
        ensures
            r.deep_view() == self@,
    {
        &self.last
    }

    /// The operations that draw `frame` over the frame drawn last, which
    /// `frame` then replaces.
    pub fn render(&mut self, frame: Vec<String>) -> (r: Vec<RenderOp>)
        ensures
            r.deep_view() == changes(old(self)@, frame.deep_view(), extent(old(self)@, frame.deep_view())),
            final(self)@ == frame.deep_view(),
    {
        let ops = diff(&self.last, &frame);
        self.last = frame;
        ops
    }

    /// The operations that clear what was drawn last, after which the
    /// renderer stands in front of an empty screen again.
    pub fn clear(&mut self) -> (r: Vec<RenderOp>)
        ensures
            r.deep_view() == changes(old(self)@, Seq::empty(), old(self)@.len()),
            final(self)@ == Seq::<Seq<char>>::empty(),
    {
        let nothing: Vec<String> = Vec::new();
        assert(nothing.deep_view() =~= Seq::<Seq<char>>::empty());
        self.render(nothing)
    }
}

} // verus!
