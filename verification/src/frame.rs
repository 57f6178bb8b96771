//! The rows that the list prompts show.

use vstd::prelude::*;

verus! {

/// What stands at the start of a row: an arrow on the highlighted row,
/// blanks on the others.
pub open spec fn marker(active: bool) -> Seq<char> {
    if active {
        "> "@
    } else {
        "  "@
    }
}

/// The checkbox of a row.
pub open spec fn checkbox(checked: bool) -> Seq<char> {
    if checked {
        "[x] "@
    } else {
        "[ ] "@
    }
}

/// The row of an item without a checkbox.
pub open spec fn plain_row(active: bool, label: Seq<char>) -> Seq<char> {
    marker(active) + label
}

/// The row of an item with a checkbox.
pub open spec fn boxed_row(active: bool, checked: bool, label: Seq<char>) -> Seq<char> {
    marker(active) + checkbox(checked) + label
}

/// The first line of a list prompt: the request and a colon.
pub open spec fn heading(prompt: Seq<char>) -> Seq<char> {
    prompt + ":"@
}

fn marker_text(active: bool) -> (r: String)
    ensures
        r@ == marker(active),
{
    if active {
        "> ".to_owned()
    } else {
        "  ".to_owned()
    }
}

/// The row of an item without a checkbox.
pub fn make_plain_row(active: bool, label: &str) -> (r: String)
    ensures
        r@ == plain_row(active, label@),
{
    let mut row = marker_text(active);
    row.append(label);
    row
}

/// The row of an item with a checkbox.
pub fn make_boxed_row(active: bool, checked: bool, label: &str) -> (r: String)
    ensures
        r@ == boxed_row(active, checked, label@),
{
    let mut row = marker_text(active);
    if checked {
        row.append("[x] ");
    } else {
        row.append("[ ] ");
    }
    row.append(label);
    row
}

/// The first line of a list prompt.
pub fn make_heading(prompt: &str) -> (r: String)
    ensures
        r@ == heading(prompt@),
{
    let mut line = prompt.to_owned();
    line.append(":");
    line
}

} // verus!
