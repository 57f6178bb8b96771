//! Fuzzy matching of a filter against a label.
//!
//! A filter matches a label if its characters occur in the label in the same
//! order, not necessarily side by side, where upper and lower case of the
//! letters `a` to `z` count as equal. A match is scored by where the
//! leftmost such occurrence lies: characters that follow one another
//! directly earn a bonus, and every character of the label that is passed
//! over before the last one is found costs a point.

use vstd::prelude::*;
use crate::text::chars_of;

verus! {

/// What a filter character earns when it is found directly behind the one
/// before it.
pub const ADJACENT_BONUS: i128 = 4;

/// `c` with the letters `A` to `Z` turned into `a` to `z`.
pub open spec fn fold(c: char) -> char {
    if 'A' <= c && c <= 'Z' {
        ((c as int) + 32) as char
    } else {
        c
    }
}

/// `c` with the letters `A` to `Z` turned into `a` to `z`.
pub fn fold_case(c: char) -> (r: char)
    ensures
        r == fold(c),
{
    if 'A' <= c && c <= 'Z' {
        ((c as u8) + 32) as char
    } else {
        c
    }
}

/// `at` places the characters of `pat` in `text`: one position for each, in
/// rising order, each holding the character up to case.
pub open spec fn embeds(pat: Seq<char>, text: Seq<char>, at: Seq<int>) -> bool {
    &&& at.len() == pat.len()
    &&& forall|k: int|
        0 <= k < at.len() ==> 0 <= #[trigger] at[k] < text.len() && fold(text[at[k]]) == fold(pat[k])
    &&& forall|j: int, k: int| 0 <= j < k < at.len() ==> at[j] < at[k]
}

/// The characters of `pat` occur in `text` in order, up to case.
pub open spec fn is_subsequence(pat: Seq<char>, text: Seq<char>) -> bool {
    exists|at: Seq<int>| embeds(pat, text, at)
}

/// The first position at or behind `from` where `text` holds `c` up to case,
/// or the length of `text` if there is none.
pub open spec fn first_at(text: Seq<char>, c: char, from: int) -> int
    decreases text.len() - from,
{
    if from >= text.len() {
        text.len() as int
    } else if fold(text[from]) == fold(c) {
        from
    } else {
        first_at(text, c, from + 1)
    }
}

/// The position of character `k` of `pat` in the leftmost occurrence of
/// `pat` in `text`, or the length of `text` if `pat` cannot be placed that
/// far.
pub open spec fn leftmost(pat: Seq<char>, text: Seq<char>, k: int) -> int
    decreases k,
{
    if k <= 0 {
        first_at(text, pat[0], 0)
    } else {
        let before = leftmost(pat, text, k - 1);
        if before < text.len() {
            first_at(text, pat[k], before + 1)
        } else {
            text.len() as int
        }
    }
}

/// Among the characters `1` to `k` of `pat`, the number that the leftmost
/// occurrence places directly behind the character before.
pub open spec fn adjacent_pairs(pat: Seq<char>, text: Seq<char>, k: int) -> int
    decreases k,
{
    if k <= 0 {
        0
    } else {
        adjacent_pairs(pat, text, k - 1) + if leftmost(pat, text, k) == leftmost(pat, text, k - 1)
            + 1 {
            1int
        } else {
            0int
        }
    }
}

/// The score of `text` under the filter `pat`, where `pat` occurs in it: the
/// bonus for each adjacent pair, less the number of characters of `text`
/// passed over up to the place of the last character of `pat`. The empty
/// filter scores `0`.
pub open spec fn score_of(pat: Seq<char>, text: Seq<char>) -> int {
    if pat.len() == 0 {
        0
    } else {
        ADJACENT_BONUS * adjacent_pairs(pat, text, pat.len() - 1) - (leftmost(
            pat,
            text,
            pat.len() - 1,
        ) + 1 - pat.len())
    }
}

/// Where `first_at` lands: not before `from`, on a place that holds the
/// character, with no such place passed over.
pub proof fn lemma_first_at(text: Seq<char>, c: char, from: int)
    requires
        0 <= from <= text.len(),
    ensures
        from <= first_at(text, c, from) <= text.len(),
        first_at(text, c, from) < text.len() ==> fold(text[first_at(text, c, from)]) == fold(c),
        forall|q: int| from <= q < first_at(text, c, from) ==> fold(#[trigger] text[q]) != fold(c),
    decreases text.len() - from,
{
    if from < text.len() && fold(text[from]) != fold(c) {
        lemma_first_at(text, c, from + 1);
    }
}

/// The leftmost positions rise strictly as long as they lie in `text`, each
/// holds its character, and once one falls off the end all later ones do.
pub proof fn lemma_leftmost(pat: Seq<char>, text: Seq<char>, k: int)
    requires
        0 <= k < pat.len(),
    ensures
        0 <= leftmost(pat, text, k) <= text.len(),
        leftmost(pat, text, k) < text.len() ==> fold(text[leftmost(pat, text, k)]) == fold(pat[k]),
        forall|j: int|
            0 <= j < k ==> {
                &&& #[trigger] leftmost(pat, text, j) <= leftmost(pat, text, k)
                &&& leftmost(pat, text, k) < text.len() ==> leftmost(pat, text, j) < leftmost(
                    pat,
                    text,
                    k,
                )
            },
    decreases k,
{
    if k <= 0 {
        lemma_first_at(text, pat[0], 0);
    } else {
        lemma_leftmost(pat, text, k - 1);
        let before = leftmost(pat, text, k - 1);
        if before < text.len() {
            lemma_first_at(text, pat[k], before + 1);
        }
    }
}

/// No occurrence of `pat` in `text` places a character before the leftmost
/// one does.
pub proof fn lemma_leftmost_is_least(pat: Seq<char>, text: Seq<char>, at: Seq<int>, k: int)
    requires
        embeds(pat, text, at),
        0 <= k < pat.len(),
    ensures
        leftmost(pat, text, k) <= at[k],
    decreases k,
{
    if k <= 0 {
        lemma_first_at(text, pat[0], 0);
    } else {
        lemma_leftmost_is_least(pat, text, at, k - 1);
        lemma_leftmost(pat, text, k - 1);
        let before = leftmost(pat, text, k - 1);
        assert(at[k - 1] < at[k] < text.len());
        lemma_first_at(text, pat[k], before + 1);
    }
}

/// The filter occurs in the text exactly if its leftmost occurrence places
/// its last character within the text.
pub proof fn lemma_leftmost_decides(pat: Seq<char>, text: Seq<char>)
    ensures
        is_subsequence(pat, text) <==> (pat.len() == 0 || leftmost(pat, text, pat.len() - 1)
            < text.len()),
{
    if pat.len() == 0 {
        assert(embeds(pat, text, Seq::<int>::empty()));
    } else {
        let last = pat.len() - 1;
        if is_subsequence(pat, text) {
            let at = choose|at: Seq<int>| embeds(pat, text, at);
            lemma_leftmost_is_least(pat, text, at, last);
        }
        if leftmost(pat, text, last) < text.len() {
            let at = Seq::new(pat.len(), |k: int| leftmost(pat, text, k));
            assert forall|k: int| 0 <= k < at.len() implies 0 <= #[trigger] at[k] < text.len()
                && fold(text[at[k]]) == fold(pat[k]) by {
                lemma_leftmost(pat, text, last);
                lemma_leftmost(pat, text, k);
            }
            assert forall|j: int, k: int| 0 <= j < k < at.len() implies at[j] < at[k] by {
                lemma_leftmost(pat, text, last);
                lemma_leftmost(pat, text, k);
            }
            assert(embeds(pat, text, at));
        }
    }
}

/// The score of `label` under `filter`, or nothing where `filter` does not
/// occur in `label`.
pub fn score_chars(label: &Vec<char>, filter: &Vec<char>) -> (r: Option<i128>)
    ensures
        r is Some <==> is_subsequence(filter@, label@),
        r matches Some(s) ==> s == score_of(filter@, label@),
{
    let n = label.len();
    let m = filter.len();
    proof {
        lemma_leftmost_decides(filter@, label@);
    }
    if m == 0 {
        return Some(0);
    }
    let mut i: usize = 0;
    let mut k: usize = 0;
    let mut last: usize = 0;
    let mut pairs: usize = 0;
    while i < n && k < m
        invariant
            n == label@.len(),
            m == filter@.len(),
            m > 0,
            i <= n,
            k <= m,
            k <= i,
            k > 0 ==> last == leftmost(filter@, label@, k - 1) && last < i,
            pairs == adjacent_pairs(filter@, label@, k - 1),
            pairs <= k,
            k < m ==> leftmost(filter@, label@, k as int) == first_at(label@, filter@[k as int], i as int),
        decreases n - i,
    {
        if fold_case(label[i]) == fold_case(filter[k]) {
            if k > 0 && last + 1 == i {
                pairs = pairs + 1;
            }
            last = i;
            k = k + 1;
        }
        i = i + 1;
    }
    if k == m {
        let gained: i128 = ADJACENT_BONUS * (pairs as i128);
        let passed: i128 = (last as i128) + 1 - (m as i128);
        Some(gained - passed)
    } else {
        proof {
            lemma_leftmost(filter@, label@, m - 1);
        }
        None
    }
}

/// The score of `label` under `filter`, or nothing where `filter` does not
/// occur in `label`.
pub fn fuzzy_score(label: &str, filter: &str) -> (r: Option<i128>)
    ensures
        r is Some <==> is_subsequence(filter@, label@),
        r matches Some(s) ==> s == score_of(filter@, label@),
{
    let label_chars = chars_of(label);
    let filter_chars = chars_of(filter);
    score_chars(&label_chars, &filter_chars)
}


/// One label that the filter matched.
#[derive(Clone, Copy, Debug, PartialEq, Eq)]
pub struct Match {
    /// The position of the label in the list of items.
    pub index: usize,
    /// The score of the label under the filter.
    pub score: i128,
}

/// `a` stands before `b` in a ranking: it has the higher score, or the same
/// score and the lower index.
pub open spec fn ranks_before(a: Match, b: Match) -> bool {
    a.score > b.score || (a.score == b.score && a.index < b.index)
}

/// `matches` has an entry for the item `index`.
pub open spec fn lists(matches: Seq<Match>, index: int) -> bool {
    exists|k: int| 0 <= k < matches.len() && (#[trigger] matches[k]).index == index
}

/// `matches` is the ranking of `labels` under `filter`: it holds the labels
/// in which the filter occurs and no others, each with its score, the
/// higher score first and, among equal scores, the lower index first.
pub open spec fn ranked(labels: Seq<Seq<char>>, filter: Seq<char>, matches: Seq<Match>) -> bool {
    &&& forall|k: int|
        0 <= k < matches.len() ==> {
            &&& (#[trigger] matches[k]).index < labels.len()
            &&& is_subsequence(filter, labels[matches[k].index as int])
            &&& matches[k].score == score_of(filter, labels[matches[k].index as int])
        }
    &&& forall|i: int|
        0 <= i < labels.len() && is_subsequence(filter, #[trigger] labels[i]) ==> lists(matches, i)
    &&& forall|j: int, k: int|
        0 <= j < k < matches.len() ==> ranks_before(#[trigger] matches[j], #[trigger] matches[k])
}

/// `matches` stands in ranking order: each entry ranks before all that
/// follow it.
pub open spec fn in_rank_order(matches: Seq<Match>) -> bool {
    forall|j: int, k: int|
        0 <= j < k < matches.len() ==> ranks_before(#[trigger] matches[j], #[trigger] matches[k])
}

/// Two sequences in ranking order that hold the same entries are the same
/// sequence.
pub proof fn lemma_rank_order_is_unique(a: Seq<Match>, b: Seq<Match>)
    requires
        in_rank_order(a),
        in_rank_order(b),
        forall|k: int| 0 <= k < a.len() ==> b.contains(#[trigger] a[k]),
        forall|k: int| 0 <= k < b.len() ==> a.contains(#[trigger] b[k]),
    ensures
        a == b,
    decreases a.len(),
{
    if a.len() == 0 {
        if b.len() > 0 {
            assert(a.contains(b[0]));
        }
        assert(a =~= b);
    } else if b.len() == 0 {
        assert(b.contains(a[0]));
    } else {
        let x = a.last();
        let y = b.last();
        assert(b.contains(a[a.len() - 1]));
        assert(a.contains(b[b.len() - 1]));
        let p = choose|p: int| 0 <= p < b.len() && b[p] == x;
        let q = choose|q: int| 0 <= q < a.len() && a[q] == y;
        if p < b.len() - 1 {
            assert(ranks_before(b[p], b[b.len() - 1]));
        }
        if q < a.len() - 1 {
            assert(ranks_before(a[q], a[a.len() - 1]));
        }
        assert(x == y);
        let front_a = a.drop_last();
        let front_b = b.drop_last();
        assert forall|k: int| 0 <= k < front_a.len() implies front_b.contains(#[trigger] front_a[k]) by {
            assert(b.contains(a[k]));
            let r = choose|r: int| 0 <= r < b.len() && b[r] == a[k];
            assert(ranks_before(a[k], a[a.len() - 1]));
            assert(front_b[r] == a[k]);
        }
        assert forall|k: int| 0 <= k < front_b.len() implies front_a.contains(#[trigger] front_b[k]) by {
            assert(a.contains(b[k]));
            let r = choose|r: int| 0 <= r < a.len() && a[r] == b[k];
            assert(ranks_before(b[k], b[b.len() - 1]));
            assert(front_a[r] == b[k]);
        }
        lemma_rank_order_is_unique(front_a, front_b);
        assert(a =~= front_a.push(x));
        assert(b =~= front_b.push(y));
    }
}

/// A list of labels has one ranking under a filter and no other.
pub proof fn lemma_ranking_is_unique(
    labels: Seq<Seq<char>>,
    filter: Seq<char>,
    a: Seq<Match>,
    b: Seq<Match>,
)
    requires
        ranked(labels, filter, a),
        ranked(labels, filter, b),
    ensures
        a == b,
{
    assert forall|k: int| 0 <= k < a.len() implies b.contains(#[trigger] a[k]) by {
        assert(lists(b, a[k].index as int));
        let r = choose|r: int| 0 <= r < b.len() && (#[trigger] b[r]).index == a[k].index;
        assert(b[r] == a[k]);
    }
    assert forall|k: int| 0 <= k < b.len() implies a.contains(#[trigger] b[k]) by {
        assert(lists(a, b[k].index as int));
        let r = choose|r: int| 0 <= r < a.len() && (#[trigger] a[r]).index == b[k].index;
        assert(a[r] == b[k]);
    }
    lemma_rank_order_is_unique(a, b);
}

/// In a ranking, an item is listed exactly if the filter occurs in its
/// label, and it is listed once.
pub proof fn lemma_ranking_lists_the_matches(
    labels: Seq<Seq<char>>,
    filter: Seq<char>,
    matches: Seq<Match>,
)
    requires
        ranked(labels, filter, matches),
    ensures
        forall|i: int|
            0 <= i < labels.len() ==> (lists(matches, i) <==> is_subsequence(
                filter,
                #[trigger] labels[i],
            )),
        forall|j: int, k: int|
            0 <= j < k < matches.len() ==> (#[trigger] matches[j]).index != (
            #[trigger] matches[k]).index,
{
    assert forall|i: int| 0 <= i < labels.len() && lists(matches, i) implies is_subsequence(
        filter,
        #[trigger] labels[i],
    ) by {
        let k = choose|k: int| 0 <= k < matches.len() && (#[trigger] matches[k]).index == i;
    }
    assert forall|j: int, k: int| 0 <= j < k < matches.len() implies (#[trigger] matches[j]).index
        != (#[trigger] matches[k]).index by {
        assert(ranks_before(matches[j], matches[k]));
    }
}

/// The ranking of `labels` under `filter`.
pub fn rank(labels: &Vec<String>, filter: &str) -> (r: Vec<Match>)
    ensures
        ranked(labels.deep_view(), filter@, r@),
{
    let pat = chars_of(filter);
    let mut out: Vec<Match> = Vec::new();
    let mut i: usize = 0;
    while i < labels.len()
        invariant
            i <= labels.len(),
            pat@ == filter@,
            ranked(labels.deep_view().take(i as int), filter@, out@),
        decreases labels.len() - i,
    {
        let text = chars_of(labels[i].as_str());
        let ghost before = out@;
        let ghost seen = labels.deep_view().take(i as int);
        let ghost next = labels.deep_view().take(i + 1);
        assert(forall|j: int| 0 <= j < i ==> next[j] == seen[j]);
        assert(next[i as int] == text@);
        match score_chars(&text, &pat) {
            Some(score) => {
                let mut p: usize = 0;
                while p < out.len() && out[p].score >= score
                    invariant
                        p <= out.len(),
                        out@ == before,
                        forall|j: int| 0 <= j < p ==> (#[trigger] out@[j]).score >= score,
                    decreases out.len() - p,
                {
                    p = p + 1;
                }
                let found = Match { index: i, score };
                out.insert(p, found);
                proof {
                    let after = out@;
                    assert(after.len() == before.len() + 1);
                    assert(forall|k: int| 0 <= k < p ==> after[k] == before[k]);
                    assert(after[p as int] == found);
                    assert(forall|k: int| p < k < after.len() ==> after[k] == before[k - 1]);
                    assert forall|k: int| 0 <= k < after.len() implies {
                        &&& (#[trigger] after[k]).index < next.len()
                        &&& is_subsequence(filter@, next[after[k].index as int])
                        &&& after[k].score == score_of(filter@, next[after[k].index as int])
                    } by {
                        if k < p {
                            assert(after[k] == before[k]);
                        } else if k > p {
                            assert(after[k] == before[k - 1]);
                        }
                    }
                    assert forall|j: int|
                        0 <= j < next.len() && is_subsequence(filter@, #[trigger] next[j]) implies lists(
                        after,
                        j,
                    ) by {
                        if j < i {
                            assert(is_subsequence(filter@, seen[j]));
                            let k = choose|k: int| 0 <= k < before.len() && (#[trigger] before[k]).index == j;
                            if k < p {
                                assert(after[k].index == j);
                            } else {
                                assert(after[k + 1].index == j);
                            }
                        } else {
                            assert(after[p as int].index == j);
                        }
                    }
                    assert forall|j: int, k: int| 0 <= j < k < after.len() implies ranks_before(
                        #[trigger] after[j],
                        #[trigger] after[k],
                    ) by {
                        if k < p {
                            assert(ranks_before(before[j], before[k]));
                        } else if k == p {
                            assert(before[j].index < i);
                        } else if j < p {
                            assert(ranks_before(before[j], before[k - 1]));
                        } else if j == p {
                            if p < k - 1 {
                                assert(ranks_before(before[p as int], before[k - 1]));
                            }
                        } else {
                            assert(ranks_before(before[j - 1], before[k - 1]));
                        }
                    }
                }
            },
            None => {
                proof {
                    assert forall|j: int|
                        0 <= j < next.len() && is_subsequence(filter@, #[trigger] next[j]) implies lists(
                        out@,
                        j,
                    ) by {
                        assert(is_subsequence(filter@, seen[j]));
                    }
                }
            },
        }
        i = i + 1;
    }
    assert(labels.deep_view().take(i as int) == labels.deep_view());
    out
}

} // verus!
