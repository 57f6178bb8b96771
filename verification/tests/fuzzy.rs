use promptkit::fuzzy::{fold_case, fuzzy_score, rank, score_chars, Match, ADJACENT_BONUS};

fn labels(items: &[&str]) -> Vec<String> {
    items.iter().map(|s| s.to_string()).collect()
}

fn indices(matches: &[Match]) -> Vec<usize> {
    matches.iter().map(|m| m.index).collect()
}

fn is_subsequence(filter: &str, label: &str) -> bool {
    let mut rest = label.chars();
    filter.chars().all(|f| rest.any(|c| c.eq_ignore_ascii_case(&f)))
}

#[test]
fn fold_case_lowers_ascii_letters_only() {
    assert_eq!(fold_case('A'), 'a');
    assert_eq!(fold_case('Z'), 'z');
    assert_eq!(fold_case('m'), 'm');
    assert_eq!(fold_case('@'), '@');
    assert_eq!(fold_case('['), '[');
    assert_eq!(fold_case('5'), '5');
    assert_eq!(fold_case('É'), 'É');
}

#[test]
fn bonus_is_four() {
    assert_eq!(ADJACENT_BONUS, 4);
}

#[test]
fn empty_filter_matches_with_score_zero() {
    assert_eq!(fuzzy_score("Rust", ""), Some(0));
    assert_eq!(fuzzy_score("", ""), Some(0));
}

#[test]
fn nothing_matches_an_empty_label_but_the_empty_filter() {
    assert_eq!(fuzzy_score("", "a"), None);
}

#[test]
fn prefix_scores_the_bonus_for_each_pair() {
    assert_eq!(fuzzy_score("Rust", "r"), Some(0));
    assert_eq!(fuzzy_score("Rust", "ru"), Some(4));
    assert_eq!(fuzzy_score("Rust", "rus"), Some(8));
    assert_eq!(fuzzy_score("Rust", "rust"), Some(12));
}

#[test]
fn passed_over_characters_cost_a_point_each() {
    assert_eq!(fuzzy_score("Rust", "rs"), Some(-1));
    assert_eq!(fuzzy_score("Rust", "rt"), Some(-2));
    assert_eq!(fuzzy_score("Rust", "t"), Some(-3));
    assert_eq!(fuzzy_score("Ruby on Rails", "rs"), Some(-11));
    assert_eq!(fuzzy_score("Rust", "st"), Some(4 - 2));
}

#[test]
fn the_leftmost_occurrence_is_scored() {
    // `a` is found at 0 and `b` first at 2, though `ab` stands together later.
    assert_eq!(fuzzy_score("axbab", "ab"), Some(-1));
}

#[test]
fn case_is_ignored_for_ascii_letters() {
    assert_eq!(fuzzy_score("RUST", "rust"), Some(12));
    assert_eq!(fuzzy_score("rust", "RUST"), Some(12));
    assert_eq!(fuzzy_score("École", "é"), None);
    assert_eq!(fuzzy_score("école", "é"), Some(0));
}

#[test]
fn order_of_the_filter_matters() {
    assert_eq!(fuzzy_score("Rust", "ur"), None);
    assert_eq!(fuzzy_score("Rust", "rr"), None);
    assert_eq!(fuzzy_score("Rust", "rustc"), None);
}

#[test]
fn score_chars_agrees_with_fuzzy_score() {
    let label: Vec<char> = "Ruby on Rails".chars().collect();
    let filter: Vec<char> = "rnr".chars().collect();
    assert_eq!(score_chars(&label, &filter), fuzzy_score("Ruby on Rails", "rnr"));
    assert_eq!(score_chars(&label, &filter), Some(-6));
}

#[test]
fn rank_keeps_exactly_the_matching_items() {
    let items = labels(&["Python", "R", "Rust", "Ruby", "Ruby on Rails"]);
    for filter in ["", "r", "ru", "rb", "y", "on", "x", "PY", "rails", "rust", "ruby on rails!"] {
        let found = rank(&items, filter);
        for m in &found {
            assert!(is_subsequence(filter, &items[m.index]));
            assert_eq!(Some(m.score), fuzzy_score(&items[m.index], filter));
        }
        for (i, item) in items.iter().enumerate() {
            assert_eq!(is_subsequence(filter, item), found.iter().any(|m| m.index == i));
        }
        for pair in found.windows(2) {
            assert!(
                pair[0].score > pair[1].score
                    || (pair[0].score == pair[1].score && pair[0].index < pair[1].index)
            );
        }
    }
}

#[test]
fn rank_under_the_empty_filter_is_the_list_itself() {
    let items = labels(&["Python", "R", "Rust"]);
    let found = rank(&items, "");
    assert_eq!(
        found,
        vec![
            Match { index: 0, score: 0 },
            Match { index: 1, score: 0 },
            Match { index: 2, score: 0 }
        ]
    );
}

#[test]
fn rank_breaks_ties_by_index() {
    let items = labels(&["Python", "R", "Rust", "Ruby", "Ruby on Rails"]);
    let found = rank(&items, "ru");
    assert_eq!(
        found,
        vec![
            Match { index: 2, score: 4 },
            Match { index: 3, score: 4 },
            Match { index: 4, score: 4 }
        ]
    );
}

#[test]
fn rank_puts_the_higher_score_first() {
    let items = labels(&["Python", "R", "Rust", "Ruby", "Ruby on Rails"]);
    let found = rank(&items, "y");
    assert_eq!(
        found,
        vec![
            Match { index: 0, score: -1 },
            Match { index: 3, score: -3 },
            Match { index: 4, score: -3 }
        ]
    );
    let found = rank(&labels(&["xxab", "ab", "axb"]), "ab");
    assert_eq!(indices(&found), vec![1, 0, 2]);
}

#[test]
fn rank_of_nothing_is_nothing() {
    assert!(rank(&Vec::new(), "a").is_empty());
    assert!(rank(&labels(&["abc"]), "z").is_empty());
}
