use promptkit::error::{PromptError, Status};
use promptkit::history::History;
use promptkit::key::Key;
use promptkit::prompt::confirm::Confirm;
use promptkit::prompt::fuzzy_select::FuzzySelect;
use promptkit::prompt::input::Input;
use promptkit::prompt::multi_select::MultiSelect;
use promptkit::prompt::password::{passwords_match, Password, MASK};
use promptkit::prompt::sort::Sort;

fn labels(items: &[&str]) -> Vec<String> {
    items.iter().map(|s| s.to_string()).collect()
}

fn type_into(prompt: &mut Input, history: &mut History, text: &str) {
    for c in text.chars() {
        prompt.step(Key::from_char(c), history);
    }
}

#[test]
fn confirm_y_ends_at_once_without_newline() {
    let mut prompt = Confirm::new("Proceed?", Some(true), false);
    assert_eq!(prompt.status(), Status::Active);
    assert_eq!(prompt.outcome(), None);
    prompt.step(Key::Char('y'));
    assert_eq!(prompt.status(), Status::Confirmed);
    assert_eq!(prompt.outcome(), Some(Ok(true)));
}

#[test]
fn confirm_n_ends_at_once_without_newline() {
    let mut prompt = Confirm::new("Proceed?", Some(true), false);
    prompt.step(Key::Char('N'));
    assert_eq!(prompt.outcome(), Some(Ok(false)));
}

#[test]
fn confirm_enter_gives_the_default() {
    let mut prompt = Confirm::new("Proceed?", Some(false), false);
    prompt.step(Key::Enter);
    assert_eq!(prompt.outcome(), Some(Ok(false)));
    let mut prompt = Confirm::new("Proceed?", Some(true), true);
    prompt.step(Key::Enter);
    assert_eq!(prompt.outcome(), Some(Ok(true)));
}

#[test]
fn confirm_enter_without_answer_or_default_waits() {
    for wait in [false, true] {
        let mut prompt = Confirm::new("Proceed?", None, wait);
        prompt.step(Key::Enter);
        assert_eq!(prompt.status(), Status::Active);
        assert_eq!(prompt.outcome(), None);
    }
}

#[test]
fn confirm_waits_for_newline_when_asked() {
    let mut prompt = Confirm::new("Proceed?", Some(true), true);
    prompt.step(Key::Char('n'));
    assert_eq!(prompt.status(), Status::Active);
    assert_eq!(prompt.answer(), Some(false));
    prompt.step(Key::Char('Y'));
    assert_eq!(prompt.answer(), Some(true));
    prompt.step(Key::Char('n'));
    prompt.step(Key::Enter);
    assert_eq!(prompt.outcome(), Some(Ok(false)));
}

#[test]
fn confirm_ignores_other_keys() {
    let mut prompt = Confirm::new("Proceed?", Some(true), false);
    for key in [Key::Char('x'), Key::Space, Key::Up, Key::Tab, Key::Backspace, Key::Unknown] {
        prompt.step(key);
        assert_eq!(prompt.status(), Status::Active);
        assert_eq!(prompt.answer(), None);
    }
}

#[test]
fn confirm_cancels_on_escape_and_interrupt() {
    for key in [Key::Escape, Key::Interrupt] {
        let mut prompt = Confirm::new("Proceed?", Some(true), true);
        prompt.step(Key::Char('y'));
        prompt.step(key);
        assert_eq!(prompt.status(), Status::Cancelled);
        assert_eq!(prompt.outcome(), Some(Err(PromptError::Interrupted)));
    }
}

#[test]
fn confirm_final_states_are_final() {
    let mut done = Confirm::new("Proceed?", None, false);
    done.step(Key::Char('y'));
    let mut gone = Confirm::new("Proceed?", None, false);
    gone.step(Key::Escape);
    for key in [Key::Char('n'), Key::Enter, Key::Escape, Key::Interrupt, Key::Char('y')] {
        done.step(key);
        gone.step(key);
        assert_eq!(done.outcome(), Some(Ok(true)));
        assert_eq!(gone.outcome(), Some(Err(PromptError::Interrupted)));
    }
}

#[test]
fn confirm_frame_shows_hint_and_answer() {
    let mut prompt = Confirm::new("Proceed?", Some(true), true);
    assert_eq!(prompt.frame(), vec!["Proceed? [Y/n] "]);
    prompt.step(Key::Char('n'));
    assert_eq!(prompt.frame(), vec!["Proceed? [Y/n] no"]);
    prompt.step(Key::Char('y'));
    assert_eq!(prompt.frame(), vec!["Proceed? [Y/n] yes"]);
    assert_eq!(Confirm::new("Go", Some(false), false).frame(), vec!["Go [y/N] "]);
    assert_eq!(Confirm::new("Go", None, false).frame(), vec!["Go [y/n] "]);
}

#[test]
fn input_collects_typed_text() {
    let mut history = History::new(true);
    let mut prompt = Input::new("Name", "", false);
    type_into(&mut prompt, &mut history, "Ada L");
    assert_eq!(prompt.text(), "Ada L");
    assert_eq!(prompt.cursor(), 5);
    assert_eq!(prompt.frame(), vec!["Name: Ada L"]);
    prompt.step(Key::Enter, &mut history);
    assert_eq!(prompt.status(), Status::Confirmed);
    assert_eq!(prompt.outcome(), Some(Ok("Ada L".to_string())));
    assert_eq!(history.entries(), vec!["Ada L"]);
}

#[test]
fn input_edits_at_the_cursor() {
    let mut history = History::new(true);
    let mut prompt = Input::new("Name", "abcd", true);
    assert_eq!(prompt.cursor(), 4);
    prompt.step(Key::Left, &mut history);
    prompt.step(Key::Backspace, &mut history);
    assert_eq!(prompt.text(), "abd");
    prompt.step(Key::Home, &mut history);
    prompt.step(Key::Delete, &mut history);
    assert_eq!(prompt.text(), "bd");
    prompt.step(Key::Right, &mut history);
    prompt.step(Key::Char('c'), &mut history);
    assert_eq!(prompt.text(), "bcd");
    prompt.step(Key::End, &mut history);
    prompt.step(Key::Space, &mut history);
    prompt.step(Key::Char('!'), &mut history);
    assert_eq!(prompt.text(), "bcd !");
    assert_eq!(prompt.cursor(), 5);
}

#[test]
fn input_refuses_an_empty_line_unless_allowed() {
    let mut history = History::new(true);
    let mut strict = Input::new("Name", "", false);
    strict.step(Key::Enter, &mut history);
    assert_eq!(strict.status(), Status::Active);
    let mut lax = Input::new("Name", "", true);
    lax.step(Key::Enter, &mut history);
    assert_eq!(lax.outcome(), Some(Ok(String::new())));
    assert_eq!(history.len(), 0);
}

#[test]
fn input_recalls_history_with_up_and_down() {
    let mut history = History::new(true);
    history.push("first");
    history.push("second");
    let mut prompt = Input::new("Cmd", "", false);
    type_into(&mut prompt, &mut history, "dra");
    prompt.step(Key::Down, &mut history);
    assert_eq!(prompt.text(), "dra");
    prompt.step(Key::Up, &mut history);
    assert_eq!(prompt.text(), "second");
    assert_eq!(prompt.cursor(), 6);
    prompt.step(Key::Up, &mut history);
    assert_eq!(prompt.text(), "first");
    prompt.step(Key::Up, &mut history);
    assert_eq!(prompt.text(), "first");
    prompt.step(Key::Down, &mut history);
    assert_eq!(prompt.text(), "second");
    prompt.step(Key::Down, &mut history);
    assert_eq!(prompt.text(), "");
    assert_eq!(history.cursor(), None);
}

#[test]
fn input_typing_ends_recall() {
    let mut history = History::new(true);
    history.push("first");
    history.push("second");
    let mut prompt = Input::new("Cmd", "", false);
    prompt.step(Key::Up, &mut history);
    prompt.step(Key::Up, &mut history);
    assert_eq!(history.cursor(), Some(1));
    prompt.step(Key::Char('!'), &mut history);
    assert_eq!(prompt.text(), "first!");
    assert_eq!(history.cursor(), None);
    prompt.step(Key::Up, &mut history);
    assert_eq!(prompt.text(), "second");
    prompt.step(Key::Left, &mut history);
    assert_eq!(history.cursor(), Some(0));
}

#[test]
fn input_confirm_pushes_and_dedups() {
    let mut history = History::new(true);
    for line in ["ls", "pwd", "ls"] {
        let mut prompt = Input::new("Cmd", "", false);
        type_into(&mut prompt, &mut history, line);
        prompt.step(Key::Enter, &mut history);
    }
    assert_eq!(history.entries(), vec!["ls", "pwd"]);
    assert_eq!(history.cursor(), None);
}

#[test]
fn input_cancel_gives_interrupted_and_stores_nothing() {
    let mut history = History::new(true);
    history.push("kept");
    let mut prompt = Input::new("Cmd", "", false);
    prompt.step(Key::Up, &mut history);
    type_into(&mut prompt, &mut history, "x");
    prompt.step(Key::Interrupt, &mut history);
    assert_eq!(prompt.outcome(), Some(Err(PromptError::Interrupted)));
    assert_eq!(history.entries(), vec!["kept"]);
    assert_eq!(history.cursor(), None);
    prompt.step(Key::Char('y'), &mut history);
    prompt.step(Key::Enter, &mut history);
    assert_eq!(prompt.outcome(), Some(Err(PromptError::Interrupted)));
    assert_eq!(history.entries(), vec!["kept"]);
}

#[test]
fn password_is_masked() {
    let mut prompt = Password::new("Password", false);
    assert_eq!(prompt.frame(), vec!["Password: "]);
    for c in "s3cret".chars() {
        prompt.step(Key::Char(c));
    }
    assert_eq!(MASK, '*');
    assert_eq!(prompt.frame(), vec!["Password: ******"]);
    prompt.step(Key::Backspace);
    assert_eq!(prompt.frame(), vec!["Password: *****"]);
    assert_eq!(prompt.outcome(), None);
    prompt.step(Key::Enter);
    assert_eq!(prompt.status(), Status::Confirmed);
    assert_eq!(prompt.outcome(), Some(Ok("s3cre".to_string())));
}

#[test]
fn password_takes_spaces_and_ignores_moves() {
    let mut prompt = Password::new("Password", false);
    prompt.step(Key::Char('a'));
    prompt.step(Key::Left);
    prompt.step(Key::Home);
    prompt.step(Key::Space);
    prompt.step(Key::Delete);
    prompt.step(Key::Char('b'));
    prompt.step(Key::Enter);
    assert_eq!(prompt.outcome(), Some(Ok("a b".to_string())));
}

#[test]
fn password_refuses_an_empty_secret_unless_allowed() {
    let mut strict = Password::new("Password", false);
    strict.step(Key::Enter);
    assert_eq!(strict.status(), Status::Active);
    let mut lax = Password::new("Password", true);
    lax.step(Key::Enter);
    assert_eq!(lax.outcome(), Some(Ok(String::new())));
}

#[test]
fn password_cancel_gives_interrupted() {
    let mut prompt = Password::new("Password", false);
    prompt.step(Key::Char('a'));
    prompt.step(Key::Escape);
    assert_eq!(prompt.outcome(), Some(Err(PromptError::Interrupted)));
    prompt.step(Key::Enter);
    assert_eq!(prompt.status(), Status::Cancelled);
}

#[test]
fn password_confirmation_compares_exactly() {
    assert!(passwords_match("abc", "abc"));
    assert!(!passwords_match("abc", "abd"));
    assert!(!passwords_match("abc", "ABC"));
    assert!(!passwords_match("abc", "abc "));
    assert!(!passwords_match("abc", "ab"));
    assert!(!passwords_match("é", "e\u{301}"));
    assert!(passwords_match("", ""));
}

#[test]
fn password_confirmation_of_two_captures() {
    let mut secrets = Vec::new();
    for typed in ["abc", "abd", "abc"] {
        let mut prompt = Password::new("Password", false);
        for c in typed.chars() {
            prompt.step(Key::from_char(c));
        }
        prompt.step(Key::Enter);
        secrets.push(prompt.outcome().unwrap().unwrap());
    }
    assert!(!passwords_match(&secrets[0], &secrets[1]));
    assert!(passwords_match(&secrets[0], &secrets[2]));
}

#[test]
fn fuzzy_select_needs_an_item() {
    assert!(matches!(FuzzySelect::new("Pick", Vec::new()), Err(PromptError::InvalidConfiguration)));
}

#[test]
fn fuzzy_select_narrows_and_picks() {
    let items = labels(&["Python", "R", "Rust", "Ruby", "Ruby on Rails"]);
    let mut prompt = FuzzySelect::new("What do you use?", items).unwrap();
    prompt.step(Key::Char('r'));
    prompt.step(Key::Char('u'));
    assert_eq!(prompt.list().filter(), "ru");
    assert_eq!(
        prompt.frame(),
        vec!["What do you use?: ru", "> Rust", "  Ruby", "  Ruby on Rails"]
    );
    prompt.step(Key::Down);
    assert_eq!(
        prompt.frame(),
        vec!["What do you use?: ru", "  Rust", "> Ruby", "  Ruby on Rails"]
    );
    prompt.step(Key::Enter);
    assert_eq!(prompt.status(), Status::Confirmed);
    assert_eq!(prompt.outcome(), Some(Ok(3)));
}

#[test]
fn fuzzy_select_backspace_widens_again() {
    let items = labels(&["Python", "R", "Rust"]);
    let mut prompt = FuzzySelect::new("Pick", items).unwrap();
    prompt.step(Key::Char('p'));
    prompt.step(Key::Char('y'));
    assert_eq!(prompt.list().matches().len(), 1);
    prompt.step(Key::Backspace);
    prompt.step(Key::Backspace);
    assert_eq!(prompt.list().filter(), "");
    assert_eq!(prompt.list().matches().len(), 3);
    prompt.step(Key::Backspace);
    assert_eq!(prompt.list().filter(), "");
    assert_eq!(prompt.list().selected(), Some(0));
}

#[test]
fn fuzzy_select_enter_without_match_waits() {
    let mut prompt = FuzzySelect::new("Pick", labels(&["Python", "R"])).unwrap();
    prompt.step(Key::Char('z'));
    prompt.step(Key::Enter);
    assert_eq!(prompt.status(), Status::Active);
    assert_eq!(prompt.outcome(), None);
    assert_eq!(prompt.frame(), vec!["Pick: z"]);
    prompt.step(Key::Escape);
    assert_eq!(prompt.outcome(), Some(Err(PromptError::Interrupted)));
    prompt.step(Key::Backspace);
    assert_eq!(prompt.list().filter(), "z");
}

#[test]
fn fuzzy_select_space_is_part_of_the_filter() {
    let mut prompt = FuzzySelect::new("Pick", labels(&["Ruby", "Ruby on Rails"])).unwrap();
    prompt.step(Key::Char('y'));
    prompt.step(Key::Space);
    assert_eq!(prompt.list().filter(), "y ");
    prompt.step(Key::Enter);
    assert_eq!(prompt.outcome(), Some(Ok(1)));
}

#[test]
fn multi_select_needs_items_and_a_default_for_each() {
    assert!(matches!(
        MultiSelect::new("Pick", Vec::new(), Vec::new()),
        Err(PromptError::InvalidConfiguration)
    ));
    assert!(matches!(
        MultiSelect::new("Pick", labels(&["A", "B"]), vec![true]),
        Err(PromptError::InvalidConfiguration)
    ));
    assert!(matches!(
        MultiSelect::new("Pick", labels(&["A"]), vec![true, false]),
        Err(PromptError::InvalidConfiguration)
    ));
}

#[test]
fn multi_select_prechecked_and_toggled() {
    let mut prompt =
        MultiSelect::new("Pick", labels(&["A", "B", "C"]), vec![true, false, false]).unwrap();
    prompt.step(Key::Down);
    prompt.step(Key::Down);
    prompt.step(Key::Space);
    prompt.step(Key::Enter);
    assert_eq!(prompt.status(), Status::Confirmed);
    assert_eq!(prompt.outcome(), Some(Ok(vec![0, 2])));
}

#[test]
fn multi_select_result_is_in_rising_order() {
    let mut prompt =
        MultiSelect::new("Pick", labels(&["A", "B", "C"]), vec![false, false, false]).unwrap();
    prompt.step(Key::Up);
    prompt.step(Key::Char(' '));
    prompt.step(Key::Up);
    prompt.step(Key::Up);
    prompt.step(Key::Space);
    prompt.step(Key::Enter);
    assert_eq!(prompt.outcome(), Some(Ok(vec![0, 2])));
}

#[test]
fn multi_select_frame_shows_boxes_and_highlight() {
    let mut prompt =
        MultiSelect::new("Install", labels(&["Basic", "Git"]), vec![true, false]).unwrap();
    assert_eq!(prompt.frame(), vec!["Install:", "> [x] Basic", "  [ ] Git"]);
    prompt.step(Key::Down);
    prompt.step(Key::Space);
    assert_eq!(prompt.frame(), vec!["Install:", "  [x] Basic", "> [x] Git"]);
    assert_eq!(prompt.list().cursor(), 1);
}

#[test]
fn multi_select_may_confirm_nothing() {
    let mut prompt = MultiSelect::new("Pick", labels(&["A"]), vec![false]).unwrap();
    prompt.step(Key::Enter);
    assert_eq!(prompt.outcome(), Some(Ok(Vec::new())));
}

#[test]
fn multi_select_cancel_gives_interrupted() {
    let mut prompt = MultiSelect::new("Pick", labels(&["A"]), vec![true]).unwrap();
    prompt.step(Key::Interrupt);
    assert_eq!(prompt.outcome(), Some(Err(PromptError::Interrupted)));
    prompt.step(Key::Space);
    prompt.step(Key::Enter);
    assert_eq!(prompt.outcome(), Some(Err(PromptError::Interrupted)));
    assert!(prompt.list().is_checked(0));
}

#[test]
fn sort_needs_an_item() {
    assert!(matches!(Sort::new("Order", Vec::new()), Err(PromptError::InvalidConfiguration)));
}

#[test]
fn sort_moves_a_held_item() {
    let items = labels(&["SSD-1", "HDD-1", "HDD-2", "USB", "DVD"]);
    let mut prompt = Sort::new("Boot order", items).unwrap();
    prompt.step(Key::Down);
    prompt.step(Key::Down);
    prompt.step(Key::Down);
    prompt.step(Key::Space);
    prompt.step(Key::Up);
    prompt.step(Key::Up);
    prompt.step(Key::Up);
    assert_eq!(
        prompt.frame(),
        vec!["Boot order:", "> [x] USB", "  [ ] SSD-1", "  [ ] HDD-1", "  [ ] HDD-2", "  [ ] DVD"]
    );
    prompt.step(Key::Space);
    prompt.step(Key::Down);
    prompt.step(Key::Enter);
    assert_eq!(prompt.outcome(), Some(Ok(vec![3, 0, 1, 2, 4])));
}

#[test]
fn sort_enter_lets_go_of_a_held_item() {
    let mut prompt = Sort::new("Order", labels(&["a", "b"])).unwrap();
    prompt.step(Key::Space);
    prompt.step(Key::Down);
    assert!(prompt.list().is_held());
    prompt.step(Key::Enter);
    assert!(!prompt.list().is_held());
    assert_eq!(prompt.outcome(), Some(Ok(vec![1, 0])));
    prompt.step(Key::Up);
    assert_eq!(prompt.outcome(), Some(Ok(vec![1, 0])));
}

#[test]
fn sort_untouched_gives_the_given_order() {
    let mut prompt = Sort::new("Order", labels(&["a", "b", "c"])).unwrap();
    assert_eq!(prompt.outcome(), None);
    prompt.step(Key::Enter);
    assert_eq!(prompt.outcome(), Some(Ok(vec![0, 1, 2])));
}

#[test]
fn sort_cancel_gives_interrupted() {
    let mut prompt = Sort::new("Order", labels(&["a", "b"])).unwrap();
    prompt.step(Key::Escape);
    assert_eq!(prompt.status(), Status::Cancelled);
    assert_eq!(prompt.outcome(), Some(Err(PromptError::Interrupted)));
}

#[test]
fn input_knows_what_stands_left_of_the_cursor() {
    let mut history = History::new(true);
    let mut prompt = Input::new("Name", "Ada", true);
    assert_eq!(prompt.before_caret(), "Name: Ada");
    prompt.step(Key::Left, &mut history);
    assert_eq!(prompt.before_caret(), "Name: Ad");
    prompt.step(Key::Home, &mut history);
    assert_eq!(prompt.before_caret(), "Name: ");
    prompt.step(Key::Char('é'), &mut history);
    assert_eq!(prompt.before_caret(), "Name: é");
    assert_eq!(prompt.frame(), vec!["Name: éAda"]);
}
