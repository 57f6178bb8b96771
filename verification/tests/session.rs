use promptkit::error::PromptError;
use promptkit::history::History;
use promptkit::key::Key;
use promptkit::prompt::confirm::Confirm;
use promptkit::prompt::fuzzy_select::FuzzySelect;
use promptkit::prompt::input::Input;
use promptkit::prompt::multi_select::MultiSelect;
use promptkit::prompt::password::Password;
use promptkit::prompt::session::{Prompt, Recall, Session};
use promptkit::prompt::sort::Sort;
use promptkit::render::RenderOp;

fn labels(items: &[&str]) -> Vec<String> {
    items.iter().map(|s| s.to_string()).collect()
}

fn repaint(row: usize, text: &str) -> Vec<RenderOp> {
    vec![RenderOp::MoveTo(row), RenderOp::ClearLine, RenderOp::Write(text.to_string())]
}

/// Runs a prompt over the keys and gives what it gave at its end, if it ended.
fn play<P: Prompt>(prompt: P, keys: &[Key]) -> Option<Result<P::Output, PromptError>> {
    let mut session = Session::new(prompt);
    session.draw();
    for key in keys {
        let turn = session.turn(*key);
        if turn.done.is_some() {
            return turn.done;
        }
    }
    None
}

#[test]
fn session_draws_the_prompt_first() {
    let mut session = Session::new(Confirm::new("Go?", Some(true), true));
    assert_eq!(session.draw(), repaint(0, "Go? [Y/n] "));
    assert!(session.draw().is_empty());
}

#[test]
fn a_turn_redraws_what_changed() {
    let prompt = MultiSelect::new("Pick", labels(&["A", "B"]), vec![false, false]).unwrap();
    let mut session = Session::new(prompt);
    session.draw();
    let turn = session.turn(Key::Down);
    assert_eq!(turn.done, None);
    let mut both = repaint(1, "  [ ] A");
    both.extend(repaint(2, "> [ ] B"));
    assert_eq!(turn.ops, both);
    let turn = session.turn(Key::Space);
    assert_eq!(turn.ops, repaint(2, "> [x] B"));
    let turn = session.turn(Key::Tab);
    assert!(turn.ops.is_empty());
    assert_eq!(turn.done, None);
    let turn = session.turn(Key::Enter);
    assert!(turn.ops.is_empty());
    assert_eq!(turn.done, Some(Ok(vec![1])));
    assert_eq!(session.current().list().cursor(), 1);
    assert_eq!(session.into_prompt().outcome(), Some(Ok(vec![1])));
}

#[test]
fn a_turn_without_a_first_draw_draws_everything() {
    let mut session = Session::new(Password::new("Password", false));
    let turn = session.turn(Key::Char('x'));
    assert_eq!(turn.ops, repaint(0, "Password: *"));
    assert_eq!(turn.done, None);
}

#[test]
fn an_ended_session_stays_ended() {
    let mut session = Session::new(Confirm::new("Go?", None, false));
    assert_eq!(session.turn(Key::Char('n')).done, Some(Ok(false)));
    for key in [Key::Char('y'), Key::Enter, Key::Escape] {
        let turn = session.turn(key);
        assert!(turn.ops.is_empty());
        assert_eq!(turn.done, Some(Ok(false)));
    }
}

#[test]
fn every_prompt_is_cancelled_by_escape_and_interrupt() {
    for key in [Key::Escape, Key::Interrupt] {
        let interrupted = Some(Err(PromptError::Interrupted));
        assert_eq!(play(Confirm::new("?", Some(true), true), &[key]), interrupted);
        assert_eq!(play(Password::new("?", true), &[key]), Some(Err(PromptError::Interrupted)));
        assert_eq!(
            play(FuzzySelect::new("?", labels(&["a"])).unwrap(), &[key]),
            Some(Err(PromptError::Interrupted))
        );
        assert_eq!(
            play(MultiSelect::new("?", labels(&["a"]), vec![true]).unwrap(), &[key]),
            Some(Err(PromptError::Interrupted))
        );
        assert_eq!(
            play(Sort::new("?", labels(&["a"])).unwrap(), &[key]),
            Some(Err(PromptError::Interrupted))
        );
        assert_eq!(
            play(Recall::new(Input::new("?", "", true), History::new(true)), &[key]),
            Some(Err(PromptError::Interrupted))
        );
    }
}

#[test]
fn every_prompt_gives_its_value_on_enter() {
    assert_eq!(play(Confirm::new("?", Some(true), true), &[Key::Enter]), Some(Ok(true)));
    assert_eq!(
        play(Password::new("?", false), &[Key::Char('p'), Key::Enter]),
        Some(Ok("p".to_string()))
    );
    assert_eq!(
        play(FuzzySelect::new("?", labels(&["a", "b"])).unwrap(), &[Key::Char('b'), Key::Enter]),
        Some(Ok(1))
    );
    assert_eq!(
        play(Sort::new("?", labels(&["a", "b"])).unwrap(), &[Key::Space, Key::Up, Key::Enter]),
        Some(Ok(vec![1, 0]))
    );
    assert_eq!(play(Confirm::new("?", None, true), &[Key::Enter, Key::Tab]), None);
}

#[test]
fn recall_lends_the_history_and_gives_it_back() {
    let mut history = History::new(true);
    history.push("ls");
    let mut session = Session::new(Recall::new(Input::new("Cmd", "", false), history));
    assert_eq!(session.draw(), repaint(0, "Cmd: "));
    assert_eq!(session.turn(Key::Up).ops, repaint(0, "Cmd: ls"));
    assert_eq!(session.current().before_caret(), "Cmd: ls");
    session.turn(Key::Left);
    assert_eq!(session.current().before_caret(), "Cmd: l");
    session.turn(Key::Char('a'));
    let turn = session.turn(Key::Enter);
    assert_eq!(turn.done, Some(Ok("las".to_string())));
    let (prompt, history) = session.into_prompt().into_parts();
    assert_eq!(prompt.text(), "las");
    assert_eq!(history.entries(), vec!["las", "ls"]);
    assert_eq!(history.cursor(), None);
}
