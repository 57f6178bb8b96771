use promptkit::render::{diff, RenderOp, Renderer};

fn frame(lines: &[&str]) -> Vec<String> {
    lines.iter().map(|s| s.to_string()).collect()
}

fn write(text: &str) -> RenderOp {
    RenderOp::Write(text.to_string())
}

/// Runs the operations on a screen that shows `prev`.
fn replay(prev: &[String], height: usize, ops: &[RenderOp]) -> Vec<String> {
    let mut rows: Vec<String> = prev.to_vec();
    rows.resize(height, String::new());
    let mut at = 0;
    for op in ops {
        match op {
            RenderOp::MoveTo(row) => at = *row,
            RenderOp::ClearLine => rows[at].clear(),
            RenderOp::Write(text) => rows[at].push_str(text),
        }
    }
    rows
}

#[test]
fn equal_frames_need_no_output() {
    let shown = frame(&["Pick:", "> a", "  b"]);
    assert!(diff(&shown, &shown.clone()).is_empty());
    assert!(diff(&Vec::new(), &Vec::new()).is_empty());
}

#[test]
fn only_changed_rows_are_repainted() {
    let prev = frame(&["Pick:", "> a", "  b", "  c"]);
    let next = frame(&["Pick:", "  a", "> b", "  c"]);
    assert_eq!(
        diff(&prev, &next),
        vec![
            RenderOp::MoveTo(1),
            RenderOp::ClearLine,
            write("  a"),
            RenderOp::MoveTo(2),
            RenderOp::ClearLine,
            write("> b"),
        ]
    );
}

#[test]
fn a_longer_frame_adds_rows() {
    let prev = frame(&["Pick: "]);
    let next = frame(&["Pick: ", "> a"]);
    assert_eq!(diff(&prev, &next), vec![RenderOp::MoveTo(1), RenderOp::ClearLine, write("> a")]);
}

#[test]
fn a_shorter_frame_clears_rows() {
    let prev = frame(&["Pick: r", "> Rust", "  Ruby"]);
    let next = frame(&["Pick: rx"]);
    assert_eq!(
        diff(&prev, &next),
        vec![
            RenderOp::MoveTo(0),
            RenderOp::ClearLine,
            write("Pick: rx"),
            RenderOp::MoveTo(1),
            RenderOp::ClearLine,
            RenderOp::MoveTo(2),
            RenderOp::ClearLine,
        ]
    );
}

#[test]
fn an_empty_line_equals_a_missing_one() {
    let prev = frame(&["a", ""]);
    let next = frame(&["a"]);
    assert!(diff(&prev, &next).is_empty());
    assert!(diff(&next, &prev).is_empty());
}

#[test]
fn replaying_the_difference_shows_the_next_frame() {
    let frames = [
        frame(&[]),
        frame(&["Pick: "]),
        frame(&["Pick: r", "> R", "  Rust", "  Ruby"]),
        frame(&["Pick: ru", "> Rust", "  Ruby"]),
        frame(&["Pick: ru", "  Rust", "> Ruby"]),
        frame(&["", "x"]),
        frame(&["Pick: ruz"]),
    ];
    for prev in &frames {
        for next in &frames {
            let ops = diff(prev, next);
            let height = prev.len().max(next.len()) + 1;
            let mut wanted = next.clone();
            wanted.resize(height, String::new());
            assert_eq!(replay(prev, height, &ops), wanted);
            let differing = (0..height)
                .filter(|&i| prev.get(i).map_or("", |s| s.as_str()) != next.get(i).map_or("", |s| s.as_str()))
                .count();
            let moves = ops.iter().filter(|op| matches!(op, RenderOp::MoveTo(_))).count();
            assert_eq!(moves, differing);
        }
    }
}

#[test]
fn renderer_remembers_the_last_frame() {
    let mut renderer = Renderer::new();
    assert!(renderer.last_frame().is_empty());
    let first = renderer.render(frame(&["Name: "]));
    assert_eq!(first, vec![RenderOp::MoveTo(0), RenderOp::ClearLine, write("Name: ")]);
    assert_eq!(renderer.last_frame(), &frame(&["Name: "]));
    assert!(renderer.render(frame(&["Name: "])).is_empty());
    let second = renderer.render(frame(&["Name: A"]));
    assert_eq!(second, vec![RenderOp::MoveTo(0), RenderOp::ClearLine, write("Name: A")]);
}

#[test]
fn renderer_clear_wipes_what_was_drawn() {
    let mut renderer = Renderer::new();
    renderer.render(frame(&["Pick:", "> a"]));
    assert_eq!(
        renderer.clear(),
        vec![RenderOp::MoveTo(0), RenderOp::ClearLine, RenderOp::MoveTo(1), RenderOp::ClearLine]
    );
    assert!(renderer.last_frame().is_empty());
    assert!(renderer.clear().is_empty());
}
