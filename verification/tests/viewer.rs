use grm::encode::putchar;
use grm::input::exit_requested;
use grm::input::run_session;
use grm::input::Action;
use grm::input::KeyInput;
use grm::render::RenderOp;
use grm::render::Style;
use grm::viewer::open_error_message;
use grm::viewer::State;

#[test]
fn two_line_buffer_frame() {
    let state = State::new(String::from("foobar\nfoo"), false, 5);
    assert_eq!(state.line_count, 1);
    assert_eq!(state.num_width, 1);
    let ops = state.display(24);
    let expected = vec![
        RenderOp::MoveTo(0, 23),
        RenderOp::Text(String::from("grm v0.1.0 | ? for help"), Style::BlackOnGreen),
        RenderOp::MoveTo(0, 0),
        RenderOp::Text(String::from(" 1 "), Style::DimGrey),
        RenderOp::Char('f'),
        RenderOp::Char('o'),
        RenderOp::Char('o'),
        RenderOp::Char('b'),
        RenderOp::Char('a'),
        RenderOp::Char('r'),
        RenderOp::MoveTo(0, 1),
        RenderOp::Text(String::from(" 2 "), Style::DimGrey),
        RenderOp::Char('f'),
        RenderOp::Char('o'),
        RenderOp::Char('o'),
    ];
    assert_eq!(ops, expected);
}

#[test]
fn nocolor_frame_is_unstyled() {
    let state = State::new(String::from("foobar\nfoo"), true, 5);
    assert!(!state.color);
    let ops = state.display(10);
    for op in ops.iter() {
        if let RenderOp::Text(_, style) = op {
            assert_eq!(*style, Style::Plain);
        }
    }
}

#[test]
fn color_frame_has_both_styles() {
    let state = State::new(String::from("x"), false, 10);
    let ops = state.display(10);
    assert_eq!(
        ops[1],
        RenderOp::Text(String::from("grm v0.1.0 | ? for help"), Style::BlackOnGreen)
    );
    assert_eq!(ops[3], RenderOp::Text(String::from(" 1 "), Style::DimGrey));
}

fn prefix_count(ops: &[RenderOp]) -> usize {
    // The status bar is the only Text operation outside the content.
    ops.iter()
        .filter(|op| matches!(op, RenderOp::Text(..)))
        .count()
        - 1
}

#[test]
fn one_prefix_per_line() {
    let no_trailing = State::new(String::from("foobar\nfoo"), false, 5).display(24);
    assert_eq!(prefix_count(&no_trailing), 2);
    let trailing = State::new(String::from("a\n"), false, 5).display(24);
    assert_eq!(prefix_count(&trailing), 2);
    let single = State::new(String::from("abc"), false, 5).display(24);
    assert_eq!(prefix_count(&single), 1);
}

#[test]
fn empty_buffer_renders_status_only() {
    let state = State::new(String::new(), false, 5);
    assert_eq!(state.line_count, 0);
    assert_eq!(state.num_width, 1);
    let ops = state.display(2);
    assert_eq!(
        ops,
        vec![
            RenderOp::MoveTo(0, 1),
            RenderOp::Text(String::from("grm v0.1.0 | ? for help"), Style::BlackOnGreen),
            RenderOp::MoveTo(0, 0),
        ]
    );
}

#[test]
fn number_width_follows_digit_count() {
    let five = State::new(String::from("a\nb\nc\nd\ne\n"), false, 5);
    assert_eq!(five.line_count, 5);
    assert_eq!(five.num_width, 1);
    let twelve = State::new("x\n".repeat(12), false, 5);
    assert_eq!(twelve.line_count, 12);
    assert_eq!(twelve.num_width, 2);
}

#[test]
fn wide_numbers_align_right() {
    let state = State::new("y\n".repeat(12), false, 5);
    let ops = state.display(50);
    assert_eq!(ops[3], RenderOp::Text(String::from("  1 "), Style::DimGrey));
    let last_text = ops
        .iter()
        .rev()
        .find_map(|op| match op {
            RenderOp::Text(s, _) => Some(s.clone()),
            _ => None,
        })
        .unwrap();
    assert_eq!(last_text, " 13 ");
}

#[test]
fn quit_keys_request_exit() {
    assert!(exit_requested(&Some(KeyInput::Char('q'))));
    assert!(exit_requested(&Some(KeyInput::Esc)));
    assert!(!exit_requested(&Some(KeyInput::Char('a'))));
    assert!(!exit_requested(&Some(KeyInput::Char('Q'))));
    assert!(!exit_requested(&Some(KeyInput::Other)));
}

#[test]
fn timeout_continues() {
    assert!(!exit_requested(&None));
}

#[test]
fn update_time_is_kept() {
    let state = State::new(String::from("a"), false, 7);
    assert_eq!(state.update_time_ms, 7);
    let default_like = State::new(String::from("a"), true, 5);
    assert_eq!(default_like.update_time_ms, 5);
}

#[test]
fn open_error_message_names_the_file() {
    let msg = open_error_message("/no/such/file");
    assert_eq!(msg, "Could not open file '/no/such/file'");
}

#[test]
fn session_ends_at_first_quit() {
    let events = vec![
        None,
        Some(KeyInput::Other),
        Some(KeyInput::Char('q')),
        Some(KeyInput::Char('q')),
    ];
    let (actions, exited) = run_session(&events);
    assert!(exited);
    assert_eq!(
        actions,
        vec![Action::Init, Action::Render, Action::Render, Action::Teardown]
    );
}

#[test]
fn session_teardown_exactly_once() {
    let events = vec![Some(KeyInput::Char('x')), None, Some(KeyInput::Esc), None];
    let (actions, exited) = run_session(&events);
    assert!(exited);
    assert_eq!(actions.first(), Some(&Action::Init));
    assert_eq!(actions.last(), Some(&Action::Teardown));
    let inits = actions.iter().filter(|a| **a == Action::Init).count();
    let teardowns = actions.iter().filter(|a| **a == Action::Teardown).count();
    assert_eq!(inits, 1);
    assert_eq!(teardowns, 1);
}

#[test]
fn session_without_quit_keeps_looping() {
    let events = vec![None, Some(KeyInput::Char('?')), Some(KeyInput::Other)];
    let (actions, exited) = run_session(&events);
    assert!(!exited);
    assert_eq!(
        actions,
        vec![Action::Init, Action::Render, Action::Render, Action::Render]
    );
}

#[test]
fn immediate_quit_renders_nothing() {
    let (actions, exited) = run_session(&vec![Some(KeyInput::Esc)]);
    assert!(exited);
    assert_eq!(actions, vec![Action::Init, Action::Teardown]);
}

#[test]
fn putchar_encodes_each_width() {
    assert_eq!(putchar('a'), vec![0x61]);
    assert_eq!(putchar('\u{e9}'), vec![0xC3, 0xA9]);
    assert_eq!(putchar('\u{20ac}'), vec![0xE2, 0x82, 0xAC]);
    assert_eq!(putchar('\u{10348}'), vec![0xF0, 0x90, 0x8D, 0x88]);
}

#[test]
fn multibyte_content_is_rendered_verbatim() {
    let state = State::new(String::from("\u{e9}\n\u{20ac}"), false, 5);
    assert_eq!(state.line_count, 1);
    let ops = state.display(24);
    assert_eq!(ops[4], RenderOp::Char('\u{e9}'));
    assert_eq!(ops[7], RenderOp::Char('\u{20ac}'));
}
