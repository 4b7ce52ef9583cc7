use termmenu::events::{menu_step, resolve_key, Key, MenuAction, MenuEvent, MenuState, RunResult};

#[test]
fn digit_key_selects_its_entry() {
    assert_eq!(resolve_key(Key::Char('3'), 6), Some(RunResult::Selected(3)));
    assert_eq!(resolve_key(Key::Char('1'), 6), Some(RunResult::Selected(1)));
    assert_eq!(resolve_key(Key::Char('6'), 6), Some(RunResult::Selected(6)));
}

#[test]
fn quit_key_quits() {
    assert_eq!(resolve_key(Key::Char('q'), 6), Some(RunResult::Quit));
}

#[test]
fn escape_cancels() {
    assert_eq!(resolve_key(Key::Esc, 6), Some(RunResult::Cancelled));
}

#[test]
fn out_of_range_digit_resolves_to_nothing() {
    assert_eq!(resolve_key(Key::Char('9'), 6), None);
    assert_eq!(resolve_key(Key::Char('7'), 6), None);
    assert_eq!(resolve_key(Key::Char('0'), 6), None);
}

#[test]
fn digit_boundaries() {
    assert_eq!(resolve_key(Key::Char('9'), 9), Some(RunResult::Selected(9)));
    assert_eq!(resolve_key(Key::Char('1'), 0), None);
}

#[test]
fn unrecognized_keys_resolve_to_nothing() {
    assert_eq!(resolve_key(Key::Char('x'), 6), None);
    assert_eq!(resolve_key(Key::Other, 6), None);
}

#[test]
fn entering_the_loop_draws_the_first_frame() {
    let (state, action) = menu_step(MenuState::Idle, MenuEvent::Entered, 6);
    assert_eq!(state, MenuState::AwaitingInput);
    assert_eq!(action, MenuAction::Redraw);
}

#[test]
fn timeout_redraws_and_keeps_polling() {
    let (state, action) = menu_step(MenuState::AwaitingInput, MenuEvent::TimedOut, 6);
    assert_eq!(state, MenuState::AwaitingInput);
    assert_eq!(action, MenuAction::Redraw);
}

#[test]
fn digit_key_resolves_the_menu() {
    let (state, action) = menu_step(
        MenuState::AwaitingInput,
        MenuEvent::KeyPressed(Key::Char('3')),
        6,
    );
    assert_eq!(state, MenuState::Resolved(RunResult::Selected(3)));
    assert_eq!(action, MenuAction::Stop);
}

#[test]
fn out_of_range_digit_keeps_awaiting_input() {
    let (state, action) = menu_step(
        MenuState::AwaitingInput,
        MenuEvent::KeyPressed(Key::Char('9')),
        6,
    );
    assert_eq!(state, MenuState::AwaitingInput);
    assert_eq!(action, MenuAction::Redraw);
}

#[test]
fn quit_and_escape_stop_the_loop() {
    let (state, action) = menu_step(
        MenuState::AwaitingInput,
        MenuEvent::KeyPressed(Key::Char('q')),
        6,
    );
    assert_eq!(state, MenuState::Resolved(RunResult::Quit));
    assert_eq!(action, MenuAction::Stop);

    let (state, action) = menu_step(MenuState::AwaitingInput, MenuEvent::KeyPressed(Key::Esc), 6);
    assert_eq!(state, MenuState::Resolved(RunResult::Cancelled));
    assert_eq!(action, MenuAction::Stop);
}

#[test]
fn resolution_is_final() {
    let resolved = MenuState::Resolved(RunResult::Quit);
    let (state, action) = menu_step(resolved, MenuEvent::KeyPressed(Key::Char('2')), 6);
    assert_eq!(state, resolved);
    assert_eq!(action, MenuAction::Stop);
    let (state, action) = menu_step(resolved, MenuEvent::TimedOut, 6);
    assert_eq!(state, resolved);
    assert_eq!(action, MenuAction::Stop);
}
