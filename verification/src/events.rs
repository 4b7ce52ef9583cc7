//! The input loop's decisions, as a pure state machine.
//!
//! The loop itself — raw mode, the alternate screen, the timed poll — lives
//! outside this crate; it feeds every observation (loop entry, a poll
//! timeout, a key press) into `menu_step` and performs the action handed
//! back. All the decisions are here, verified: which key resolves to which
//! result, and that a resolution, once reached, is final.

use vstd::prelude::*;

verus! {

/// A key press, reduced to what the menu distinguishes.
#[derive(Clone, Copy, PartialEq, Eq, Structural, Debug)]
pub enum Key {
    /// A printable character.
    Char(char),
    /// The escape key.
    Esc,
    /// Any other key.
    Other,
}

/// The outcome of one run of the menu loop.
#[derive(Clone, Copy, PartialEq, Eq, Structural, Debug)]
pub enum RunResult {
    /// A one-based entry index, between 1 and the number of entries.
    Selected(usize),
    /// The quit key.
    Quit,
    /// The escape key.
    Cancelled,
}

/// Where the loop stands.
#[derive(Clone, Copy, PartialEq, Eq, Structural, Debug)]
pub enum MenuState {
    /// Before the first frame.
    Idle,
    /// A frame is on screen; the loop is polling for input.
    AwaitingInput,
    /// A key resolved the menu; the loop is over.
    Resolved(RunResult),
}

/// What the loop observed since the last step.
#[derive(Clone, Copy, PartialEq, Eq, Structural, Debug)]
pub enum MenuEvent {
    /// The loop was entered.
    Entered,
    /// The poll timed out with no input.
    TimedOut,
    /// A key was read.
    KeyPressed(Key),
}

/// What the loop must do next.
#[derive(Clone, Copy, PartialEq, Eq, Structural, Debug)]
pub enum MenuAction {
    /// Draw the current frame, then poll.
    Redraw,
    /// Poll again without drawing.
    Wait,
    /// Leave the loop and restore the terminal.
    Stop,
}

/// What a key press resolves to when `n` entries are on screen: the digits
/// `'1'` through `'9'` select their entry while it exists, `'q'` quits, the
/// escape key cancels, and every other key resolves to nothing.
pub open spec fn key_resolution(key: Key, n: int) -> Option<RunResult> {
    match key {
        Key::Esc => Some(RunResult::Cancelled),
        Key::Char(c) => if c == 'q' {
            Some(RunResult::Quit)
        } else if 49 <= c as u32 <= 57 && c as u32 - 48 <= n {
            Some(RunResult::Selected((c as u32 - 48) as usize))
        } else {
            None
        },
        Key::Other => None,
    }
}

/// Resolve one key press against a menu of `n_entries` entries.
pub fn resolve_key(key: Key, n_entries: usize) -> (r: Option<RunResult>)
    ensures
        r == key_resolution(key, n_entries as int),
{
    match key {
        Key::Esc => Some(RunResult::Cancelled),
        Key::Char(c) => {
            if c == 'q' {
                Some(RunResult::Quit)
            } else {
                let v = c as u32;
                if 49 <= v && v <= 57 && (v - 48) as usize <= n_entries {
                    Some(RunResult::Selected((v - 48) as usize))
                } else {
                    None
                }
            }
        },
        Key::Other => None,
    }
}

/// Law: a selection is always in range — whatever key resolves to
/// `Selected(i)` has `1 <= i <= n` (and `i <= 9`, a single digit).
pub proof fn lemma_selection_in_range(key: Key, n: int)
    ensures
        forall|i: usize|
            key_resolution(key, n) == Some(RunResult::Selected(i)) ==> 1 <= i <= n && i <= 9,
{
}

/// One step of the loop's state machine: entering the loop draws the first
/// frame, a timeout redraws, a key press either resolves the menu or leaves
/// it polling, and a resolved menu stays resolved and keeps asking the loop
/// to stop.
pub open spec fn spec_menu_step(state: MenuState, event: MenuEvent, n: int) -> (MenuState,
    MenuAction) {
    match state {
        MenuState::Idle => match event {
            MenuEvent::Entered => (MenuState::AwaitingInput, MenuAction::Redraw),
            _ => (MenuState::Idle, MenuAction::Wait),
        },
        MenuState::AwaitingInput => match event {
            MenuEvent::Entered => (MenuState::AwaitingInput, MenuAction::Redraw),
            MenuEvent::TimedOut => (MenuState::AwaitingInput, MenuAction::Redraw),
            MenuEvent::KeyPressed(k) => match key_resolution(k, n) {
                Some(r) => (MenuState::Resolved(r), MenuAction::Stop),
                None => (MenuState::AwaitingInput, MenuAction::Redraw),
            },
        },
        MenuState::Resolved(r) => (MenuState::Resolved(r), MenuAction::Stop),
    }
}

/// Drive the menu's state machine by one observed event.
pub fn menu_step(state: MenuState, event: MenuEvent, n_entries: usize) -> (r: (
    MenuState,
    MenuAction,
))
    ensures
        r == spec_menu_step(state, event, n_entries as int),
{
    match state {
        MenuState::Idle => match event {
            MenuEvent::Entered => (MenuState::AwaitingInput, MenuAction::Redraw),
            _ => (MenuState::Idle, MenuAction::Wait),
        },
        MenuState::AwaitingInput => match event {
            MenuEvent::Entered => (MenuState::AwaitingInput, MenuAction::Redraw),
            MenuEvent::TimedOut => (MenuState::AwaitingInput, MenuAction::Redraw),
            MenuEvent::KeyPressed(k) => match resolve_key(k, n_entries) {
                Some(r) => (MenuState::Resolved(r), MenuAction::Stop),
                None => (MenuState::AwaitingInput, MenuAction::Redraw),
            },
        },
        MenuState::Resolved(r) => (MenuState::Resolved(r), MenuAction::Stop),
    }
}

/// Law: a resolution is final. Once the machine is `Resolved`, every further
/// event leaves the state unchanged and asks the loop to stop, so the loop
/// has exactly one exit path and the terminal is restored on it.
pub proof fn lemma_resolved_is_final(r: RunResult, event: MenuEvent, n: int)
    ensures
        spec_menu_step(MenuState::Resolved(r), event, n) == (MenuState::Resolved(r),
        MenuAction::Stop),
{
}

/// Law: the machine stops exactly when it has resolved — `Stop` is handed
/// back if and only if the resulting state is `Resolved`, so the loop can
/// neither exit without a result nor spin after one.
pub proof fn lemma_stop_iff_resolved(state: MenuState, event: MenuEvent, n: int)
    ensures
        (spec_menu_step(state, event, n).1 == MenuAction::Stop) <==> (spec_menu_step(
            state,
            event,
            n,
        ).0 is Resolved),
{
}

} // verus!
