//! The mode state machine: maps a key to at most one action, gates each
//! action on the current mode, and dispatches it to the navigator.

use vstd::prelude::*;

use crate::mode::Mode;
use crate::nav::{ContractViolation, Direction, NavV, NavigationState, ascend, ascend_step, descend, descend_step, move_sibling, sibling_step};
use crate::value::Value;

verus! {

/// The named actions a key may be bound to.
#[derive(Clone, Copy, Debug, PartialEq, Eq, Structural)]
pub enum Action {
    /// end the session with the nothing sentinel
    Quit,
    /// NORMAL -> INSERT
    EnterInsert,
    /// INSERT -> NORMAL
    EnterNormal,
    /// NORMAL -> PEEKING
    EnterPeek,
    /// ascend (NORMAL only)
    MoveLeft,
    /// next sibling (NORMAL only)
    MoveDown,
    /// previous sibling (NORMAL only)
    MoveUp,
    /// descend (NORMAL only)
    MoveRight,
    /// PEEKING -> NORMAL
    PeekQuit,
    /// end the session with a copy of the whole root
    PeekAll,
    /// end the session with the parent container of the focus
    PeekCurrent,
    /// end the session with the exact focused value
    PeekUnder,
}

/// What one dispatched key asks the session loop to do next.
#[derive(Clone, Copy, Debug, PartialEq, Eq, Structural)]
pub enum StepEffect {
    /// keep looping
    Continue,
    /// end the session, returning the nothing sentinel
    ExitNothing,
    /// end the session, returning a copy of the whole root
    ExitAll,
    /// end the session, returning `resolve(root, focus_path)` for the
    /// focus path the state holds after this step
    ExitAt,
}

/// The keys bound to the four navigation actions.
#[derive(Clone, Copy, Debug, PartialEq, Eq, Structural)]
pub struct NavigationBindingsMap {
    /// ascend
    pub left: char,
    /// next sibling
    pub down: char,
    /// previous sibling
    pub up: char,
    /// descend
    pub right: char,
}

/// The keys bound to the PEEKING sub-actions.
#[derive(Clone, Copy, Debug, PartialEq, Eq, Structural)]
pub struct PeekingBindingsMap {
    /// back to NORMAL
    pub quit: char,
    /// peek the whole root
    pub all: char,
    /// peek the parent container of the focus
    pub current: char,
    /// peek the exact focused value
    pub under: char,
}

/// The whole key-to-action configuration.
#[derive(Clone, Copy, Debug, PartialEq, Eq, Structural)]
pub struct KeyBindingsMap {
    /// end the session
    pub quit: char,
    /// enter INSERT
    pub insert: char,
    /// back to NORMAL
    pub normal: char,
    /// enter PEEKING
    pub peek: char,
    /// the navigation keys
    pub navigation: NavigationBindingsMap,
    /// the PEEKING sub-action keys
    pub peeking: PeekingBindingsMap,
}

/// The action a key maps to, if any.  A key event maps to at most one
/// action, resolved in a fixed priority order: session quit first, then
/// mode entry and exit, then the mode-gated navigation actions, then the
/// PEEKING sub-actions.  With a duplicate binding the earlier action in
/// this order always wins.
pub open spec fn action_of_key_spec(b: KeyBindingsMap, key: char) -> Option<Action> {
    if key == b.quit {
        Some(Action::Quit)
    } else if key == b.insert {
        Some(Action::EnterInsert)
    } else if key == b.normal {
        Some(Action::EnterNormal)
    } else if key == b.peek {
        Some(Action::EnterPeek)
    } else if key == b.navigation.left {
        Some(Action::MoveLeft)
    } else if key == b.navigation.down {
        Some(Action::MoveDown)
    } else if key == b.navigation.up {
        Some(Action::MoveUp)
    } else if key == b.navigation.right {
        Some(Action::MoveRight)
    } else if key == b.peeking.quit {
        Some(Action::PeekQuit)
    } else if key == b.peeking.all {
        Some(Action::PeekAll)
    } else if key == b.peeking.current {
        Some(Action::PeekCurrent)
    } else if key == b.peeking.under {
        Some(Action::PeekUnder)
    } else {
        None
    }
}

/// Resolve one key event to at most one action, by the fixed priority
/// order; an unbound key maps to no action and is silently dropped.
pub fn action_of_key(b: &KeyBindingsMap, key: char) -> (r: Option<Action>)
    ensures
        r == action_of_key_spec(*b, key),
{
    if key == b.quit {
        Some(Action::Quit)
    } else if key == b.insert {
        Some(Action::EnterInsert)
    } else if key == b.normal {
        Some(Action::EnterNormal)
    } else if key == b.peek {
        Some(Action::EnterPeek)
    } else if key == b.navigation.left {
        Some(Action::MoveLeft)
    } else if key == b.navigation.down {
        Some(Action::MoveDown)
    } else if key == b.navigation.up {
        Some(Action::MoveUp)
    } else if key == b.navigation.right {
        Some(Action::MoveRight)
    } else if key == b.peeking.quit {
        Some(Action::PeekQuit)
    } else if key == b.peeking.all {
        Some(Action::PeekAll)
    } else if key == b.peeking.current {
        Some(Action::PeekCurrent)
    } else if key == b.peeking.under {
        Some(Action::PeekUnder)
    } else {
        None
    }
}

/// What dispatching `action` in state `s` does: the state after the step
/// and the effect on the session.  An action the current mode's table does
/// not accept leaves the state unchanged and the loop running.  `None`
/// reports a broken path found by a navigator operation.
pub open spec fn step_spec(root: Value, s: NavV, action: Action) -> Option<(NavV, StepEffect)> {
    match action {
        Action::Quit => Some((s, StepEffect::ExitNothing)),
        Action::EnterInsert => if s.mode == Mode::Normal {
            Some((NavV { mode: Mode::Insert, ..s }, StepEffect::Continue))
        } else {
            Some((s, StepEffect::Continue))
        },
        Action::EnterNormal => if s.mode == Mode::Insert {
            Some((NavV { mode: Mode::Normal, ..s }, StepEffect::Continue))
        } else {
            Some((s, StepEffect::Continue))
        },
        Action::EnterPeek => if s.mode == Mode::Normal {
            Some((NavV { mode: Mode::Peeking, ..s }, StepEffect::Continue))
        } else {
            Some((s, StepEffect::Continue))
        },
        Action::MoveLeft => if s.mode == Mode::Normal {
            Some((ascend_step(s), StepEffect::Continue))
        } else {
            Some((s, StepEffect::Continue))
        },
        Action::MoveDown => if s.mode == Mode::Normal {
            match sibling_step(root, s, Direction::Next) {
                Some(s2) => Some((s2, StepEffect::Continue)),
                None => None,
            }
        } else {
            Some((s, StepEffect::Continue))
        },
        Action::MoveUp => if s.mode == Mode::Normal {
            match sibling_step(root, s, Direction::Previous) {
                Some(s2) => Some((s2, StepEffect::Continue)),
                None => None,
            }
        } else {
            Some((s, StepEffect::Continue))
        },
        Action::MoveRight => if s.mode == Mode::Normal {
            match descend_step(root, s) {
                Some(s2) => Some((s2, StepEffect::Continue)),
                None => None,
            }
        } else {
            Some((s, StepEffect::Continue))
        },
        Action::PeekQuit => if s.mode == Mode::Peeking {
            Some((NavV { mode: Mode::Normal, ..s }, StepEffect::Continue))
        } else {
            Some((s, StepEffect::Continue))
        },
        Action::PeekAll => if s.mode == Mode::Peeking {
            Some((s, StepEffect::ExitAll))
        } else {
            Some((s, StepEffect::Continue))
        },
        Action::PeekCurrent => if s.mode == Mode::Peeking {
            if s.path.len() > 0 {
                Some((NavV { path: s.path.drop_last(), ..s }, StepEffect::ExitAt))
            } else {
                Some((s, StepEffect::ExitAt))
            }
        } else {
            Some((s, StepEffect::Continue))
        },
        Action::PeekUnder => if s.mode == Mode::Peeking {
            Some((s, StepEffect::ExitAt))
        } else {
            Some((s, StepEffect::Continue))
        },
    }
}

/// Dispatch one already-resolved action: mutate the state and say how the
/// session goes on.  `peek-current` pops the last member regardless of the
/// leaf flag, so the session ends on the parent container of the prior
/// focus.
pub fn step(state: &mut NavigationState, root: &Value, action: Action) -> (r: Result<
    StepEffect,
    ContractViolation,
>)
    ensures
        match r {
            Ok(eff) => step_spec(*root, old(state)@, action) == Some((final(state)@, eff)),
            Err(_) => final(state)@ == old(state)@ && step_spec(*root, old(state)@, action) is None,
        },
{
    match action {
        Action::Quit => Ok(StepEffect::ExitNothing),
        Action::EnterInsert => {
            if state.mode == Mode::Normal {
                state.mode = Mode::Insert;
            }
            Ok(StepEffect::Continue)
        }
        Action::EnterNormal => {
            if state.mode == Mode::Insert {
                state.mode = Mode::Normal;
            }
            Ok(StepEffect::Continue)
        }
        Action::EnterPeek => {
            if state.mode == Mode::Normal {
                state.mode = Mode::Peeking;
            }
            Ok(StepEffect::Continue)
        }
        Action::MoveLeft => {
            if state.mode == Mode::Normal {
                ascend(state);
            }
            Ok(StepEffect::Continue)
        }
        Action::MoveDown => {
            if state.mode == Mode::Normal {
                match move_sibling(state, root, Direction::Next) {
                    Ok(_) => Ok(StepEffect::Continue),
                    Err(e) => Err(e),
                }
            } else {
                Ok(StepEffect::Continue)
            }
        }
        Action::MoveUp => {
            if state.mode == Mode::Normal {
                match move_sibling(state, root, Direction::Previous) {
                    Ok(_) => Ok(StepEffect::Continue),
                    Err(e) => Err(e),
                }
            } else {
                Ok(StepEffect::Continue)
            }
        }
        Action::MoveRight => {
            if state.mode == Mode::Normal {
                match descend(state, root) {
                    Ok(_) => Ok(StepEffect::Continue),
                    Err(e) => Err(e),
                }
            } else {
                Ok(StepEffect::Continue)
            }
        }
        Action::PeekQuit => {
            if state.mode == Mode::Peeking {
                state.mode = Mode::Normal;
            }
            Ok(StepEffect::Continue)
        }
        Action::PeekAll => {
            if state.mode == Mode::Peeking {
                Ok(StepEffect::ExitAll)
            } else {
                Ok(StepEffect::Continue)
            }
        }
        Action::PeekCurrent => {
            if state.mode == Mode::Peeking {
                proof {
                    if state.focus_path@.len() > 0 {
                        crate::path::lemma_path_view_drop_last(state.focus_path@);
                    }
                }
                let _ = state.focus_path.pop();
                Ok(StepEffect::ExitAt)
            } else {
                Ok(StepEffect::Continue)
            }
        }
        Action::PeekUnder => {
            if state.mode == Mode::Peeking {
                Ok(StepEffect::ExitAt)
            } else {
                Ok(StepEffect::Continue)
            }
        }
    }
}

/// What one key event does, end to end: resolve it to at most one action,
/// then dispatch that action; an unbound key leaves everything unchanged.
pub open spec fn handle_key_spec(root: Value, s: NavV, b: KeyBindingsMap, key: char) -> Option<
    (NavV, StepEffect),
> {
    match action_of_key_spec(b, key) {
        Some(a) => step_spec(root, s, a),
        None => Some((s, StepEffect::Continue)),
    }
}

/// Handle one key event: the single entry point a session loop needs per
/// iteration, besides rendering and the final resolve on exit.
pub fn handle_key(state: &mut NavigationState, root: &Value, b: &KeyBindingsMap, key: char) -> (r:
    Result<StepEffect, ContractViolation>)
    ensures
        match r {
            Ok(eff) => handle_key_spec(*root, old(state)@, *b, key) == Some((final(state)@, eff)),
            Err(_) => final(state)@ == old(state)@ && handle_key_spec(*root, old(state)@, *b, key)
                is None,
        },
{
    match action_of_key(b, key) {
        Some(a) => step(state, root, a),
        None => Ok(StepEffect::Continue),
    }
}

} // verus!
